//! The policy inspection command's decisions: which output format was asked
//! for, and how annotation keys are shortened for the pretty table. The
//! terminal rendering itself is the embedding program's work.

use vstd::prelude::*;
use crate::metadata::Metadata;
use crate::text::{spec_trim_start_matches, str_eq, trim_start_matches};

verus! {

/// Why an inspection request was refused.
#[derive(Clone, Debug, PartialEq)]
pub enum InspectError {
    /// An output format other than the known ones was asked for.
    InvalidOutputFormat(String),
}

/// The output format of the inspection command.
#[derive(Clone, Copy, Debug, PartialEq, Eq, Structural)]
pub enum OutputType {
    Yaml,
    Pretty,
}

impl OutputType {
    /// The format asked for on the command line: `yaml`, or the pretty table
    /// when nothing was asked.
    pub fn try_from(value: Option<&str>) -> (r: Result<OutputType, InspectError>)
        ensures
            match r {
                Ok(t) => (value is None && t == OutputType::Pretty) || (value matches Some(v) && v@
                    == "yaml"@ && t == OutputType::Yaml),
                Err(e) => value matches Some(v) && v@ != "yaml"@ && (e matches
                    InspectError::InvalidOutputFormat(u) && u@ == v@),
            },
    {
        match value {
            None => Ok(OutputType::Pretty),
            Some(v) => {
                if str_eq(v, "yaml") {
                    Ok(OutputType::Yaml)
                } else {
                    Err(InspectError::InvalidOutputFormat(v.to_owned()))
                }
            },
        }
    }
}

/// How metadata is rendered by the inspection command.
#[derive(Clone, Copy, Debug, PartialEq, Eq, Structural)]
pub enum MetadataPrinter {
    Yaml,
    Pretty,
}

/// How signatures are rendered by the inspection command.
#[derive(Clone, Copy, Debug, PartialEq, Eq, Structural)]
pub enum SignaturesPrinter {
    Yaml,
    Pretty,
}

/// The common prefix of the well-known policy annotations, dropped from the
/// pretty table's row keys.
pub open spec fn annotation_prefix() -> Seq<char> {
    "io.kubewarden.policy."@
}

impl MetadataPrinter {
    /// The printer for an output format.
    pub fn from(output_type: &OutputType) -> (r: MetadataPrinter)
        ensures
            *output_type == OutputType::Yaml ==> r == MetadataPrinter::Yaml,
            *output_type == OutputType::Pretty ==> r == MetadataPrinter::Pretty,
    {
        match output_type {
            OutputType::Yaml => MetadataPrinter::Yaml,
            OutputType::Pretty => MetadataPrinter::Pretty,
        }
    }

    /// The pretty table's row key for an annotation: a colon is appended and
    /// the well-known prefix is dropped, however often it repeats.
    pub fn annotation_to_row_key(&self, text: &str) -> (r: String)
        ensures
            r@ == spec_trim_start_matches(text@ + ":"@, annotation_prefix()),
    {
        let mut out = text.to_owned();
        out.append(":");
        trim_start_matches(out.as_str(), "io.kubewarden.policy.")
    }
}

impl SignaturesPrinter {
    /// The printer for an output format.
    pub fn from(output_type: &OutputType) -> (r: SignaturesPrinter)
        ensures
            *output_type == OutputType::Yaml ==> r == SignaturesPrinter::Yaml,
            *output_type == OutputType::Pretty ==> r == SignaturesPrinter::Pretty,
    {
        match output_type {
            OutputType::Yaml => SignaturesPrinter::Yaml,
            OutputType::Pretty => SignaturesPrinter::Pretty,
        }
    }
}

/// The value stored under an annotation key, if any.
pub open spec fn find_annotation(
    annotations: Seq<(String, String)>,
    key: Seq<char>,
) -> Option<Seq<char>>
    decreases annotations.len(),
{
    if annotations.len() == 0 {
        None
    } else if annotations[0].0@ == key {
        Some(annotations[0].1@)
    } else {
        find_annotation(annotations.drop_first(), key)
    }
}

/// Look an annotation up on a policy's metadata.
pub fn annotation_value<'a>(metadata: &'a Metadata, key: &str) -> (r: Option<&'a String>)
    ensures
        match r {
            Some(v) => metadata.annotations matches Some(anns) && find_annotation(anns@, key@)
                == Some(v@),
            None => match metadata.annotations {
                Some(anns) => find_annotation(anns@, key@) is None,
                None => true,
            },
        },
{
    let annotations = match &metadata.annotations {
        Some(anns) => anns,
        None => {
            return None;
        },
    };
    let n = annotations.len();
    let mut i: usize = 0;
    proof {
        assert(annotations@.skip(0) =~= annotations@);
    }
    while i < n
        invariant
            i <= n,
            n == annotations@.len(),
            metadata.annotations matches Some(anns) && anns == *annotations,
            find_annotation(annotations@, key@) == find_annotation(
                annotations@.skip(i as int),
                key@,
            ),
        decreases n - i,
    {
        proof {
            assert(annotations@.skip(i as int)[0] == annotations@[i as int]);
        }
        if str_eq(annotations[i].0.as_str(), key) {
            return Some(&annotations[i].1);
        }
        proof {
            assert(annotations@.skip(i as int).drop_first() =~= annotations@.skip(i as int + 1));
        }
        i += 1;
    }
    None
}

/// The annotation the usage section is printed from.
pub fn usage_annotation<'a>(metadata: &'a Metadata) -> (r: Option<&'a String>)
    ensures
        match r {
            Some(v) => metadata.annotations matches Some(anns) && find_annotation(
                anns@,
                "io.kubewarden.policy.usage"@,
            ) == Some(v@),
            None => match metadata.annotations {
                Some(anns) => find_annotation(anns@, "io.kubewarden.policy.usage"@) is None,
                None => true,
            },
        },
{
    annotation_value(metadata, "io.kubewarden.policy.usage")
}

} // verus!
