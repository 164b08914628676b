//! Signature verification of policy images: a verification config lists
//! constraints, a registry hands back trusted signature layers, and this
//! module decides whether the layers satisfy the config.
//!
//! A trusted layer is kept as a plain record of the facts the constraints
//! read: the certificate issuer and subject of a keyless signature, the key
//! or certificate that verified the layer, and its annotations.

use vstd::prelude::*;
use crate::text::{dec_digits, spec_starts_with, str_eq, str_starts_with, u64_to_string};

verus! {

/// The subject demanded of a keyless signature: an exact identity, or any
/// URI under a prefix.
#[derive(Clone, Debug)]
pub enum Subject {
    Equal(String),
    UrlPrefix(String),
}

/// One signature constraint of a verification config.
#[derive(Clone, Debug)]
pub enum Signature {
    GenericIssuer { issuer: String, subject: Subject, annotations: Option<Vec<(String, String)>> },
    GithubAction {
        owner: String,
        repository: Option<String>,
        annotations: Option<Vec<(String, String)>>,
    },
    PubKey { owner: Option<String>, key: String, annotations: Option<Vec<(String, String)>> },
    Certificate {
        owner: Option<String>,
        certificate: String,
        annotations: Option<Vec<(String, String)>>,
    },
}

/// The quorum part of a verification config: at least `minimum_matches` of
/// the listed constraints must be satisfied.
#[derive(Clone, Debug)]
pub struct AnyOf {
    pub minimum_matches: u8,
    pub signatures: Vec<Signature>,
}

/// A verification config: every `all_of` constraint must be satisfied, and
/// the `any_of` quorum must be reached. A config with neither is an error.
#[derive(Clone, Debug)]
pub struct LatestVerificationConfig {
    pub all_of: Option<Vec<Signature>>,
    pub any_of: Option<AnyOf>,
}

/// The subject a signing certificate states.
#[derive(Clone, Debug)]
pub enum CertificateSubject {
    Email(String),
    Uri(String),
}

/// A trusted signature layer of a policy image, reduced to the facts the
/// constraints read.
#[derive(Clone, Debug)]
pub struct TrustedLayer {
    /// The issuer inside a keyless signing certificate.
    pub certificate_issuer: Option<String>,
    /// The subject inside a keyless signing certificate.
    pub certificate_subject: Option<CertificateSubject>,
    /// The public key that verified the layer, in its PEM rendering.
    pub public_key: Option<String>,
    /// The certificate that verified the layer, in its PEM rendering.
    pub certificate: Option<String>,
    /// The annotations attached to the layer.
    pub annotations: Vec<(String, String)>,
}

/// The issuer that signs workflows of the public GitHub instance.
pub open spec fn github_actions_issuer() -> Seq<char> {
    "https://token.actions.githubusercontent.com"@
}

/// The subject prefix a GitHub workflow signature must carry.
pub open spec fn spec_github_prefix(owner: Seq<char>, repository: Option<Seq<char>>) -> Seq<char> {
    match repository {
        Some(r) => "https://github.com/"@ + owner + "/"@ + r + "/"@,
        None => "https://github.com/"@ + owner + "/"@,
    }
}

pub open spec fn spec_subject_matches(s: Subject, cert: CertificateSubject) -> bool {
    match (s, cert) {
        (Subject::Equal(e), CertificateSubject::Email(m)) => e@ == m@,
        (Subject::Equal(e), CertificateSubject::Uri(u)) => e@ == u@,
        (Subject::UrlPrefix(p), CertificateSubject::Uri(u)) => spec_starts_with(u@, p@),
        (Subject::UrlPrefix(_), CertificateSubject::Email(_)) => false,
    }
}

pub open spec fn spec_has_annotation(have: Seq<(String, String)>, kv: (String, String)) -> bool {
    exists|j: int| 0 <= j < have.len() && have[j].0@ == kv.0@ && have[j].1@ == kv.1@
}

pub open spec fn spec_all_annotations_present(
    req: Seq<(String, String)>,
    have: Seq<(String, String)>,
) -> bool {
    forall|i: int| 0 <= i < req.len() ==> #[trigger] spec_has_annotation(have, req[i])
}

pub open spec fn spec_annotations_subset(
    required: Option<Vec<(String, String)>>,
    have: Seq<(String, String)>,
) -> bool {
    match required {
        None => true,
        Some(req) => spec_all_annotations_present(req@, have),
    }
}

/// When one constraint accepts one trusted layer.
pub open spec fn spec_matches_layer(s: Signature, l: TrustedLayer) -> bool {
    match s {
        Signature::GenericIssuer { issuer, subject, annotations } => {
            &&& l.certificate_issuer matches Some(li) && li@ == issuer@
            &&& l.certificate_subject matches Some(cs) && spec_subject_matches(subject, cs)
            &&& spec_annotations_subset(annotations, l.annotations@)
        },
        Signature::GithubAction { owner, repository, annotations } => {
            &&& l.certificate_issuer matches Some(li) && li@ == github_actions_issuer()
            &&& l.certificate_subject matches Some(cs) && cs matches CertificateSubject::Uri(u)
                && spec_starts_with(
                u@,
                spec_github_prefix(
                    owner@,
                    match repository {
                        Some(r) => Some(r@),
                        None => None,
                    },
                ),
            )
            &&& spec_annotations_subset(annotations, l.annotations@)
        },
        Signature::PubKey { key, .. } => {
            &&& l.public_key matches Some(k) && k@ == key@
            &&& spec_annotations_subset(s.annotations_of(), l.annotations@)
        },
        Signature::Certificate { certificate, .. } => {
            &&& l.certificate matches Some(c) && c@ == certificate@
            &&& spec_annotations_subset(s.annotations_of(), l.annotations@)
        },
    }
}

impl Signature {
    /// The annotations the constraint demands.
    pub open spec fn annotations_of(self) -> Option<Vec<(String, String)>> {
        match self {
            Signature::GenericIssuer { annotations, .. } => annotations,
            Signature::GithubAction { annotations, .. } => annotations,
            Signature::PubKey { annotations, .. } => annotations,
            Signature::Certificate { annotations, .. } => annotations,
        }
    }
}

/// A constraint is satisfied when at least one trusted layer matches it.
pub open spec fn spec_satisfied(s: Signature, layers: Seq<TrustedLayer>) -> bool {
    exists|i: int| 0 <= i < layers.len() && spec_matches_layer(s, layers[i])
}

fn annotations_subset(required: &Option<Vec<(String, String)>>, have: &Vec<(String, String)>) -> (r:
    bool)
    ensures
        r == spec_annotations_subset(*required, have@),
{
    match required {
        None => true,
        Some(req) => {
            let mut i: usize = 0;
            while i < req.len()
                invariant
                    i <= req.len(),
                    *required == Some(*req),
                    forall|k: int| 0 <= k < i ==> spec_has_annotation(have@, req@[k]),
                decreases req.len() - i,
            {
                let kv = &req[i];
                let mut j: usize = 0;
                let mut found = false;
                while j < have.len()
                    invariant
                        j <= have.len(),
                        found == exists|m: int|
                            0 <= m < j && have@[m].0@ == kv.0@ && have@[m].1@ == kv.1@,
                    decreases have.len() - j,
                {
                    if have[j].0 == kv.0 && have[j].1 == kv.1 {
                        found = true;
                    }
                    j += 1;
                }
                if !found {
                    proof {
                        assert(!spec_has_annotation(have@, req@[i as int]));
                        assert(!spec_all_annotations_present(req@, have@));
                    }
                    return false;
                }
                i += 1;
            }
            true
        },
    }
}

fn subject_matches(s: &Subject, cert: &CertificateSubject) -> (r: bool)
    ensures
        r == spec_subject_matches(*s, *cert),
{
    match (s, cert) {
        (Subject::Equal(e), CertificateSubject::Email(m)) => *e == *m,
        (Subject::Equal(e), CertificateSubject::Uri(u)) => *e == *u,
        (Subject::UrlPrefix(p), CertificateSubject::Uri(u)) => str_starts_with(
            u.as_str(),
            p.as_str(),
        ),
        (Subject::UrlPrefix(_), CertificateSubject::Email(_)) => false,
    }
}

fn github_prefix(owner: &String, repository: &Option<String>) -> (r: String)
    ensures
        r@ == spec_github_prefix(
            owner@,
            match *repository {
                Some(ref s) => Some(s@),
                None => None,
            },
        ),
{
    let mut s = "https://github.com/".to_owned();
    s.append(owner.as_str());
    s.append("/");
    match repository {
        Some(repo) => {
            s.append(repo.as_str());
            s.append("/");
        },
        None => {},
    }
    proof {
        assert(s@ =~= spec_github_prefix(
            owner@,
            match *repository {
                Some(ref x) => Some(x@),
                None => None,
            },
        ));
    }
    s
}

/// Whether one trusted layer matches one constraint.
pub fn matches_layer(s: &Signature, l: &TrustedLayer) -> (r: bool)
    ensures
        r == spec_matches_layer(*s, *l),
{
    match s {
        Signature::GenericIssuer { issuer, subject, annotations } => {
            let issuer_ok = match &l.certificate_issuer {
                Some(li) => *li == *issuer,
                None => false,
            };
            let subject_ok = match &l.certificate_subject {
                Some(cs) => subject_matches(subject, cs),
                None => false,
            };
            issuer_ok && subject_ok && annotations_subset(annotations, &l.annotations)
        },
        Signature::GithubAction { owner, repository, annotations } => {
            let issuer_ok = match &l.certificate_issuer {
                Some(li) => {
                    let expected = "https://token.actions.githubusercontent.com".to_owned();
                    *li == expected
                },
                None => false,
            };
            let prefix = github_prefix(owner, repository);
            let subject_ok = match &l.certificate_subject {
                Some(CertificateSubject::Uri(u)) => str_starts_with(u.as_str(), prefix.as_str()),
                _ => false,
            };
            issuer_ok && subject_ok && annotations_subset(annotations, &l.annotations)
        },
        Signature::PubKey { key, annotations, .. } => {
            let key_ok = match &l.public_key {
                Some(k) => *k == *key,
                None => false,
            };
            key_ok && annotations_subset(annotations, &l.annotations)
        },
        Signature::Certificate { certificate, annotations, .. } => {
            let cert_ok = match &l.certificate {
                Some(c) => *c == *certificate,
                None => false,
            };
            cert_ok && annotations_subset(annotations, &l.annotations)
        },
    }
}

/// Whether some trusted layer satisfies the constraint.
pub fn is_satisfied(s: &Signature, layers: &Vec<TrustedLayer>) -> (r: bool)
    ensures
        r == spec_satisfied(*s, layers@),
{
    let mut i: usize = 0;
    while i < layers.len()
        invariant
            i <= layers.len(),
            forall|k: int| 0 <= k < i ==> !spec_matches_layer(*s, layers@[k]),
        decreases layers.len() - i,
    {
        if matches_layer(s, &layers[i]) {
            return true;
        }
        i += 1;
    }
    false
}

/// The constraints of `sigs` that no trusted layer satisfies, in order.
pub open spec fn spec_unsatisfied(sigs: Seq<Signature>, layers: Seq<TrustedLayer>) -> Seq<Signature>
    decreases sigs.len(),
{
    if sigs.len() == 0 {
        Seq::empty()
    } else {
        spec_unsatisfied(sigs.drop_last(), layers) + (if spec_satisfied(sigs.last(), layers) {
            Seq::empty()
        } else {
            seq![sigs.last()]
        })
    }
}

/// How many of the constraints are satisfied.
pub open spec fn count_satisfied(sigs: Seq<Signature>, layers: Seq<TrustedLayer>) -> nat
    decreases sigs.len(),
{
    if sigs.len() == 0 {
        0
    } else {
        count_satisfied(sigs.drop_last(), layers) + (if spec_satisfied(sigs.last(), layers) {
            1nat
        } else {
            0nat
        })
    }
}

/// No constraint is left unsatisfied exactly when every constraint is
/// satisfied.
pub proof fn lemma_unsatisfied_empty(sigs: Seq<Signature>, layers: Seq<TrustedLayer>)
    ensures
        (spec_unsatisfied(sigs, layers).len() == 0) <==> (forall|i: int|
            0 <= i < sigs.len() ==> spec_satisfied(sigs[i], layers)),
    decreases sigs.len(),
{
    if sigs.len() > 0 {
        lemma_unsatisfied_empty(sigs.drop_last(), layers);
        assert(forall|i: int|
            0 <= i < sigs.len() - 1 ==> sigs.drop_last()[i] == sigs[i]);
    }
}

/// The satisfied count never exceeds the number of constraints, and together
/// with the unsatisfied constraints accounts for all of them.
pub proof fn lemma_count_plus_unsatisfied(sigs: Seq<Signature>, layers: Seq<TrustedLayer>)
    ensures
        count_satisfied(sigs, layers) + spec_unsatisfied(sigs, layers).len() == sigs.len(),
    decreases sigs.len(),
{
    if sigs.len() > 0 {
        lemma_count_plus_unsatisfied(sigs.drop_last(), layers);
    }
}

/// Why verification failed.
#[derive(Clone, Debug, PartialEq)]
pub enum VerifyError {
    ImageVerificationError(String),
    ChecksumVerificationError(String),
}

impl VerifyError {
    /// The text of the failure.
    pub fn message(&self) -> (r: &str)
        ensures
            *self matches VerifyError::ImageVerificationError(m) ==> r@ == m@,
            *self matches VerifyError::ChecksumVerificationError(m) ==> r@ == m@,
    {
        match self {
            VerifyError::ImageVerificationError(m) => m.as_str(),
            VerifyError::ChecksumVerificationError(m) => m.as_str(),
        }
    }
}

/// The YAML rendering of a constraint, as it appears in failure reports.
pub open spec fn spec_signature_yaml(s: Signature) -> Seq<char> {
    match s {
        Signature::GenericIssuer { issuer, subject, annotations } => "kind: genericIssuer\nissuer: "@
            + issuer@ + "\n"@ + spec_subject_yaml(subject) + spec_annotations_yaml(annotations),
        Signature::GithubAction { owner, repository, annotations } => "kind: githubAction\nowner: "@
            + owner@ + "\n"@ + (match repository {
            Some(r) => "repository: "@ + r@ + "\n"@,
            None => "repository: null\n"@,
        }) + spec_annotations_yaml(annotations),
        Signature::PubKey { owner, key, annotations } => "kind: pubKey\n"@ + (match owner {
            Some(o) => "owner: "@ + o@ + "\n"@,
            None => "owner: null\n"@,
        }) + "key: "@ + key@ + "\n"@ + spec_annotations_yaml(annotations),
        Signature::Certificate { owner, certificate, annotations } => "kind: certificate\n"@ + (
        match owner {
            Some(o) => "owner: "@ + o@ + "\n"@,
            None => "owner: null\n"@,
        }) + "certificate: "@ + certificate@ + "\n"@ + spec_annotations_yaml(annotations),
    }
}

pub open spec fn spec_subject_yaml(s: Subject) -> Seq<char> {
    match s {
        Subject::Equal(e) => "subject: !equal "@ + e@ + "\n"@,
        Subject::UrlPrefix(p) => "subject: !urlPrefix "@ + p@ + "\n"@,
    }
}

pub open spec fn spec_annotations_yaml(annotations: Option<Vec<(String, String)>>) -> Seq<char> {
    match annotations {
        None => "annotations: null\n"@,
        Some(list) => "annotations:\n"@ + spec_annotation_lines(list@),
    }
}

pub open spec fn spec_annotation_lines(list: Seq<(String, String)>) -> Seq<char>
    decreases list.len(),
{
    if list.len() == 0 {
        Seq::empty()
    } else {
        spec_annotation_lines(list.drop_last()) + "  "@ + list.last().0@ + ": "@ + list.last().1@
            + "\n"@
    }
}

fn annotations_yaml(annotations: &Option<Vec<(String, String)>>) -> (r: String)
    ensures
        r@ == spec_annotations_yaml(*annotations),
{
    match annotations {
        None => "annotations: null\n".to_owned(),
        Some(list) => {
            let mut s = "annotations:\n".to_owned();
            let mut i: usize = 0;
            while i < list.len()
                invariant
                    i <= list.len(),
                    s@ == "annotations:\n"@ + spec_annotation_lines(list@.take(i as int)),
                decreases list.len() - i,
            {
                s.append("  ");
                s.append(list[i].0.as_str());
                s.append(": ");
                s.append(list[i].1.as_str());
                s.append("\n");
                proof {
                    assert(list@.take(i + 1int).drop_last() =~= list@.take(i as int));
                    assert(list@.take(i + 1int).last() == list@[i as int]);
                    assert(s@ =~= "annotations:\n"@ + spec_annotation_lines(
                        list@.take(i + 1int),
                    ));
                }
                i += 1;
            }
            proof {
                assert(list@.take(list@.len() as int) =~= list@);
            }
            s
        },
    }
}

/// Render a constraint the way failure reports list it.
pub fn signature_yaml(s: &Signature) -> (r: String)
    ensures
        r@ == spec_signature_yaml(*s),
{
    match s {
        Signature::GenericIssuer { issuer, subject, annotations } => {
            let mut out = "kind: genericIssuer\nissuer: ".to_owned();
            out.append(issuer.as_str());
            out.append("\n");
            match subject {
                Subject::Equal(e) => {
                    out.append("subject: !equal ");
                    out.append(e.as_str());
                    out.append("\n");
                },
                Subject::UrlPrefix(p) => {
                    out.append("subject: !urlPrefix ");
                    out.append(p.as_str());
                    out.append("\n");
                },
            }
            let ann = annotations_yaml(annotations);
            out.append(ann.as_str());
            proof {
                assert(out@ =~= spec_signature_yaml(*s));
            }
            out
        },
        Signature::GithubAction { owner, repository, annotations } => {
            let mut out = "kind: githubAction\nowner: ".to_owned();
            out.append(owner.as_str());
            out.append("\n");
            match repository {
                Some(rp) => {
                    out.append("repository: ");
                    out.append(rp.as_str());
                    out.append("\n");
                },
                None => {
                    out.append("repository: null\n");
                },
            }
            let ann = annotations_yaml(annotations);
            out.append(ann.as_str());
            proof {
                assert(out@ =~= spec_signature_yaml(*s));
            }
            out
        },
        Signature::PubKey { owner, key, annotations } => {
            let mut out = "kind: pubKey\n".to_owned();
            match owner {
                Some(o) => {
                    out.append("owner: ");
                    out.append(o.as_str());
                    out.append("\n");
                },
                None => {
                    out.append("owner: null\n");
                },
            }
            out.append("key: ");
            out.append(key.as_str());
            out.append("\n");
            let ann = annotations_yaml(annotations);
            out.append(ann.as_str());
            proof {
                assert(out@ =~= spec_signature_yaml(*s));
            }
            out
        },
        Signature::Certificate { owner, certificate, annotations } => {
            let mut out = "kind: certificate\n".to_owned();
            match owner {
                Some(o) => {
                    out.append("owner: ");
                    out.append(o.as_str());
                    out.append("\n");
                },
                None => {
                    out.append("owner: null\n");
                },
            }
            out.append("certificate: ");
            out.append(certificate.as_str());
            out.append("\n");
            let ann = annotations_yaml(annotations);
            out.append(ann.as_str());
            proof {
                assert(out@ =~= spec_signature_yaml(*s));
            }
            out
        },
    }
}

/// The YAML renderings of a list of constraints, one after another.
pub open spec fn spec_signatures_yaml(sigs: Seq<Signature>) -> Seq<char>
    decreases sigs.len(),
{
    if sigs.len() == 0 {
        Seq::empty()
    } else {
        spec_signatures_yaml(sigs.drop_last()) + spec_signature_yaml(sigs.last())
    }
}

/// The message reported when a config holds no constraints at all.
pub open spec fn spec_no_signatures_message() -> Seq<char> {
    "Image verification failed: no signatures to verify"@
}

/// The message reported when `all_of` constraints go unsatisfied.
pub open spec fn spec_all_of_failure_message(unsatisfied: Seq<Signature>) -> Seq<char> {
    "Image verification failed: missing signatures\nThe following constraints were not satisfied:\n"@
        + spec_signatures_yaml(unsatisfied)
}

/// The message reported when the `any_of` quorum is missed.
pub open spec fn spec_any_of_failure_message(
    needed: nat,
    got: nat,
    unsatisfied: Seq<Signature>,
) -> Seq<char> {
    "Image verification failed: minimum number of signatures not reached: needed "@ + dec_digits(
        needed,
    ) + ", got "@ + dec_digits(got)
        + "\nThe following constraints were not satisfied:\n"@ + spec_signatures_yaml(unsatisfied)
}

/// Every `all_of` constraint is satisfied by some trusted layer.
pub open spec fn spec_all_of_passes(
    config: LatestVerificationConfig,
    layers: Seq<TrustedLayer>,
) -> bool {
    match config.all_of {
        None => true,
        Some(sigs) => forall|i: int| 0 <= i < sigs@.len() ==> spec_satisfied(sigs@[i], layers),
    }
}

/// The `any_of` quorum is reached.
pub open spec fn spec_any_of_passes(
    config: LatestVerificationConfig,
    layers: Seq<TrustedLayer>,
) -> bool {
    match config.any_of {
        None => true,
        Some(any) => count_satisfied(any.signatures@, layers) >= any.minimum_matches,
    }
}

/// The whole verification outcome: the config names at least one group of
/// constraints, every `all_of` constraint is satisfied, and the `any_of`
/// quorum is reached.
pub open spec fn verification_passes(
    config: LatestVerificationConfig,
    layers: Seq<TrustedLayer>,
) -> bool {
    &&& config.all_of is Some || config.any_of is Some
    &&& spec_all_of_passes(config, layers)
    &&& spec_any_of_passes(config, layers)
}

/// Count the satisfied constraints and render the unsatisfied ones, in
/// order, the way failure reports list them.
fn check_signatures(sigs: &Vec<Signature>, layers: &Vec<TrustedLayer>) -> (r: (usize, String))
    ensures
        r.0 == count_satisfied(sigs@, layers@),
        r.1@ == spec_signatures_yaml(spec_unsatisfied(sigs@, layers@)),
{
    let mut yaml = String::new();
    let mut satisfied: usize = 0;
    let mut i: usize = 0;
    while i < sigs.len()
        invariant
            i <= sigs.len(),
            satisfied == count_satisfied(sigs@.take(i as int), layers@),
            satisfied <= i,
            yaml@ == spec_signatures_yaml(spec_unsatisfied(sigs@.take(i as int), layers@)),
        decreases sigs.len() - i,
    {
        proof {
            assert(sigs@.take(i as int + 1).drop_last() =~= sigs@.take(i as int));
            assert(sigs@.take(i as int + 1).last() == sigs@[i as int]);
        }
        if is_satisfied(&sigs[i], layers) {
            satisfied += 1;
            proof {
                assert(spec_unsatisfied(sigs@.take(i as int + 1), layers@) =~= spec_unsatisfied(
                    sigs@.take(i as int),
                    layers@,
                ));
            }
        } else {
            let y = signature_yaml(&sigs[i]);
            yaml.append(y.as_str());
            proof {
                let prev = spec_unsatisfied(sigs@.take(i as int), layers@);
                let cur = spec_unsatisfied(sigs@.take(i as int + 1), layers@);
                assert(cur =~= prev.push(sigs@[i as int]));
                assert(cur.drop_last() =~= prev);
                assert(yaml@ =~= spec_signatures_yaml(cur));
            }
        }
        i += 1;
    }
    proof {
        assert(sigs@.take(sigs@.len() as int) =~= sigs@);
    }
    (satisfied, yaml)
}

/// Verify the trusted layers of a policy image against a verification
/// config: every `all_of` constraint must have a matching layer, and at
/// least `minimum_matches` of the `any_of` constraints must have one.
pub fn verify_signatures_against_config(
    verification_config: &LatestVerificationConfig,
    trusted_layers: &Vec<TrustedLayer>,
) -> (r: Result<(), VerifyError>)
    ensures
        r is Ok <==> verification_passes(*verification_config, trusted_layers@),
        verification_config.all_of is None && verification_config.any_of is None ==> (r matches Err(
            VerifyError::ImageVerificationError(m),
        ) && m@ == spec_no_signatures_message()),
        !spec_all_of_passes(*verification_config, trusted_layers@) ==> (r matches Err(
            VerifyError::ImageVerificationError(m),
        ) && m@ == spec_all_of_failure_message(
            spec_unsatisfied(verification_config.all_of->0@, trusted_layers@),
        )),
        spec_all_of_passes(*verification_config, trusted_layers@) && !spec_any_of_passes(
            *verification_config,
            trusted_layers@,
        ) ==> (r matches Err(VerifyError::ImageVerificationError(m)) && m@
            == spec_any_of_failure_message(
            verification_config.any_of->0.minimum_matches as nat,
            count_satisfied(verification_config.any_of->0.signatures@, trusted_layers@),
            spec_unsatisfied(verification_config.any_of->0.signatures@, trusted_layers@),
        )),
{
    if verification_config.all_of.is_none() && verification_config.any_of.is_none() {
        return Err(VerifyError::ImageVerificationError(
            "Image verification failed: no signatures to verify".to_owned(),
        ));
    }
    if let Some(signatures_all_of) = &verification_config.all_of {
        let (satisfied, unsatisfied_yaml) = check_signatures(signatures_all_of, trusted_layers);
        proof {
            lemma_unsatisfied_empty(signatures_all_of@, trusted_layers@);
            lemma_count_plus_unsatisfied(signatures_all_of@, trusted_layers@);
        }
        if satisfied < signatures_all_of.len() {
            let mut errormsg =
                "Image verification failed: missing signatures\nThe following constraints were not satisfied:\n".to_owned();
            errormsg.append(unsatisfied_yaml.as_str());
            proof {
                assert(errormsg@ =~= spec_all_of_failure_message(
                    spec_unsatisfied(signatures_all_of@, trusted_layers@),
                ));
            }
            return Err(VerifyError::ImageVerificationError(errormsg));
        }
    }
    if let Some(signatures_any_of) = &verification_config.any_of {
        let (satisfied, unsatisfied_yaml) = check_signatures(
            &signatures_any_of.signatures,
            trusted_layers,
        );
        let minimum: usize = signatures_any_of.minimum_matches as usize;
        if satisfied < minimum {
            let mut errormsg =
                "Image verification failed: minimum number of signatures not reached: needed ".to_owned();
            let needed_str = u64_to_string(signatures_any_of.minimum_matches as u64);
            errormsg.append(needed_str.as_str());
            errormsg.append(", got ");
            let got_str = u64_to_string(satisfied as u64);
            errormsg.append(got_str.as_str());
            errormsg.append("\nThe following constraints were not satisfied:\n");
            errormsg.append(unsatisfied_yaml.as_str());
            proof {
                assert(errormsg@ =~= spec_any_of_failure_message(
                    signatures_any_of.minimum_matches as nat,
                    count_satisfied(signatures_any_of.signatures@, trusted_layers@),
                    spec_unsatisfied(signatures_any_of.signatures@, trusted_layers@),
                ));
            }
            return Err(VerifyError::ImageVerificationError(errormsg));
        }
    }
    Ok(())
}

/// Law: with only `all_of` constraints configured, verification succeeds
/// exactly when every constraint has a matching trusted layer.
pub proof fn lemma_all_of_law(config: LatestVerificationConfig, layers: Seq<TrustedLayer>)
    requires
        config.all_of is Some,
        config.any_of is None,
    ensures
        verification_passes(config, layers) <==> (forall|i: int|
            0 <= i < config.all_of->0@.len() ==> spec_satisfied(config.all_of->0@[i], layers)),
{
}

/// Law: with only an `any_of` quorum configured, verification succeeds
/// exactly when at least `minimum_matches` of its constraints are satisfied.
pub proof fn lemma_any_of_law(config: LatestVerificationConfig, layers: Seq<TrustedLayer>)
    requires
        config.any_of is Some,
        config.all_of is None,
    ensures
        verification_passes(config, layers) <==> count_satisfied(
            config.any_of->0.signatures@,
            layers,
        ) >= config.any_of->0.minimum_matches,
{
}

/// One layer of an image manifest: its media type and its digest.
#[derive(Clone, Debug)]
pub struct ManifestLayer {
    pub media_type: String,
    pub digest: String,
}

/// The media type that marks the Wasm layer of a policy image.
pub open spec fn wasm_layer_media_type() -> Seq<char> {
    "application/vnd.wasm.content.layer.v1+wasm"@
}

/// How many layers of the manifest carry the Wasm media type.
pub open spec fn wasm_digest_count(layers: Seq<ManifestLayer>) -> nat
    decreases layers.len(),
{
    if layers.len() == 0 {
        0
    } else {
        wasm_digest_count(layers.drop_last()) + (if layers.last().media_type@
            == wasm_layer_media_type() {
            1nat
        } else {
            0nat
        })
    }
}

/// The digest of the first Wasm layer; meaningful only when one exists.
pub open spec fn first_wasm_digest(layers: Seq<ManifestLayer>) -> Seq<char>
    decreases layers.len(),
{
    if layers.len() == 0 {
        Seq::empty()
    } else if wasm_digest_count(layers.drop_last()) >= 1 {
        first_wasm_digest(layers.drop_last())
    } else if layers.last().media_type@ == wasm_layer_media_type() {
        layers.last().digest@
    } else {
        Seq::empty()
    }
}

/// The local file's checksum check: the manifest must hold
/// exactly one Wasm layer, its digest must use SHA-256, and the rest of that
/// digest must equal the digest of the local file.
pub open spec fn checksum_passes(layers: Seq<ManifestLayer>, file_digest: Seq<char>) -> bool {
    &&& wasm_digest_count(layers) == 1
    &&& spec_starts_with(first_wasm_digest(layers), "sha256:"@)
    &&& first_wasm_digest(layers).subrange(7, first_wasm_digest(layers).len() as int)
        == file_digest
}

/// The message reported when the local file's digest differs from the one the
/// signed manifest states.
pub open spec fn spec_checksum_mismatch_message(got: Seq<char>, expected: Seq<char>) -> Seq<char> {
    "The digest of the local file doesn't match with the one reported inside of the signed manifest. Got "@
        + got + " instead of "@ + expected
}

/// Compare the digest of a local policy file with the one inside its signed
/// (and already verified) manifest: this is how tampering with the local
/// copy is caught.
pub fn verify_local_file_checksum(manifest_layers: &Vec<ManifestLayer>, file_digest: &str) -> (r:
    Result<(), VerifyError>)
    ensures
        r is Ok <==> checksum_passes(manifest_layers@, file_digest@),
        wasm_digest_count(manifest_layers@) != 1 ==> (r matches Err(
            VerifyError::ChecksumVerificationError(m),
        ) && m@
            == "Cannot verify local file integrity, the remote manifest doesn't have only one WASM layer"@),
        wasm_digest_count(manifest_layers@) == 1 && !spec_starts_with(
            first_wasm_digest(manifest_layers@),
            "sha256:"@,
        ) ==> (r matches Err(VerifyError::ChecksumVerificationError(m)) && m@
            == "The checksum inside of the remote manifest is not using the sha256 hashing algorithm as expected."@),
        wasm_digest_count(manifest_layers@) == 1 && spec_starts_with(
            first_wasm_digest(manifest_layers@),
            "sha256:"@,
        ) && first_wasm_digest(manifest_layers@).subrange(
            7,
            first_wasm_digest(manifest_layers@).len() as int,
        ) != file_digest@ ==> (r matches Err(VerifyError::ChecksumVerificationError(m)) && m@
            == spec_checksum_mismatch_message(
            file_digest@,
            first_wasm_digest(manifest_layers@).subrange(
                7,
                first_wasm_digest(manifest_layers@).len() as int,
            ),
        )),
{
    let mut count: usize = 0;
    let mut wasm_digest = String::new();
    let mut i: usize = 0;
    while i < manifest_layers.len()
        invariant
            i <= manifest_layers.len(),
            count == wasm_digest_count(manifest_layers@.take(i as int)),
            count <= i,
            count >= 1 ==> wasm_digest@ == first_wasm_digest(manifest_layers@.take(i as int)),
        decreases manifest_layers.len() - i,
    {
        proof {
            assert(manifest_layers@.take(i as int + 1).drop_last() =~= manifest_layers@.take(
                i as int,
            ));
            assert(manifest_layers@.take(i as int + 1).last() == manifest_layers@[i as int]);
        }
        if str_eq(
            manifest_layers[i].media_type.as_str(),
            "application/vnd.wasm.content.layer.v1+wasm",
        ) {
            if count == 0 {
                wasm_digest = manifest_layers[i].digest.clone();
            }
            count += 1;
        }
        i += 1;
    }
    proof {
        assert(manifest_layers@.take(manifest_layers@.len() as int) =~= manifest_layers@);
    }
    if count != 1 {
        return Err(VerifyError::ChecksumVerificationError(
            "Cannot verify local file integrity, the remote manifest doesn't have only one WASM layer".to_owned(),
        ));
    }
    let expected_digest = match crate::text::strip_prefix(wasm_digest.as_str(), "sha256:") {
        Some(rest) => rest,
        None => {
            proof {
                reveal_strlit("sha256:");
            }
            return Err(VerifyError::ChecksumVerificationError(
                "The checksum inside of the remote manifest is not using the sha256 hashing algorithm as expected.".to_owned(),
            ));
        },
    };
    proof {
        reveal_strlit("sha256:");
        assert("sha256:"@.len() == 7);
    }
    if str_eq(file_digest, expected_digest.as_str()) {
        Ok(())
    } else {
        let mut msg =
            "The digest of the local file doesn't match with the one reported inside of the signed manifest. Got ".to_owned();
        msg.append(file_digest);
        msg.append(" instead of ");
        msg.append(expected_digest.as_str());
        proof {
            assert(msg@ =~= spec_checksum_mismatch_message(file_digest@, expected_digest@));
        }
        Err(VerifyError::ChecksumVerificationError(msg))
    }
}

/// Verify a policy image: given the source image digest and the trusted
/// signature layers fetched for it, return the digest when the layers
/// satisfy the verification config.
pub fn verify(
    source_image_digest: String,
    trusted_layers: &Vec<TrustedLayer>,
    verification_config: &LatestVerificationConfig,
) -> (r: Result<String, VerifyError>)
    ensures
        r matches Ok(d) ==> d == source_image_digest && verification_passes(
            *verification_config,
            trusted_layers@,
        ),
        r is Err <==> !verification_passes(*verification_config, trusted_layers@),
{
    match verify_signatures_against_config(verification_config, trusted_layers) {
        Ok(()) => Ok(source_image_digest),
        Err(e) => Err(e),
    }
}

} // verus!
