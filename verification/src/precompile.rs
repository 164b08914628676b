//! Loading a policy module: compatibility checks against the running
//! platform, one-shot compilation through the Wasm engine, and the content
//! digest of the compiled artifact.

use vstd::prelude::*;
use crate::evaluator::PolicyExecutionMode;
use crate::metadata::{Metadata, ProtocolVersion};
use crate::text::{dec_digits, u64_to_string};
use crate::version::{satisfies_minimum, version_lt_major_minor, Version};

verus! {

/// wasmtime's engine: the shared, thread-safe compiler and runtime that
/// policies are precompiled with.
#[verifier::external_type_specification]
#[verifier::external_body]
pub struct ExEngine(wasmtime::Engine);

/// The lower-case hexadecimal SHA-256 digest of a byte string.
pub uninterp spec fn sha256_hex_of(bytes: Seq<u8>) -> Seq<char>;

/// Relies on sha2::Sha256: the digest is a function of the bytes alone, and
/// its hexadecimal rendering is 64 characters long.
#[verifier::external_body]
pub(crate) fn sha256_hex(bytes: &[u8]) -> (r: String)
    ensures
        r@ == sha256_hex_of(bytes@),
        r@.len() == 64,
{
    let mut hasher: sha2::Sha256 = <sha2::Sha256 as sha2::Digest>::new();
    sha2::Digest::update(&mut hasher, bytes);
    let digest = sha2::Digest::finalize(hasher);
    format!("{digest:x}")
}

/// Relies on wasmtime::Engine::precompile_module. The artifact depends on
/// the engine's configuration, so nothing is promised of the bytes that come
/// back; they are digested and stored as they are.
#[verifier::external_body]
fn precompile_module(engine: &wasmtime::Engine, bytes: &[u8]) -> (r: Result<Vec<u8>, String>) {
    wasmtime::Engine::precompile_module(engine, bytes).map_err(|e| e.to_string())
}

/// Why a policy module was refused at load time.
#[derive(Clone, Debug, PartialEq)]
pub enum LoadError {
    /// The policy demands a newer platform; both versions are carried with
    /// patch, pre-release and build already cleared.
    MinimumVersionNotSatisfied { required: Version, running: Version },
    /// A message-oriented policy speaks a protocol other than the single
    /// supported one.
    UnsupportedProtocolVersion,
    /// A message-oriented policy declares no protocol version at all.
    MissingProtocolVersion,
    /// The engine could not compile the module.
    PrecompileError(String),
}

/// "major.minor.patch".
pub open spec fn version_string(v: Version) -> Seq<char> {
    dec_digits(v.major as nat) + "."@ + dec_digits(v.minor as nat) + "."@ + dec_digits(
        v.patch as nat,
    )
}

pub fn version_to_string(v: &Version) -> (r: String)
    ensures
        r@ == version_string(*v),
{
    let mut s = u64_to_string(v.major);
    s.append(".");
    let minor = u64_to_string(v.minor);
    s.append(minor.as_str());
    s.append(".");
    let patch = u64_to_string(v.patch);
    s.append(patch.as_str());
    proof {
        assert(s@ =~= version_string(*v));
    }
    s
}

impl LoadError {
    /// A readable account of the failure.
    pub fn message(&self) -> (r: String)
        ensures
            *self matches LoadError::MinimumVersionNotSatisfied { required, running }
                ==> r@ == "Policy required Kubewarden version "@ + version_string(required)
                    + " but is running on "@ + version_string(running),
            *self == LoadError::UnsupportedProtocolVersion
                ==> r@ == "Policy uses an unsupported protocol version, only V1 is supported"@,
            *self == LoadError::MissingProtocolVersion
                ==> r@ == "Policy is missing protocol version, which is required for KubewardenWapc execution mode"@,
            *self matches LoadError::PrecompileError(e)
                ==> r@ == "Policy precompilation failed: "@ + e@,
    {
        match self {
            LoadError::MinimumVersionNotSatisfied { required, running } => {
                let mut s = "Policy required Kubewarden version ".to_owned();
                let req = version_to_string(required);
                s.append(req.as_str());
                s.append(" but is running on ");
                let run = version_to_string(running);
                s.append(run.as_str());
                proof {
                    assert(s@ =~= "Policy required Kubewarden version "@ + version_string(
                        *required,
                    ) + " but is running on "@ + version_string(*running));
                }
                s
            }
            LoadError::UnsupportedProtocolVersion => "Policy uses an unsupported protocol version, only V1 is supported".to_owned(),
            LoadError::MissingProtocolVersion => "Policy is missing protocol version, which is required for KubewardenWapc execution mode".to_owned(),
            LoadError::PrecompileError(e) => {
                let mut s = "Policy precompilation failed: ".to_owned();
                s.append(e.as_str());
                s
            }
        }
    }
}

/// The platform satisfies the policy's minimum-version demand: no demand, or
/// a demand whose (major, minor) does not exceed the running (major, minor).
pub open spec fn minimum_version_ok(m: Metadata, running: Version) -> bool {
    match m.minimum_kubewarden_version {
        None => true,
        Some(v) => satisfies_minimum(running, v),
    }
}

/// Check the metadata's minimum platform version against the running one.
/// Patch numbers play no part in the comparison; the versions inside the
/// error are reported with patch cleared, as the platform announces them.
pub fn has_minimum_kubewarden_version(metadata: &Metadata, running: &Version) -> (r: Result<
    (),
    LoadError,
>)
    ensures
        r is Ok <==> minimum_version_ok(*metadata, *running),
        r matches Err(e) ==> metadata.minimum_kubewarden_version matches Some(v) && e
            == (LoadError::MinimumVersionNotSatisfied {
            required: Version { major: v.major, minor: v.minor, patch: 0u64 },
            running: Version { major: running.major, minor: running.minor, patch: 0u64 },
        }),
{
    match &metadata.minimum_kubewarden_version {
        None => Ok(()),
        Some(minimum) => {
            let sanitized_minimum = minimum.sanitized();
            let sanitized_running = running.sanitized();
            if version_lt_major_minor(&sanitized_running, &sanitized_minimum) {
                Err(LoadError::MinimumVersionNotSatisfied {
                    required: sanitized_minimum,
                    running: sanitized_running,
                })
            } else {
                Ok(())
            }
        }
    }
}

/// A message-oriented policy must declare the single supported protocol
/// version; other execution modes ignore the protocol version entirely.
pub open spec fn protocol_version_ok(m: Metadata) -> bool {
    m.execution_mode == PolicyExecutionMode::KubewardenWapc ==> m.protocol_version == Some(
        ProtocolVersion::V1,
    )
}

/// Check the protocol version a policy declares against its execution mode.
pub fn has_valid_protocol_version(metadata: &Metadata) -> (r: Result<(), LoadError>)
    ensures
        r is Ok <==> protocol_version_ok(*metadata),
        r matches Err(e) ==> metadata.execution_mode == PolicyExecutionMode::KubewardenWapc && (
        match metadata.protocol_version {
            Some(ProtocolVersion::V1) => false,
            Some(ProtocolVersion::Unknown) => e == LoadError::UnsupportedProtocolVersion,
            None => e == LoadError::MissingProtocolVersion,
        }),
{
    if let PolicyExecutionMode::KubewardenWapc = metadata.execution_mode {
        match &metadata.protocol_version {
            Some(ProtocolVersion::V1) => Ok(()),
            Some(ProtocolVersion::Unknown) => Err(LoadError::UnsupportedProtocolVersion),
            None => Err(LoadError::MissingProtocolVersion),
        }
    } else {
        Ok(())
    }
}

/// A policy module compiled once, ahead of every evaluation.
///
/// Compiling is expensive; each worker would otherwise repeat it for every
/// policy. The artifact can only be rehydrated by an engine whose
/// configuration equals the one used at compile time.
#[derive(Clone, Debug)]
pub struct PrecompiledPolicy {
    /// The engine's serialized compilation of the module.
    pub precompiled_module: Vec<u8>,
    /// The execution mode the policy declared.
    pub execution_mode: PolicyExecutionMode,
    /// Lower-case hexadecimal SHA-256 digest of the compiled artifact.
    pub digest: String,
}

impl PrecompiledPolicy {
    /// Validate a policy module's metadata against the running platform and
    /// compile it.
    ///
    /// The metadata is the one parsed out of the module, or nothing when the
    /// module carries none; an absent metadata block is treated as the
    /// default one. The digest of the result is always the SHA-256 of the
    /// compiled artifact's bytes.
    pub fn new(
        engine: &wasmtime::Engine,
        policy_contents: &[u8],
        metadata: Option<Metadata>,
        running_version: &Version,
    ) -> (r: Result<PrecompiledPolicy, LoadError>)
        ensures
            r matches Ok(p) ==> {
                &&& effective_minimum_ok(metadata, *running_version)
                &&& effective_protocol_ok(metadata)
                &&& p.execution_mode == effective_mode(metadata)
                &&& p.digest@ == sha256_hex_of(p.precompiled_module@)
            },
            !effective_minimum_ok(metadata, *running_version) ==> (r matches Err(e)
                && e is MinimumVersionNotSatisfied),
            effective_minimum_ok(metadata, *running_version) && !effective_protocol_ok(metadata)
                ==> (r matches Err(e) && (e is UnsupportedProtocolVersion
                || e is MissingProtocolVersion)),
            r matches Err(e) ==> match e {
                LoadError::MinimumVersionNotSatisfied { required, running } => {
                    &&& !effective_minimum_ok(metadata, *running_version)
                    &&& effective_minimum(metadata) matches Some(v) && required == (Version {
                        major: v.major,
                        minor: v.minor,
                        patch: 0u64,
                    })
                    &&& running == (Version {
                        major: running_version.major,
                        minor: running_version.minor,
                        patch: 0u64,
                    })
                },
                LoadError::UnsupportedProtocolVersion => effective_minimum_ok(
                    metadata,
                    *running_version,
                ) && effective_mode(metadata) == PolicyExecutionMode::KubewardenWapc
                    && effective_protocol(metadata) == Some(ProtocolVersion::Unknown),
                LoadError::MissingProtocolVersion => effective_minimum_ok(
                    metadata,
                    *running_version,
                ) && effective_mode(metadata) == PolicyExecutionMode::KubewardenWapc
                    && effective_protocol(metadata) is None,
                LoadError::PrecompileError(_) => effective_minimum_ok(metadata, *running_version)
                    && effective_protocol_ok(metadata),
            },
    {
        let metadata = match metadata {
            Some(m) => m,
            None => Metadata::default(),
        };
        let execution_mode = metadata.execution_mode;
        if let Err(e) = has_minimum_kubewarden_version(&metadata, running_version) {
            return Err(e);
        }
        if let Err(e) = has_valid_protocol_version(&metadata) {
            return Err(e);
        }
        let precompiled_module = match precompile_module(engine, policy_contents) {
            Ok(bytes) => bytes,
            Err(e) => {
                return Err(LoadError::PrecompileError(e));
            }
        };
        let digest = sha256_hex(precompiled_module.as_slice());
        Ok(PrecompiledPolicy { precompiled_module, execution_mode, digest })
    }
}

/// The execution mode a module declares; an unannotated one is taken as
/// message-oriented.
pub open spec fn effective_mode(metadata: Option<Metadata>) -> PolicyExecutionMode {
    match metadata {
        Some(m) => m.execution_mode,
        None => PolicyExecutionMode::KubewardenWapc,
    }
}

/// The minimum-version check on a module; an unannotated one demands
/// nothing.
pub open spec fn effective_minimum_ok(metadata: Option<Metadata>, running: Version) -> bool {
    match metadata {
        Some(m) => minimum_version_ok(m, running),
        None => true,
    }
}

/// The protocol-version check on a module; an unannotated one counts as
/// message-oriented without a protocol version, which is refused.
pub open spec fn effective_protocol_ok(metadata: Option<Metadata>) -> bool {
    match metadata {
        Some(m) => protocol_version_ok(m),
        None => false,
    }
}

/// The minimum version a module demands; an unannotated one demands none.
pub open spec fn effective_minimum(metadata: Option<Metadata>) -> Option<Version> {
    match metadata {
        Some(m) => m.minimum_kubewarden_version,
        None => None,
    }
}

/// The protocol version a module declares; an unannotated one declares none.
pub open spec fn effective_protocol(metadata: Option<Metadata>) -> Option<ProtocolVersion> {
    match metadata {
        Some(m) => m.protocol_version,
        None => None,
    }
}

/// The outcome stored under a policy's URL, if any.
pub open spec fn find_policy(
    entries: Seq<(String, Result<PrecompiledPolicy, LoadError>)>,
    url: Seq<char>,
) -> Option<Result<PrecompiledPolicy, LoadError>>
    decreases entries.len(),
{
    if entries.len() == 0 {
        None
    } else if entries[0].0@ == url {
        Some(entries[0].1)
    } else {
        find_policy(entries.drop_first(), url)
    }
}

/// URLs are pairwise distinct: one outcome per policy.
pub open spec fn wf_policies(entries: Seq<(String, Result<PrecompiledPolicy, LoadError>)>) -> bool {
    forall|i: int, j: int|
        0 <= i < j < entries.len() ==> (#[trigger] entries[i]).0@ != (#[trigger] entries[j]).0@
}

proof fn lemma_policy_none_all_differ(
    entries: Seq<(String, Result<PrecompiledPolicy, LoadError>)>,
    url: Seq<char>,
)
    requires
        find_policy(entries, url) is None,
    ensures
        forall|k: int| 0 <= k < entries.len() ==> (#[trigger] entries[k]).0@ != url,
    decreases entries.len(),
{
    if entries.len() > 0 {
        lemma_policy_none_all_differ(entries.drop_first(), url);
        assert(forall|k: int|
            1 <= k < entries.len() ==> (#[trigger] entries[k]) == entries.drop_first()[k - 1]);
    }
}

proof fn lemma_policy_push(
    entries: Seq<(String, Result<PrecompiledPolicy, LoadError>)>,
    key: String,
    outcome: Result<PrecompiledPolicy, LoadError>,
    url: Seq<char>,
)
    requires
        find_policy(entries, url) is None,
        key@ == url,
    ensures
        find_policy(entries.push((key, outcome)), url) == Some(outcome),
        wf_policies(entries) ==> wf_policies(entries.push((key, outcome))),
    decreases entries.len(),
{
    lemma_policy_none_all_differ(entries, url);
    if entries.len() > 0 {
        lemma_policy_push(entries.drop_first(), key, outcome, url);
        assert(entries.push((key, outcome)).drop_first() =~= entries.drop_first().push(
            (key, outcome),
        ));
    }
}

proof fn lemma_policy_push_other(
    entries: Seq<(String, Result<PrecompiledPolicy, LoadError>)>,
    key: String,
    outcome: Result<PrecompiledPolicy, LoadError>,
    url: Seq<char>,
)
    requires
        key@ == url,
    ensures
        forall|k: Seq<char>|
            k != url ==> #[trigger] find_policy(entries.push((key, outcome)), k) == find_policy(
                entries,
                k,
            ),
    decreases entries.len(),
{
    if entries.len() == 0 {
        assert forall|k: Seq<char>| k != url implies #[trigger] find_policy(
            entries.push((key, outcome)),
            k,
        ) == find_policy(entries, k) by {
            assert(entries.push((key, outcome))[0] == (key, outcome));
            assert(entries.push((key, outcome)).drop_first() =~= Seq::<(
                String,
                Result<PrecompiledPolicy, LoadError>,
            )>::empty());
            assert(find_policy(
                Seq::<(String, Result<PrecompiledPolicy, LoadError>)>::empty(),
                k,
            ) is None);
        }
    } else {
        lemma_policy_push_other(entries.drop_first(), key, outcome, url);
        assert(entries.push((key, outcome)).drop_first() =~= entries.drop_first().push(
            (key, outcome),
        ));
        assert forall|k: Seq<char>| k != url implies #[trigger] find_policy(
            entries.push((key, outcome)),
            k,
        ) == find_policy(entries, k) by {
            if entries[0].0@ != k {
                assert(find_policy(entries.drop_first().push((key, outcome)), k) == find_policy(
                    entries.drop_first(),
                    k,
                ));
            }
        }
    }
}

/// The per-policy outcomes of one load pass, keyed by each policy's URL.
/// Failures are first-class values: the API surface reports them per policy
/// instead of taking the whole server down.
#[derive(Debug)]
pub struct PrecompiledPolicies {
    pub entries: Vec<(String, Result<PrecompiledPolicy, LoadError>)>,
}

impl PrecompiledPolicies {
    /// An empty outcome store.
    pub fn new() -> (r: PrecompiledPolicies)
        ensures
            r.entries@.len() == 0,
            wf_policies(r.entries@),
    {
        PrecompiledPolicies { entries: Vec::new() }
    }

    /// Store one policy's load outcome under its URL. Each policy is loaded
    /// once per pass, so the URL is expected to be new.
    pub fn insert(&mut self, url: &str, outcome: Result<PrecompiledPolicy, LoadError>)
        requires
            wf_policies(old(self).entries@),
            find_policy(old(self).entries@, url@) is None,
        ensures
            wf_policies(final(self).entries@),
            find_policy(final(self).entries@, url@) == Some(outcome),
            forall|k: Seq<char>|
                k != url@ ==> #[trigger] find_policy(final(self).entries@, k) == find_policy(
                    old(self).entries@,
                    k,
                ),
    {
        let key = url.to_owned();
        proof {
            lemma_policy_push(self.entries@, key, outcome, url@);
            lemma_policy_push_other(self.entries@, key, outcome, url@);
        }
        self.entries.push((key, outcome));
    }

    /// The load outcome stored under a URL, if the pass saw that policy.
    pub fn get(&self, url: &str) -> (r: Option<&Result<PrecompiledPolicy, LoadError>>)
        ensures
            match r {
                Some(outcome) => find_policy(self.entries@, url@) == Some(*outcome),
                None => find_policy(self.entries@, url@) is None,
            },
    {
        let n = self.entries.len();
        let mut i: usize = 0;
        proof {
            assert(self.entries@.skip(0) =~= self.entries@);
        }
        while i < n
            invariant
                i <= n,
                n == self.entries@.len(),
                find_policy(self.entries@, url@) == find_policy(
                    self.entries@.skip(i as int),
                    url@,
                ),
            decreases n - i,
        {
            proof {
                assert(self.entries@.skip(i as int)[0] == self.entries@[i as int]);
            }
            if crate::text::str_eq(self.entries[i].0.as_str(), url) {
                return Some(&self.entries[i].1);
            }
            proof {
                assert(self.entries@.skip(i as int).drop_first() =~= self.entries@.skip(
                    i as int + 1,
                ));
            }
            i += 1;
        }
        None
    }
}

} // verus!
