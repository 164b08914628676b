//! The local policy store as the listing command sees it: each stored
//! policy's identity and contents, and the table row computed for it. The
//! on-disk store and the terminal table are the embedding program's work.

use vstd::prelude::*;
use crate::metadata::Metadata;
use crate::precompile::{sha256_hex, sha256_hex_of};

verus! {

/// The size of a byte count in human-readable decimal units.
pub uninterp spec fn human_size_of(n: u64) -> Seq<char>;

/// Relies on humansize::format_size with the decimal options: the rendering
/// is a function of the byte count alone.
#[verifier::external_body]
fn format_size_decimal(n: u64) -> (r: String)
    ensures
        r@ == human_size_of(n),
{
    humansize::format_size(n, humansize::DECIMAL)
}

/// One policy of the local store: its source URI and its module bytes.
#[derive(Clone, Debug)]
pub struct StoredPolicy {
    pub uri: String,
    pub wasm: Vec<u8>,
}

impl StoredPolicy {
    /// The SHA-256 digest of the stored module.
    pub fn digest(&self) -> (r: String)
        ensures
            r@ == sha256_hex_of(self.wasm@),
            r@.len() == 64,
    {
        sha256_hex(self.wasm.as_slice())
    }
}

/// The local policy store.
#[derive(Clone, Debug)]
pub struct PolicyStore {
    pub policies: Vec<StoredPolicy>,
}

/// The stored policies, in store order.
pub fn policy_list(store: &PolicyStore) -> (r: &Vec<StoredPolicy>)
    ensures
        r == &store.policies,
{
    &store.policies
}

/// One row of the policy listing.
#[derive(Clone, Debug)]
pub struct PolicyRow {
    pub policy: String,
    pub mutating: String,
    pub context_aware: String,
    pub sha256sum: String,
    pub size: String,
}

/// The row of one stored policy: whether it mutates and reads context per
/// its metadata (or `unknown`/`no` when it carries none), the digest
/// truncated to twelve characters, and the module size in decimal units.
pub fn policy_table_row(policy: &StoredPolicy, metadata: &Option<Metadata>) -> (r: PolicyRow)
    ensures
        r.policy@ == policy.uri@,
        (match *metadata {
            Some(ref m) => (m.mutating ==> r.mutating@ == "yes"@) && (!m.mutating ==> r.mutating@
                == "no"@) && (m.context_aware_resources@.len() > 0 ==> r.context_aware@ == "yes"@)
                && (m.context_aware_resources@.len() == 0 ==> r.context_aware@ == "no"@),
            None => r.mutating@ == "unknown"@ && r.context_aware@ == "no"@,
        }),
        r.sha256sum@ == sha256_hex_of(policy.wasm@).take(12),
        r.size@ == human_size_of(policy.wasm@.len() as u64),
{
    let (mutating, context_aware): (&'static str, &'static str) = match metadata {
        Some(m) => (
            if m.mutating {
                "yes"
            } else {
                "no"
            },
            if m.context_aware_resources.len() > 0 {
                "yes"
            } else {
                "no"
            },
        ),
        None => ("unknown", "no"),
    };
    let digest = policy.digest();
    let sha256sum = digest.as_str().substring_char(0, 12).to_owned();
    let size = format_size_decimal(policy.wasm.len() as u64);
    PolicyRow {
        policy: policy.uri.clone(),
        mutating: mutating.to_owned(),
        context_aware: context_aware.to_owned(),
        sha256sum,
        size,
    }
}

} // verus!
