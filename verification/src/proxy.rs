//! The record/replay proxy in front of the callback router.
//!
//! In record mode every request is forwarded to the real capability and the
//! reply is persisted in a journal keyed by the request's canonical key. In
//! replay mode requests are answered from the journal alone, bit for bit,
//! and a miss is a deterministic error — this is how operator tooling gets
//! reproducible offline evaluation.

use vstd::prelude::*;
use crate::bus::{request_key, spec_request_key, CallbackRequestType, CallbackResponse};
use crate::text::{copy_bytes, str_eq};

verus! {

/// How the host-capability layer answers requests.
#[derive(Clone, Debug, PartialEq)]
pub enum ProxyMode {
    /// Forward every request to the real capability.
    Direct,
    /// Forward, and persist every request/response pair.
    Record { destination: String },
    /// Answer from a journal; a miss is an error.
    Replay { source: String },
}

/// Why the proxy failed a request.
#[derive(Clone, Debug, PartialEq)]
pub enum ProxyError {
    /// Replay mode, and the journal holds no reply for this request.
    ReplayCacheMiss(String),
}

/// The recorded reply under a key, if any.
pub open spec fn find_journal(entries: Seq<(String, Vec<u8>)>, key: Seq<char>) -> Option<Seq<u8>>
    decreases entries.len(),
{
    if entries.len() == 0 {
        None
    } else if entries[0].0@ == key {
        Some(entries[0].1@)
    } else {
        find_journal(entries.drop_first(), key)
    }
}

/// Keys are pairwise distinct: one reply per request key.
pub open spec fn wf_journal(entries: Seq<(String, Vec<u8>)>) -> bool {
    forall|i: int, j: int|
        0 <= i < j < entries.len() ==> (#[trigger] entries[i]).0@ != (#[trigger] entries[j]).0@
}

proof fn lemma_journal_push(
    entries: Seq<(String, Vec<u8>)>,
    key: String,
    payload: Vec<u8>,
    id: Seq<char>,
)
    requires
        find_journal(entries, id) is None,
        key@ == id,
    ensures
        find_journal(entries.push((key, payload)), id) == Some(payload@),
        wf_journal(entries) ==> wf_journal(entries.push((key, payload))),
    decreases entries.len(),
{
    lemma_journal_none_all_differ(entries, id);
    if entries.len() > 0 {
        lemma_journal_push(entries.drop_first(), key, payload, id);
        assert(entries.push((key, payload)).drop_first() =~= entries.drop_first().push(
            (key, payload),
        ));
    }
}

proof fn lemma_journal_none_all_differ(entries: Seq<(String, Vec<u8>)>, id: Seq<char>)
    requires
        find_journal(entries, id) is None,
    ensures
        forall|k: int| 0 <= k < entries.len() ==> (#[trigger] entries[k]).0@ != id,
    decreases entries.len(),
{
    if entries.len() > 0 {
        lemma_journal_none_all_differ(entries.drop_first(), id);
        assert(forall|k: int|
            1 <= k < entries.len() ==> (#[trigger] entries[k]) == entries.drop_first()[k - 1]);
    }
}

proof fn lemma_journal_update(
    entries: Seq<(String, Vec<u8>)>,
    i: int,
    entry: (String, Vec<u8>),
    id: Seq<char>,
)
    requires
        0 <= i < entries.len(),
        entries[i].0@ == id,
        entry.0@ == id,
        forall|k: int| 0 <= k < i ==> (#[trigger] entries[k]).0@ != id,
    ensures
        find_journal(entries.update(i, entry), id) == Some(entry.1@),
        wf_journal(entries) ==> wf_journal(entries.update(i, entry)),
    decreases i,
{
    if i == 0 {
        assert(entries.update(0, entry)[0] == entry);
    } else {
        assert(entries.update(i, entry).drop_first() =~= entries.drop_first().update(i - 1, entry));
        assert(forall|k: int| 0 <= k < i - 1 ==> (#[trigger] entries.drop_first()[k]).0@ != id);
        lemma_journal_update(entries.drop_first(), i - 1, entry, id);
    }
}

proof fn lemma_journal_push_other(
    entries: Seq<(String, Vec<u8>)>,
    key: String,
    payload: Vec<u8>,
    id: Seq<char>,
)
    requires
        key@ == id,
    ensures
        forall|k: Seq<char>|
            k != id ==> #[trigger] find_journal(entries.push((key, payload)), k) == find_journal(
                entries,
                k,
            ),
    decreases entries.len(),
{
    if entries.len() == 0 {
        assert forall|k: Seq<char>| k != id implies #[trigger] find_journal(
            entries.push((key, payload)),
            k,
        ) == find_journal(entries, k) by {
            assert(entries.push((key, payload))[0] == (key, payload));
            assert(entries.push((key, payload)).drop_first() =~= Seq::<(String, Vec<u8>)>::empty());
            assert(find_journal(Seq::<(String, Vec<u8>)>::empty(), k) is None);
        }
    } else {
        lemma_journal_push_other(entries.drop_first(), key, payload, id);
        assert(entries.push((key, payload)).drop_first() =~= entries.drop_first().push(
            (key, payload),
        ));
        assert forall|k: Seq<char>| k != id implies #[trigger] find_journal(
            entries.push((key, payload)),
            k,
        ) == find_journal(entries, k) by {
            if entries[0].0@ != k {
                assert(find_journal(entries.drop_first().push((key, payload)), k) == find_journal(
                    entries.drop_first(),
                    k,
                ));
            }
        }
    }
}

proof fn lemma_journal_update_other(
    entries: Seq<(String, Vec<u8>)>,
    i: int,
    entry: (String, Vec<u8>),
    id: Seq<char>,
)
    requires
        0 <= i < entries.len(),
        entries[i].0@ == id,
        entry.0@ == id,
    ensures
        forall|k: Seq<char>|
            k != id ==> #[trigger] find_journal(entries.update(i, entry), k) == find_journal(
                entries,
                k,
            ),
    decreases i,
{
    if i == 0 {
        assert(entries.update(0, entry).drop_first() =~= entries.drop_first());
        assert forall|k: Seq<char>| k != id implies #[trigger] find_journal(
            entries.update(0, entry),
            k,
        ) == find_journal(entries, k) by {
            assert(entries.update(0, entry)[0] == entry);
        }
    } else {
        lemma_journal_update_other(entries.drop_first(), i - 1, entry, id);
        assert(entries.update(i, entry).drop_first() =~= entries.drop_first().update(i - 1, entry));
        assert forall|k: Seq<char>| k != id implies #[trigger] find_journal(
            entries.update(i, entry),
            k,
        ) == find_journal(entries, k) by {
            assert(entries.update(i, entry)[0] == entries[0]);
            if entries[0].0@ != k {
                assert(find_journal(entries.drop_first().update(i - 1, entry), k) == find_journal(
                    entries.drop_first(),
                    k,
                ));
            }
        }
    }
}

/// A journal of request/response pairs, keyed by the request's canonical
/// key. The file behind it is read and written by the embedding program;
/// the journal itself is the mapping.
#[derive(Debug)]
pub struct Journal {
    pub entries: Vec<(String, Vec<u8>)>,
}

impl Journal {
    /// An empty journal.
    pub fn new() -> (r: Journal)
        ensures
            r.entries@.len() == 0,
            wf_journal(r.entries@),
    {
        Journal { entries: Vec::new() }
    }

    /// Persist the reply to a request: the journal now answers the request's
    /// key with exactly these bytes.
    pub fn record(&mut self, key: &str, payload: Vec<u8>)
        requires
            wf_journal(old(self).entries@),
        ensures
            wf_journal(final(self).entries@),
            find_journal(final(self).entries@, key@) == Some(payload@),
            forall|k: Seq<char>|
                k != key@ ==> #[trigger] find_journal(final(self).entries@, k) == find_journal(
                    old(self).entries@,
                    k,
                ),
    {
        let n = self.entries.len();
        let mut i: usize = 0;
        proof {
            assert(self.entries@.skip(0) =~= self.entries@);
        }
        while i < n
            invariant
                i <= n,
                n == self.entries@.len(),
                *self == *old(self),
                wf_journal(self.entries@),
                find_journal(old(self).entries@, key@) == find_journal(
                    self.entries@.skip(i as int),
                    key@,
                ),
                forall|k: int| 0 <= k < i ==> (#[trigger] self.entries@[k]).0@ != key@,
            decreases n - i,
        {
            proof {
                assert(self.entries@.skip(i as int)[0] == self.entries@[i as int]);
            }
            let hit = str_eq(self.entries[i].0.as_str(), key);
            if hit {
                let entry_key = self.entries[i].0.clone();
                let ghost before = self.entries@;
                self.entries[i] = (entry_key, payload);
                proof {
                    lemma_journal_update(before, i as int, self.entries@[i as int], key@);
                    lemma_journal_update_other(before, i as int, self.entries@[i as int], key@);
                }
                return;
            }
            proof {
                assert(self.entries@.skip(i as int).drop_first() =~= self.entries@.skip(
                    i as int + 1,
                ));
            }
            i += 1;
        }
        let entry_key = key.to_owned();
        proof {
            lemma_journal_push(self.entries@, entry_key, payload, key@);
            lemma_journal_push_other(self.entries@, entry_key, payload, key@);
        }
        self.entries.push((entry_key, payload));
    }

    /// Answer a request from the journal alone: the recorded bytes, bit for
    /// bit, or a deterministic miss.
    pub fn replay(&self, key: &str) -> (r: Result<Vec<u8>, ProxyError>)
        ensures
            match r {
                Ok(payload) => find_journal(self.entries@, key@) == Some(payload@),
                Err(e) => find_journal(self.entries@, key@) is None && (e matches
                    ProxyError::ReplayCacheMiss(k) && k@ == key@),
            },
    {
        let n = self.entries.len();
        let mut i: usize = 0;
        proof {
            assert(self.entries@.skip(0) =~= self.entries@);
        }
        while i < n
            invariant
                i <= n,
                n == self.entries@.len(),
                find_journal(self.entries@, key@) == find_journal(
                    self.entries@.skip(i as int),
                    key@,
                ),
            decreases n - i,
        {
            proof {
                assert(self.entries@.skip(i as int)[0] == self.entries@[i as int]);
            }
            let hit = str_eq(self.entries[i].0.as_str(), key);
            if hit {
                return Ok(copy_bytes(&self.entries[i].1));
            }
            proof {
                assert(self.entries@.skip(i as int).drop_first() =~= self.entries@.skip(
                    i as int + 1,
                ));
            }
            i += 1;
        }
        Err(ProxyError::ReplayCacheMiss(key.to_owned()))
    }
}

/// Handle one request at the proxy. In direct and record mode the upstream
/// reply is at hand (the router already forwarded the request); in record
/// mode it is persisted under the request's canonical key before it is
/// returned. In replay mode no capability runs: the journal alone answers.
pub fn proxy_handle(
    mode: &ProxyMode,
    journal: &mut Journal,
    request: &CallbackRequestType,
    upstream: Option<CallbackResponse>,
) -> (r: Result<CallbackResponse, ProxyError>)
    requires
        wf_journal(old(journal).entries@),
        !(mode is Replay) ==> upstream is Some,
    ensures
        wf_journal(final(journal).entries@),
        mode is Direct ==> *final(journal) == *old(journal) && (r matches Ok(resp) && (upstream
            matches Some(u) && resp.payload@ == u.payload@)),
        mode is Record ==> (r matches Ok(resp) && (upstream matches Some(u) && resp.payload@
            == u.payload@ && find_journal(final(journal).entries@, spec_request_key(*request))
            == Some(u.payload@))),
        mode is Replay ==> *final(journal) == *old(journal) && (match find_journal(
            old(journal).entries@,
            spec_request_key(*request),
        ) {
            Some(p) => r matches Ok(resp) && resp.payload@ == p,
            None => r matches Err(ProxyError::ReplayCacheMiss(..)),
        }),
{
    match mode {
        ProxyMode::Direct => {
            let response = match upstream {
                Some(u) => u,
                None => {
                    proof {
                        assert(false);
                    }
                    unreached()
                },
            };
            Ok(response)
        },
        ProxyMode::Record { .. } => {
            let response = match upstream {
                Some(u) => u,
                None => {
                    proof {
                        assert(false);
                    }
                    unreached()
                },
            };
            let key = request_key(request);
            journal.record(key.as_str(), copy_bytes(&response.payload));
            Ok(response)
        },
        ProxyMode::Replay { .. } => {
            let key = request_key(request);
            match journal.replay(key.as_str()) {
                Ok(payload) => Ok(CallbackResponse { payload }),
                Err(e) => Err(e),
            }
        },
    }
}

/// Law: record then replay. Once a reply is recorded under a request's
/// canonical key, replaying that request — with no capability backend
/// involved — answers the identical bytes.
pub proof fn lemma_record_then_replay(recorded: Journal, request: CallbackRequestType, payload: Seq<u8>)
    requires
        find_journal(recorded.entries@, spec_request_key(request)) == Some(payload),
    ensures
        spec_replay_answer(recorded, request) == Some(payload),
{
}

/// What replay answers for a request: exactly what the journal holds under
/// its canonical key.
pub open spec fn spec_replay_answer(j: Journal, request: CallbackRequestType) -> Option<Seq<u8>> {
    find_journal(j.entries@, spec_request_key(request))
}

} // verus!
