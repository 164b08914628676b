//! The Kubernetes data plane: a discovery cache resolving `(api_version,
//! kind)` pairs, reflector mirrors of watched resource sets with a
//! change-detection instant, and the read operations guests reach through
//! the host-capability layer.
//!
//! The watch streams and API calls themselves are I/O and live with the
//! caller; this module owns every decision made on their results: cache
//! lookups and fills, group/version resolution, list envelopes, namespace
//! rules, and change detection.

use vstd::prelude::*;
use crate::text::{spec_find_char, split_once, str_eq};

verus! {

/// The `(api_version, kind)` key of the discovery cache.
#[derive(Clone, Debug)]
pub struct ApiVersionKind {
    pub api_version: String,
    pub kind: String,
}

/// A resolved resource family, as the discovery API announces it.
#[derive(Clone, Debug)]
pub struct KubeResource {
    pub group: String,
    pub version: String,
    pub api_version: String,
    pub kind: String,
    pub plural: String,
    pub namespaced: bool,
}

/// One row of a discovery response.
#[derive(Clone, Debug)]
pub struct ApiResourceRow {
    /// The plural name under which the resource is served.
    pub name: String,
    pub kind: String,
    pub namespaced: bool,
}

/// An object mirrored from the cluster: its identity plus its wire encoding.
#[derive(Debug)]
pub struct KubeObject {
    pub name: String,
    pub namespace: Option<String>,
    pub data: Vec<u8>,
}

/// The identity and contents of an object, at the level contracts speak of.
pub open spec fn obj_view(o: KubeObject) -> (Seq<char>, Option<Seq<char>>, Seq<u8>) {
    (
        o.name@,
        match o.namespace {
            Some(n) => Some(n@),
            None => None,
        },
        o.data@,
    )
}

/// A list envelope as handed back to guests.
#[derive(Debug)]
pub struct KubeObjectList {
    pub api_version: String,
    pub kind: String,
    pub items: Vec<KubeObject>,
}

/// A reflector: the mirror of one watched resource set and the instant of
/// the last change the watch stream delivered.
#[derive(Debug)]
pub struct Reflector {
    pub items: Vec<KubeObject>,
    pub last_change_seen_at: u64,
}

/// Why a data-plane read failed.
#[derive(Clone, Debug, PartialEq)]
pub enum KubeError {
    /// No client was configured for this deployment.
    ClientNotInitialized,
    /// Discovery knows no resource with this apiVersion and kind.
    ResourceNotFound { api_version: String, kind: String },
    /// The apiVersion names no group/version pair.
    GroupVersionUnparsable { api_version: String },
    /// A cluster-wide resource was asked for inside a namespace.
    ClusterWide { api_version: String, kind: String },
    /// A namespaced resource was asked for without a namespace.
    NamespaceRequired { api_version: String, kind: String },
    /// The cluster holds no such object.
    ObjectNotFound { api_version: String, kind: String, name: String, namespace: Option<String> },
    /// No watch has been started for this reflector yet; the caller must
    /// start one and seed the mirror before listing.
    ReflectorNotStarted,
    /// A permission review came back without a status.
    EmptySubjectAccessReviewResponse,
}

impl KubeError {
    /// A readable account of the failure.
    pub fn message(&self) -> (r: String)
        ensures
            *self == KubeError::ClientNotInitialized ==> r@
                == "kube::Client was not initialized properly"@,
            *self matches KubeError::ResourceNotFound { api_version, kind } ==> r@
                == "Cannot find resource "@ + api_version@ + "/"@ + kind@,
            *self matches KubeError::GroupVersionUnparsable { api_version } ==> r@
                == "cannot determine group and version for "@ + api_version@,
            *self matches KubeError::ClusterWide { api_version, kind } ==> r@ == "resource "@
                + api_version@ + "/"@ + kind@
                + " is cluster wide. Cannot search for it inside of a namespace"@,
            *self matches KubeError::NamespaceRequired { api_version, kind } ==> r@ == "Resource "@
                + api_version@ + "/"@ + kind@ + " is namespaced, but no namespace was provided"@,
            *self matches KubeError::ObjectNotFound { api_version, kind, name, .. } ==> r@
                == "Cannot find "@ + api_version@ + "/"@ + kind@ + " named '"@ + name@ + "' inside of namespace '"@
                + (match self->ObjectNotFound_namespace {
                    Some(ns) => ns@,
                    None => Seq::empty(),
                }) + "'"@,
            *self == KubeError::ReflectorNotStarted ==> r@
                == "the reflector watching this query has not been started yet"@,
            *self == KubeError::EmptySubjectAccessReviewResponse ==> r@
                == "SubjectAccessReview did not return a response"@,
    {
        match self {
            KubeError::ClientNotInitialized => "kube::Client was not initialized properly".to_owned(),
            KubeError::ResourceNotFound { api_version, kind } => {
                let mut s = "Cannot find resource ".to_owned();
                s.append(api_version.as_str());
                s.append("/");
                s.append(kind.as_str());
                proof {
                    assert(s@ =~= "Cannot find resource "@ + api_version@ + "/"@ + kind@);
                }
                s
            },
            KubeError::GroupVersionUnparsable { api_version } => {
                let mut s = "cannot determine group and version for ".to_owned();
                s.append(api_version.as_str());
                s
            },
            KubeError::ClusterWide { api_version, kind } => {
                let mut s = "resource ".to_owned();
                s.append(api_version.as_str());
                s.append("/");
                s.append(kind.as_str());
                s.append(" is cluster wide. Cannot search for it inside of a namespace");
                proof {
                    assert(s@ =~= "resource "@ + api_version@ + "/"@ + kind@
                        + " is cluster wide. Cannot search for it inside of a namespace"@);
                }
                s
            },
            KubeError::NamespaceRequired { api_version, kind } => {
                let mut s = "Resource ".to_owned();
                s.append(api_version.as_str());
                s.append("/");
                s.append(kind.as_str());
                s.append(" is namespaced, but no namespace was provided");
                proof {
                    assert(s@ =~= "Resource "@ + api_version@ + "/"@ + kind@
                        + " is namespaced, but no namespace was provided"@);
                }
                s
            },
            KubeError::ObjectNotFound { api_version, kind, name, namespace } => {
                let mut s = "Cannot find ".to_owned();
                s.append(api_version.as_str());
                s.append("/");
                s.append(kind.as_str());
                s.append(" named '");
                s.append(name.as_str());
                s.append("' inside of namespace '");
                match namespace {
                    Some(ns) => s.append(ns.as_str()),
                    None => (),
                }
                s.append("'");
                proof {
                    assert(s@ =~= "Cannot find "@ + api_version@ + "/"@ + kind@ + " named '"@
                        + name@ + "' inside of namespace '"@ + (match self->ObjectNotFound_namespace {
                        Some(ns) => ns@,
                        None => Seq::<char>::empty(),
                    }) + "'"@);
                }
                s
            },
            KubeError::ReflectorNotStarted => "the reflector watching this query has not been started yet".to_owned(),
            KubeError::EmptySubjectAccessReviewResponse => "SubjectAccessReview did not return a response".to_owned(),
        }
    }
}

/// The first resource under the given apiVersion and kind, as the discovery
/// cache would answer.
pub open spec fn find_resource(
    entries: Seq<(ApiVersionKind, KubeResource)>,
    av: Seq<char>,
    kind: Seq<char>,
) -> Option<KubeResource>
    decreases entries.len(),
{
    if entries.len() == 0 {
        None
    } else if entries[0].0.api_version@ == av && entries[0].0.kind@ == kind {
        Some(entries[0].1)
    } else {
        find_resource(entries.drop_first(), av, kind)
    }
}

/// The reflector under the given identifier.
pub open spec fn find_reflector(entries: Seq<(String, Reflector)>, id: Seq<char>) -> Option<
    Reflector,
>
    decreases entries.len(),
{
    if entries.len() == 0 {
        None
    } else if entries[0].0@ == id {
        Some(entries[0].1)
    } else {
        find_reflector(entries.drop_first(), id)
    }
}

/// The keys of the discovery cache are pairwise distinct: each pair is
/// resolved at most once.
pub open spec fn wf_discovery(entries: Seq<(ApiVersionKind, KubeResource)>) -> bool {
    forall|i: int, j: int|
        0 <= i < j < entries.len() ==> !((#[trigger] entries[i]).0.api_version@
            == (#[trigger] entries[j]).0.api_version@ && entries[i].0.kind@ == entries[j].0.kind@)
}

/// The reflector identifiers are pairwise distinct: one watch per query.
pub open spec fn wf_reflectors(entries: Seq<(String, Reflector)>) -> bool {
    forall|i: int, j: int|
        0 <= i < j < entries.len() ==> (#[trigger] entries[i]).0@ != (#[trigger] entries[j]).0@
}

/// The data plane's maps are keyed uniquely, as the watch task and the
/// resolve-once discovery keep them.
pub open spec fn wf_plane(p: KubeDataPlane) -> bool {
    wf_discovery(p.discovery@) && wf_reflectors(p.reflectors@)
}

proof fn lemma_resource_none_all_differ(
    entries: Seq<(ApiVersionKind, KubeResource)>,
    av: Seq<char>,
    kind: Seq<char>,
)
    requires
        find_resource(entries, av, kind) is None,
    ensures
        forall|k: int|
            0 <= k < entries.len() ==> !((#[trigger] entries[k]).0.api_version@ == av
                && entries[k].0.kind@ == kind),
    decreases entries.len(),
{
    if entries.len() > 0 {
        lemma_resource_none_all_differ(entries.drop_first(), av, kind);
        assert(forall|k: int|
            1 <= k < entries.len() ==> (#[trigger] entries[k]) == entries.drop_first()[k - 1]);
    }
}

proof fn lemma_find_resource_push(
    entries: Seq<(ApiVersionKind, KubeResource)>,
    avk: ApiVersionKind,
    res: KubeResource,
    av: Seq<char>,
    kind: Seq<char>,
)
    requires
        find_resource(entries, av, kind) is None,
        avk.api_version@ == av,
        avk.kind@ == kind,
    ensures
        find_resource(entries.push((avk, res)), av, kind) == Some(res),
        wf_discovery(entries) ==> wf_discovery(entries.push((avk, res))),
    decreases entries.len(),
{
    lemma_resource_none_all_differ(entries, av, kind);
    if entries.len() > 0 {
        lemma_find_resource_push(entries.drop_first(), avk, res, av, kind);
        assert(entries.push((avk, res)).drop_first() =~= entries.drop_first().push((avk, res)));
    }
}

proof fn lemma_find_resource_push_other(
    entries: Seq<(ApiVersionKind, KubeResource)>,
    avk: ApiVersionKind,
    res: KubeResource,
)
    ensures
        forall|av2: Seq<char>, k2: Seq<char>|
            !(av2 == avk.api_version@ && k2 == avk.kind@) ==> #[trigger] find_resource(
                entries.push((avk, res)),
                av2,
                k2,
            ) == find_resource(entries, av2, k2),
    decreases entries.len(),
{
    if entries.len() == 0 {
        assert forall|av2: Seq<char>, k2: Seq<char>|
            !(av2 == avk.api_version@ && k2 == avk.kind@) implies #[trigger] find_resource(
            entries.push((avk, res)),
            av2,
            k2,
        ) == find_resource(entries, av2, k2) by {
            assert(entries.push((avk, res))[0] == (avk, res));
            assert(entries.push((avk, res)).drop_first() =~= Seq::<(
                ApiVersionKind,
                KubeResource,
            )>::empty());
            assert(find_resource(Seq::<(ApiVersionKind, KubeResource)>::empty(), av2, k2) is None);
        }
    } else {
        lemma_find_resource_push_other(entries.drop_first(), avk, res);
        assert(entries.push((avk, res)).drop_first() =~= entries.drop_first().push((avk, res)));
        assert forall|av2: Seq<char>, k2: Seq<char>|
            !(av2 == avk.api_version@ && k2 == avk.kind@) implies #[trigger] find_resource(
            entries.push((avk, res)),
            av2,
            k2,
        ) == find_resource(entries, av2, k2) by {
            if !(entries[0].0.api_version@ == av2 && entries[0].0.kind@ == k2) {
                assert(find_resource(entries.drop_first().push((avk, res)), av2, k2)
                    == find_resource(entries.drop_first(), av2, k2));
            }
        }
    }
}

proof fn lemma_reflector_none_all_differ(entries: Seq<(String, Reflector)>, id: Seq<char>)
    requires
        find_reflector(entries, id) is None,
    ensures
        forall|k: int| 0 <= k < entries.len() ==> (#[trigger] entries[k]).0@ != id,
    decreases entries.len(),
{
    if entries.len() > 0 {
        lemma_reflector_none_all_differ(entries.drop_first(), id);
        assert(forall|k: int|
            1 <= k < entries.len() ==> (#[trigger] entries[k]) == entries.drop_first()[k - 1]);
    }
}

proof fn lemma_find_reflector_push(
    entries: Seq<(String, Reflector)>,
    key: String,
    refl: Reflector,
    id: Seq<char>,
)
    requires
        find_reflector(entries, id) is None,
        key@ == id,
    ensures
        find_reflector(entries.push((key, refl)), id) == Some(refl),
        wf_reflectors(entries) ==> wf_reflectors(entries.push((key, refl))),
    decreases entries.len(),
{
    lemma_reflector_none_all_differ(entries, id);
    if entries.len() > 0 {
        lemma_find_reflector_push(entries.drop_first(), key, refl, id);
        assert(entries.push((key, refl)).drop_first() =~= entries.drop_first().push((key, refl)));
    }
}

proof fn lemma_find_reflector_push_other(
    entries: Seq<(String, Reflector)>,
    key: String,
    refl: Reflector,
    id: Seq<char>,
)
    requires
        key@ == id,
    ensures
        forall|k: Seq<char>|
            k != id ==> #[trigger] find_reflector(entries.push((key, refl)), k) == find_reflector(
                entries,
                k,
            ),
    decreases entries.len(),
{
    if entries.len() == 0 {
        assert forall|k: Seq<char>| k != id implies #[trigger] find_reflector(
            entries.push((key, refl)),
            k,
        ) == find_reflector(entries, k) by {
            assert(entries.push((key, refl))[0] == (key, refl));
            assert(entries.push((key, refl)).drop_first() =~= Seq::<(String, Reflector)>::empty());
            assert(find_reflector(Seq::<(String, Reflector)>::empty(), k) is None);
        }
    } else {
        lemma_find_reflector_push_other(entries.drop_first(), key, refl, id);
        assert(entries.push((key, refl)).drop_first() =~= entries.drop_first().push((key, refl)));
        assert forall|k: Seq<char>| k != id implies #[trigger] find_reflector(
            entries.push((key, refl)),
            k,
        ) == find_reflector(entries, k) by {
            if entries[0].0@ != k {
                assert(find_reflector(entries.drop_first().push((key, refl)), k) == find_reflector(
                    entries.drop_first(),
                    k,
                ));
            }
        }
    }
}

proof fn lemma_find_reflector_update_other(
    entries: Seq<(String, Reflector)>,
    i: int,
    entry: (String, Reflector),
    id: Seq<char>,
)
    requires
        0 <= i < entries.len(),
        entries[i].0@ == id,
        entry.0@ == id,
    ensures
        forall|k: Seq<char>|
            k != id ==> #[trigger] find_reflector(entries.update(i, entry), k) == find_reflector(
                entries,
                k,
            ),
        wf_reflectors(entries) ==> wf_reflectors(entries.update(i, entry)),
    decreases i,
{
    if i == 0 {
        assert(entries.update(0, entry).drop_first() =~= entries.drop_first());
        assert forall|k: Seq<char>| k != id implies #[trigger] find_reflector(
            entries.update(0, entry),
            k,
        ) == find_reflector(entries, k) by {
            assert(entries.update(0, entry)[0] == entry);
        }
    } else {
        lemma_find_reflector_update_other(entries.drop_first(), i - 1, entry, id);
        assert(entries.update(i, entry).drop_first() =~= entries.drop_first().update(i - 1, entry));
        assert forall|k: Seq<char>| k != id implies #[trigger] find_reflector(
            entries.update(i, entry),
            k,
        ) == find_reflector(entries, k) by {
            assert(entries.update(i, entry)[0] == entries[0]);
            if entries[0].0@ != k {
                assert(find_reflector(entries.drop_first().update(i - 1, entry), k)
                    == find_reflector(entries.drop_first(), k));
            }
        }
    }
}

/// The engine's mirror of the cluster: the process-lifetime discovery cache
/// and the lazily created reflectors.
#[derive(Debug)]
pub struct KubeDataPlane {
    pub discovery: Vec<(ApiVersionKind, KubeResource)>,
    pub reflectors: Vec<(String, Reflector)>,
}

impl KubeDataPlane {
    /// An empty data plane: nothing discovered, no watch running.
    pub fn new() -> (r: KubeDataPlane)
        ensures
            r.discovery@.len() == 0,
            r.reflectors@.len() == 0,
            wf_plane(r),
    {
        KubeDataPlane { discovery: Vec::new(), reflectors: Vec::new() }
    }

    /// The cached resolution of an apiVersion/kind pair, if any.
    pub fn lookup_resource(&self, api_version: &str, kind: &str) -> (r: Option<&KubeResource>)
        ensures
            match r {
                Some(res) => find_resource(self.discovery@, api_version@, kind@) == Some(*res),
                None => find_resource(self.discovery@, api_version@, kind@) is None,
            },
    {
        let n = self.discovery.len();
        let mut i: usize = 0;
        proof {
            assert(self.discovery@.skip(0) =~= self.discovery@);
        }
        while i < n
            invariant
                i <= n,
                n == self.discovery@.len(),
                find_resource(self.discovery@, api_version@, kind@) == find_resource(
                    self.discovery@.skip(i as int),
                    api_version@,
                    kind@,
                ),
            decreases n - i,
        {
            proof {
                assert(self.discovery@.skip(i as int)[0] == self.discovery@[i as int]);
            }
            let entry = &self.discovery[i];
            if str_eq(entry.0.api_version.as_str(), api_version) && str_eq(
                entry.0.kind.as_str(),
                kind,
            ) {
                return Some(&entry.1);
            }
            proof {
                assert(self.discovery@.skip(i as int).drop_first() =~= self.discovery@.skip(
                    i as int + 1,
                ));
            }
            i += 1;
        }
        None
    }

    /// Cache a resolved resource. The caller resolves a pair at most once,
    /// so the pair is expected to be new.
    pub fn insert_resource(&mut self, resource: KubeResource)
        requires
            wf_plane(*old(self)),
            find_resource(old(self).discovery@, resource.api_version@, resource.kind@) is None,
        ensures
            wf_plane(*final(self)),
            final(self).reflectors == old(self).reflectors,
            find_resource(final(self).discovery@, resource.api_version@, resource.kind@)
                == Some(resource),
            forall|av2: Seq<char>, k2: Seq<char>|
                !(av2 == resource.api_version@ && k2 == resource.kind@) ==> #[trigger] find_resource(
                    final(self).discovery@,
                    av2,
                    k2,
                ) == find_resource(old(self).discovery@, av2, k2),
    {
        let avk = ApiVersionKind {
            api_version: resource.api_version.clone(),
            kind: resource.kind.clone(),
        };
        proof {
            lemma_find_resource_push(self.discovery@, avk, resource, resource.api_version@, resource.kind@);
            lemma_find_resource_push_other(self.discovery@, avk, resource);
        }
        self.discovery.push((avk, resource));
    }

    /// The reflector under the given identifier, if its watch has started.
    pub fn lookup_reflector(&self, id: &str) -> (r: Option<&Reflector>)
        ensures
            match r {
                Some(refl) => find_reflector(self.reflectors@, id@) == Some(*refl),
                None => find_reflector(self.reflectors@, id@) is None,
            },
    {
        let n = self.reflectors.len();
        let mut i: usize = 0;
        proof {
            assert(self.reflectors@.skip(0) =~= self.reflectors@);
        }
        while i < n
            invariant
                i <= n,
                n == self.reflectors@.len(),
                find_reflector(self.reflectors@, id@) == find_reflector(
                    self.reflectors@.skip(i as int),
                    id@,
                ),
            decreases n - i,
        {
            proof {
                assert(self.reflectors@.skip(i as int)[0] == self.reflectors@[i as int]);
            }
            let entry = &self.reflectors[i];
            if str_eq(entry.0.as_str(), id) {
                return Some(&entry.1);
            }
            proof {
                assert(self.reflectors@.skip(i as int).drop_first() =~= self.reflectors@.skip(
                    i as int + 1,
                ));
            }
            i += 1;
        }
        None
    }

    /// Install a reflector that just started watching: its mirror holds the
    /// initial snapshot and its change instant is the moment of creation.
    pub fn install_reflector(&mut self, id: &str, items: Vec<KubeObject>, now: u64)
        requires
            wf_plane(*old(self)),
            find_reflector(old(self).reflectors@, id@) is None,
        ensures
            wf_plane(*final(self)),
            final(self).discovery == old(self).discovery,
            find_reflector(final(self).reflectors@, id@) matches Some(refl) && refl.items == items
                && refl.last_change_seen_at == now,
            forall|id2: Seq<char>|
                id2 != id@ ==> #[trigger] find_reflector(final(self).reflectors@, id2)
                    == find_reflector(old(self).reflectors@, id2),
    {
        let key = id.to_owned();
        let refl = Reflector { items, last_change_seen_at: now };
        proof {
            lemma_find_reflector_push(self.reflectors@, key, refl, id@);
            lemma_find_reflector_push_other(self.reflectors@, key, refl, id@);
        }
        self.reflectors.push((key, refl));
    }

    /// The watch stream delivered an event: the mirror now holds `items`,
    /// and the change instant advances. The watch task is the sole mutator
    /// of a reflector, and its clock is monotonic, so the new instant is
    /// strictly beyond the stored one.
    pub fn record_event(&mut self, id: &str, items: Vec<KubeObject>, at: u64)
        requires
            wf_plane(*old(self)),
            find_reflector(old(self).reflectors@, id@) matches Some(refl)
                && refl.last_change_seen_at < at,
        ensures
            wf_plane(*final(self)),
            final(self).discovery == old(self).discovery,
            find_reflector(final(self).reflectors@, id@) matches Some(refl) && refl.items == items
                && refl.last_change_seen_at == at,
            forall|id2: Seq<char>|
                id2 != id@ ==> #[trigger] find_reflector(final(self).reflectors@, id2)
                    == find_reflector(old(self).reflectors@, id2),
    {
        let n = self.reflectors.len();
        let mut i: usize = 0;
        proof {
            assert(self.reflectors@.skip(0) =~= self.reflectors@);
        }
        while i < n
            invariant
                i <= n,
                n == self.reflectors@.len(),
                self.discovery == old(self).discovery,
                self.reflectors == old(self).reflectors,
                find_reflector(self.reflectors@, id@) == find_reflector(
                    self.reflectors@.skip(i as int),
                    id@,
                ),
                forall|k: int| 0 <= k < i ==> self.reflectors@[k].0@ != id@,
                find_reflector(old(self).reflectors@, id@) matches Some(refl)
                    && refl.last_change_seen_at < at,
                wf_plane(*old(self)),
            decreases n - i,
        {
            proof {
                assert(self.reflectors@.skip(i as int)[0] == self.reflectors@[i as int]);
            }
            let hit = str_eq(self.reflectors[i].0.as_str(), id);
            if hit {
                let key = self.reflectors[i].0.clone();
                let ghost old_entries = self.reflectors@;
                self.reflectors[i] = (key, Reflector { items, last_change_seen_at: at });
                proof {
                    lemma_find_reflector_update(old_entries, i as int, self.reflectors@[i as int], id@);
                    lemma_find_reflector_update_other(old_entries, i as int, self.reflectors@[i as int], id@);
                }
                return;
            }
            proof {
                assert(self.reflectors@.skip(i as int).drop_first() =~= self.reflectors@.skip(
                    i as int + 1,
                ));
            }
            i += 1;
        }
    }

    /// Whether the watched set has changed since `since`. A reflector that
    /// does not exist yet is conservatively treated as changed.
    pub fn has_changed_since(&self, id: &str, since: u64) -> (r: bool)
        ensures
            r == spec_has_changed_since(*self, id@, since),
    {
        match self.lookup_reflector(id) {
            None => true,
            Some(refl) => refl.last_change_seen_at > since,
        }
    }

    /// A consistent snapshot of a reflector's mirror, wrapped in the list
    /// envelope of the resource: `apiVersion` as declared, kind with the
    /// `List` suffix, and every mirrored item.
    pub fn list_from_reflector(&self, id: &str, api_version: &str, kind: &str) -> (r: Result<
        KubeObjectList,
        KubeError,
    >)
        ensures
            match r {
                Ok(list) => {
                    &&& find_reflector(self.reflectors@, id@) matches Some(refl) && {
                        &&& list.items@.len() == refl.items@.len()
                        &&& forall|j: int|
                            0 <= j < refl.items@.len() ==> obj_view(#[trigger] list.items@[j])
                                == obj_view(refl.items@[j])
                    }
                    &&& list.api_version@ == api_version@
                    &&& list.kind@ == kind@ + "List"@
                },
                Err(e) => e == KubeError::ReflectorNotStarted && find_reflector(
                    self.reflectors@,
                    id@,
                ) is None,
            },
    {
        let refl = match self.lookup_reflector(id) {
            Some(refl) => refl,
            None => {
                return Err(KubeError::ReflectorNotStarted);
            },
        };
        let mut items: Vec<KubeObject> = Vec::new();
        let n = refl.items.len();
        let mut i: usize = 0;
        while i < n
            invariant
                i <= n,
                n == refl.items@.len(),
                items@.len() == i,
                forall|j: int|
                    0 <= j < i ==> obj_view(#[trigger] items@[j]) == obj_view(refl.items@[j]),
            decreases n - i,
        {
            items.push(clone_object(&refl.items[i]));
            i += 1;
        }
        let mut list_kind = kind.to_owned();
        list_kind.append("List");
        Ok(KubeObjectList { api_version: api_version.to_owned(), kind: list_kind, items })
    }
}

proof fn lemma_find_reflector_update(
    entries: Seq<(String, Reflector)>,
    i: int,
    entry: (String, Reflector),
    id: Seq<char>,
)
    requires
        0 <= i < entries.len(),
        entries[i].0@ == id,
        entry.0@ == id,
        forall|k: int| 0 <= k < i ==> entries[k].0@ != id,
    ensures
        find_reflector(entries.update(i, entry), id) == Some(entry.1),
    decreases i,
{
    if i == 0 {
        assert(entries.update(0, entry)[0] == entry);
    } else {
        assert(entries.update(i, entry).drop_first() =~= entries.drop_first().update(i - 1, entry));
        assert(forall|k: int| 0 <= k < i - 1 ==> entries.drop_first()[k].0@ != id);
        lemma_find_reflector_update(entries.drop_first(), i - 1, entry, id);
    }
}

/// Change detection: true when the reflector has seen a change after
/// `since`, or has not been started yet.
pub open spec fn spec_has_changed_since(plane: KubeDataPlane, id: Seq<char>, since: u64) -> bool {
    match find_reflector(plane.reflectors@, id) {
        None => true,
        Some(refl) => refl.last_change_seen_at > since,
    }
}

/// Law: change detection. With a reflector in place, the watched set counts
/// as changed since `t0` exactly when the last event the watch delivered was
/// stamped after `t0`; a reflector that has not been started yet always
/// counts as changed.
pub proof fn lemma_change_detection(plane: KubeDataPlane, id: Seq<char>, t0: u64)
    ensures
        find_reflector(plane.reflectors@, id) matches Some(refl) ==> (spec_has_changed_since(
            plane,
            id,
            t0,
        ) <==> refl.last_change_seen_at > t0),
        find_reflector(plane.reflectors@, id) is None ==> spec_has_changed_since(plane, id, t0),
{
}

/// Copy one mirrored object; readers of a reflector take snapshots rather
/// than borrow from it.
pub fn clone_object(o: &KubeObject) -> (r: KubeObject)
    ensures
        obj_view(r) == obj_view(*o),
{
    KubeObject {
        name: o.name.clone(),
        namespace: match &o.namespace {
            Some(ns) => Some(ns.clone()),
            None => None,
        },
        data: crate::text::copy_bytes(&o.data),
    }
}

/// Resolve a discovery response: find the row announcing `kind`, split the
/// apiVersion into group and version (the core group `v1` has an empty group
/// name), and record the plural name and scope.
pub fn resource_from_discovery(api_version: &str, kind: &str, rows: &Vec<ApiResourceRow>) -> (r:
    Result<KubeResource, KubeError>)
    ensures
        match r {
            Ok(res) => {
                &&& find_row(rows@, kind@) matches Some(row) && {
                    &&& res.plural@ == row.name@
                    &&& res.namespaced == row.namespaced
                }
                &&& res.api_version@ == api_version@
                &&& res.kind@ == kind@
                &&& (api_version@ == "v1"@ ==> res.group@ == Seq::<char>::empty() && res.version@
                    == "v1"@)
                &&& (api_version@ != "v1"@ ==> (spec_find_char(api_version@, '/') matches Some(i)
                    && res.group@ == api_version@.subrange(0, i) && res.version@
                    == api_version@.subrange(i + 1, api_version@.len() as int)))
            },
            Err(KubeError::ResourceNotFound { api_version: av, kind: k }) => find_row(
                rows@,
                kind@,
            ) is None && av@ == api_version@ && k@ == kind@,
            Err(KubeError::GroupVersionUnparsable { api_version: av }) => find_row(
                rows@,
                kind@,
            ) is Some && api_version@ != "v1"@ && spec_find_char(api_version@, '/') is None && av@
                == api_version@,
            Err(_) => false,
        },
{
    let row = match find_row_exec(rows, kind) {
        Some(row) => row,
        None => {
            return Err(KubeError::ResourceNotFound {
                api_version: api_version.to_owned(),
                kind: kind.to_owned(),
            });
        },
    };
    let (group, version): (String, String) = if str_eq(api_version, "v1") {
        proof {
            reveal_strlit("");
            assert(""@ =~= Seq::<char>::empty());
        }
        ("".to_owned(), "v1".to_owned())
    } else {
        match split_once(api_version, '/') {
            Some(parts) => parts,
            None => {
                return Err(KubeError::GroupVersionUnparsable {
                    api_version: api_version.to_owned(),
                });
            },
        }
    };
    Ok(KubeResource {
        group,
        version,
        api_version: api_version.to_owned(),
        kind: kind.to_owned(),
        plural: row.name.clone(),
        namespaced: row.namespaced,
    })
}

/// The first discovery row announcing `kind`.
pub open spec fn find_row(rows: Seq<ApiResourceRow>, kind: Seq<char>) -> Option<ApiResourceRow>
    decreases rows.len(),
{
    if rows.len() == 0 {
        None
    } else if rows[0].kind@ == kind {
        Some(rows[0])
    } else {
        find_row(rows.drop_first(), kind)
    }
}

fn find_row_exec<'a>(rows: &'a Vec<ApiResourceRow>, kind: &str) -> (r: Option<&'a ApiResourceRow>)
    ensures
        match r {
            Some(row) => find_row(rows@, kind@) == Some(*row),
            None => find_row(rows@, kind@) is None,
        },
{
    let n = rows.len();
    let mut i: usize = 0;
    proof {
        assert(rows@.skip(0) =~= rows@);
    }
    while i < n
        invariant
            i <= n,
            n == rows@.len(),
            find_row(rows@, kind@) == find_row(rows@.skip(i as int), kind@),
        decreases n - i,
    {
        proof {
            assert(rows@.skip(i as int)[0] == rows@[i as int]);
        }
        if str_eq(rows[i].kind.as_str(), kind) {
            return Some(&rows[i]);
        }
        proof {
            assert(rows@.skip(i as int).drop_first() =~= rows@.skip(i as int + 1));
        }
        i += 1;
    }
    None
}

/// The canonical identifier of a reflector: the resource coordinates plus
/// the optional namespace and selectors, each in its own field.
pub open spec fn spec_reflector_id(
    api_version: Seq<char>,
    kind: Seq<char>,
    namespace: Option<Seq<char>>,
    label_selector: Option<Seq<char>>,
    field_selector: Option<Seq<char>>,
) -> Seq<char> {
    api_version + "|"@ + kind + "|"@ + opt_or_empty(namespace) + "|"@ + opt_or_empty(
        label_selector,
    ) + "|"@ + opt_or_empty(field_selector)
}

pub open spec fn opt_or_empty(o: Option<Seq<char>>) -> Seq<char> {
    match o {
        Some(s) => s,
        None => Seq::empty(),
    }
}

/// Compute the identifier under which a watch on these coordinates lives.
pub fn compute_reflector_id(
    api_version: &str,
    kind: &str,
    namespace: &Option<String>,
    label_selector: &Option<String>,
    field_selector: &Option<String>,
) -> (r: String)
    ensures
        r@ == spec_reflector_id(
            api_version@,
            kind@,
            match *namespace {
                Some(ref s) => Some(s@),
                None => None,
            },
            match *label_selector {
                Some(ref s) => Some(s@),
                None => None,
            },
            match *field_selector {
                Some(ref s) => Some(s@),
                None => None,
            },
        ),
{
    let mut id = api_version.to_owned();
    id.append("|");
    id.append(kind);
    id.append("|");
    match namespace {
        Some(ns) => id.append(ns.as_str()),
        None => (),
    }
    id.append("|");
    match label_selector {
        Some(l) => id.append(l.as_str()),
        None => (),
    }
    id.append("|");
    match field_selector {
        Some(f) => id.append(f.as_str()),
        None => (),
    }
    proof {
        assert(id@ =~= spec_reflector_id(
            api_version@,
            kind@,
            match *namespace {
                Some(ref s) => Some(s@),
                None => None,
            },
            match *label_selector {
                Some(ref s) => Some(s@),
                None => None,
            },
            match *field_selector {
                Some(ref s) => Some(s@),
                None => None,
            },
        ));
    }
    id
}

/// A capability result plus whether it was answered from a cache.
#[derive(Clone, Debug)]
pub struct Cached<T> {
    pub was_cached: bool,
    pub value: T,
}

/// A permission request a guest asks the cluster about.
#[derive(Clone, Debug)]
pub struct SubjectAccessReview {
    pub user: String,
    pub groups: Vec<String>,
    pub verb: String,
    pub group: String,
    pub resource: String,
    pub namespace: Option<String>,
}

/// The status a permission review comes back with.
#[derive(Clone, Debug, PartialEq)]
pub struct SubjectAccessReviewStatus {
    pub allowed: bool,
    pub denied: bool,
    pub reason: Option<String>,
}

/// The plural name under which a resource family is served. The discovery
/// cache is built once per process, so the answer always counts as cached.
pub fn get_resource_plural_name(
    client: Option<&KubeDataPlane>,
    api_version: &str,
    kind: &str,
) -> (r: Result<Cached<String>, KubeError>)
    ensures
        client is None ==> r == Err::<Cached<String>, KubeError>(KubeError::ClientNotInitialized),
        client matches Some(plane) ==> match r {
            Ok(c) => c.was_cached && (find_resource(plane.discovery@, api_version@, kind@)
                matches Some(res) && c.value@ == res.plural@),
            Err(e) => find_resource(plane.discovery@, api_version@, kind@) is None
                && e is ResourceNotFound,
        },
{
    let plane = match client {
        None => {
            return Err(KubeError::ClientNotInitialized);
        },
        Some(plane) => plane,
    };
    match plane.lookup_resource(api_version, kind) {
        Some(res) => Ok(Cached { was_cached: true, value: res.plural.clone() }),
        None => Err(
            KubeError::ResourceNotFound {
                api_version: api_version.to_owned(),
                kind: kind.to_owned(),
            },
        ),
    }
}

/// Whether the watched "list all" result for a resource has changed since
/// `since`; a watch that has not started yet counts as changed.
pub fn has_list_resources_all_result_changed_since_instant(
    client: Option<&KubeDataPlane>,
    api_version: &str,
    kind: &str,
    label_selector: &Option<String>,
    field_selector: &Option<String>,
    since: u64,
) -> (r: Result<Cached<bool>, KubeError>)
    ensures
        client is None ==> r == Err::<Cached<bool>, KubeError>(KubeError::ClientNotInitialized),
        client matches Some(plane) ==> match r {
            Ok(c) => !c.was_cached && find_resource(plane.discovery@, api_version@, kind@) is Some
                && c.value == spec_has_changed_since(
                *plane,
                spec_reflector_id(
                    api_version@,
                    kind@,
                    None,
                    match *label_selector {
                        Some(ref s) => Some(s@),
                        None => None,
                    },
                    match *field_selector {
                        Some(ref s) => Some(s@),
                        None => None,
                    },
                ),
                since,
            ),
            Err(e) => find_resource(plane.discovery@, api_version@, kind@) is None
                && e is ResourceNotFound,
        },
{
    let plane = match client {
        None => {
            return Err(KubeError::ClientNotInitialized);
        },
        Some(plane) => plane,
    };
    if plane.lookup_resource(api_version, kind).is_none() {
        return Err(
            KubeError::ResourceNotFound {
                api_version: api_version.to_owned(),
                kind: kind.to_owned(),
            },
        );
    }
    let id = compute_reflector_id(api_version, kind, &None, label_selector, field_selector);
    Ok(Cached { was_cached: false, value: plane.has_changed_since(id.as_str(), since) })
}

/// The conditions under which a cluster-wide list succeeds, and its shape.
pub open spec fn spec_list_all_ok(
    plane: KubeDataPlane,
    api_version: Seq<char>,
    kind: Seq<char>,
    label_selector: Option<Seq<char>>,
    field_selector: Option<Seq<char>>,
    list: KubeObjectList,
) -> bool {
    &&& find_resource(plane.discovery@, api_version, kind) is Some
    &&& find_reflector(
        plane.reflectors@,
        spec_reflector_id(api_version, kind, None, label_selector, field_selector),
    ) matches Some(refl) && {
        &&& list.items@.len() == refl.items@.len()
        &&& forall|j: int|
            0 <= j < refl.items@.len() ==> obj_view(#[trigger] list.items@[j]) == obj_view(
                refl.items@[j],
            )
    }
    &&& list.api_version@ == api_version
    &&& list.kind@ == kind + "List"@
}

/// List every mirrored object of a resource family, cluster-wide, in the
/// resource's list envelope.
pub fn list_resources_all(
    client: Option<&KubeDataPlane>,
    api_version: &str,
    kind: &str,
    label_selector: &Option<String>,
    field_selector: &Option<String>,
) -> (r: Result<Cached<KubeObjectList>, KubeError>)
    ensures
        client is None ==> (r matches Err(e) && e == KubeError::ClientNotInitialized),
        client matches Some(plane) ==> match r {
            Ok(c) => !c.was_cached && spec_list_all_ok(
                *plane,
                api_version@,
                kind@,
                match *label_selector {
                    Some(ref s) => Some(s@),
                    None => None,
                },
                match *field_selector {
                    Some(ref s) => Some(s@),
                    None => None,
                },
                c.value,
            ),
            Err(e) => match e {
                KubeError::ResourceNotFound { .. } => find_resource(
                    plane.discovery@,
                    api_version@,
                    kind@,
                ) is None,
                KubeError::ReflectorNotStarted => find_resource(
                    plane.discovery@,
                    api_version@,
                    kind@,
                ) is Some && find_reflector(
                    plane.reflectors@,
                    spec_reflector_id(
                        api_version@,
                        kind@,
                        None,
                        match *label_selector {
                            Some(ref s) => Some(s@),
                            None => None,
                        },
                        match *field_selector {
                            Some(ref s) => Some(s@),
                            None => None,
                        },
                    ),
                ) is None,
                _ => false,
            },
        },
{
    let plane = match client {
        None => {
            return Err(KubeError::ClientNotInitialized);
        },
        Some(plane) => plane,
    };
    if plane.lookup_resource(api_version, kind).is_none() {
        return Err(
            KubeError::ResourceNotFound {
                api_version: api_version.to_owned(),
                kind: kind.to_owned(),
            },
        );
    }
    let id = compute_reflector_id(api_version, kind, &None, label_selector, field_selector);
    match plane.list_from_reflector(id.as_str(), api_version, kind) {
        Ok(list) => Ok(Cached { was_cached: false, value: list }),
        Err(e) => Err(e),
    }
}

/// List the mirrored objects of a namespaced resource family inside one
/// namespace. A cluster-wide resource cannot be searched in a namespace.
pub fn list_resources_by_namespace(
    client: Option<&KubeDataPlane>,
    api_version: &str,
    kind: &str,
    namespace: &str,
    label_selector: &Option<String>,
    field_selector: &Option<String>,
) -> (r: Result<Cached<KubeObjectList>, KubeError>)
    ensures
        client is None ==> (r matches Err(e) && e == KubeError::ClientNotInitialized),
        client matches Some(plane) ==> match r {
            Ok(c) => {
                &&& !c.was_cached
                &&& find_resource(plane.discovery@, api_version@, kind@) matches Some(res)
                    && res.namespaced
                &&& find_reflector(
                    plane.reflectors@,
                    spec_reflector_id(
                        api_version@,
                        kind@,
                        Some(namespace@),
                        match *label_selector {
                            Some(ref s) => Some(s@),
                            None => None,
                        },
                        match *field_selector {
                            Some(ref s) => Some(s@),
                            None => None,
                        },
                    ),
                ) matches Some(refl) && {
                    &&& c.value.items@.len() == refl.items@.len()
                    &&& forall|j: int|
                        0 <= j < refl.items@.len() ==> obj_view(#[trigger] c.value.items@[j])
                            == obj_view(refl.items@[j])
                }
                &&& c.value.api_version@ == api_version@
                &&& c.value.kind@ == kind@ + "List"@
            },
            Err(e) => match e {
                KubeError::ResourceNotFound { .. } => find_resource(
                    plane.discovery@,
                    api_version@,
                    kind@,
                ) is None,
                KubeError::ClusterWide { .. } => find_resource(
                    plane.discovery@,
                    api_version@,
                    kind@,
                ) matches Some(res) && !res.namespaced,
                KubeError::ReflectorNotStarted => (find_resource(
                    plane.discovery@,
                    api_version@,
                    kind@,
                ) matches Some(res) && res.namespaced) && find_reflector(
                    plane.reflectors@,
                    spec_reflector_id(
                        api_version@,
                        kind@,
                        Some(namespace@),
                        match *label_selector {
                            Some(ref s) => Some(s@),
                            None => None,
                        },
                        match *field_selector {
                            Some(ref s) => Some(s@),
                            None => None,
                        },
                    ),
                ) is None,
                _ => false,
            },
        },
{
    let plane = match client {
        None => {
            return Err(KubeError::ClientNotInitialized);
        },
        Some(plane) => plane,
    };
    let namespaced = match plane.lookup_resource(api_version, kind) {
        Some(res) => res.namespaced,
        None => {
            return Err(
                KubeError::ResourceNotFound {
                    api_version: api_version.to_owned(),
                    kind: kind.to_owned(),
                },
            );
        },
    };
    if !namespaced {
        return Err(
            KubeError::ClusterWide { api_version: api_version.to_owned(), kind: kind.to_owned() },
        );
    }
    let ns = Some(namespace.to_owned());
    let id = compute_reflector_id(api_version, kind, &ns, label_selector, field_selector);
    match plane.list_from_reflector(id.as_str(), api_version, kind) {
        Ok(list) => Ok(Cached { was_cached: false, value: list }),
        Err(e) => Err(e),
    }
}

/// How a point lookup must be made: inside the namespace, or cluster-wide.
#[derive(Clone, Debug, PartialEq)]
pub struct GetPlan {
    pub namespaced: bool,
}

/// Decide how to fetch one object: a namespaced resource needs a namespace,
/// a cluster-wide one must be fetched without one.
pub fn get_resource_plan(
    client: Option<&KubeDataPlane>,
    api_version: &str,
    kind: &str,
    namespace: &Option<String>,
) -> (r: Result<GetPlan, KubeError>)
    ensures
        client is None ==> (r matches Err(e) && e == KubeError::ClientNotInitialized),
        client matches Some(plane) ==> match r {
            Ok(plan) => find_resource(plane.discovery@, api_version@, kind@) matches Some(res)
                && plan.namespaced == res.namespaced && (res.namespaced ==> namespace is Some),
            Err(e) => match e {
                KubeError::ResourceNotFound { .. } => find_resource(
                    plane.discovery@,
                    api_version@,
                    kind@,
                ) is None,
                KubeError::NamespaceRequired { .. } => find_resource(
                    plane.discovery@,
                    api_version@,
                    kind@,
                ) matches Some(res) && res.namespaced && namespace is None,
                _ => false,
            },
        },
{
    let plane = match client {
        None => {
            return Err(KubeError::ClientNotInitialized);
        },
        Some(plane) => plane,
    };
    let namespaced = match plane.lookup_resource(api_version, kind) {
        Some(res) => res.namespaced,
        None => {
            return Err(
                KubeError::ResourceNotFound {
                    api_version: api_version.to_owned(),
                    kind: kind.to_owned(),
                },
            );
        },
    };
    if namespaced && namespace.is_none() {
        return Err(
            KubeError::NamespaceRequired {
                api_version: api_version.to_owned(),
                kind: kind.to_owned(),
            },
        );
    }
    Ok(GetPlan { namespaced })
}

/// Turn the result of a point fetch into the capability's answer: a fresh
/// value, or the not-found error naming what was asked for.
pub fn get_resource_outcome(
    api_version: &str,
    kind: &str,
    name: &str,
    namespace: &Option<String>,
    fetched: Option<KubeObject>,
) -> (r: Result<Cached<KubeObject>, KubeError>)
    ensures
        match r {
            Ok(c) => !c.was_cached && (fetched matches Some(obj) && obj_view(c.value) == obj_view(
                obj,
            )),
            Err(e) => fetched is None && e is ObjectNotFound,
        },
{
    match fetched {
        Some(obj) => Ok(Cached { was_cached: false, value: obj }),
        None => Err(
            KubeError::ObjectNotFound {
                api_version: api_version.to_owned(),
                kind: kind.to_owned(),
                name: name.to_owned(),
                namespace: match namespace {
                    Some(ns) => Some(ns.clone()),
                    None => None,
                },
            },
        ),
    }
}

/// Turn the result of a permission review into the capability's answer: the
/// review's status, or an error when the cluster returned none.
pub fn can_i_outcome(response_status: Option<SubjectAccessReviewStatus>) -> (r: Result<
    Cached<SubjectAccessReviewStatus>,
    KubeError,
>)
    ensures
        match r {
            Ok(c) => !c.was_cached && response_status == Some(c.value),
            Err(e) => response_status is None && e == KubeError::EmptySubjectAccessReviewResponse,
        },
{
    match response_status {
        Some(status) => Ok(Cached { was_cached: false, value: status }),
        None => Err(KubeError::EmptySubjectAccessReviewResponse),
    }
}

} // verus!
