//! The context snapshot that policy-as-data guests evaluate against.
//!
//! Before invoking such a guest, the engine lists every resource family the
//! policy declared, and for the constrained dialect also resolves plural
//! names; both go through the host-capability bus. The bus replies arrive in
//! the canonical payload encoding and are decoded here.

use vstd::prelude::*;
use crate::bus::{send_request_and_wait, BusError, CallbackRequestType, CallbackRequest};
use crate::codec::{decode_bool, decode_object_list, decode_string, CodecError};
use crate::evaluator::RegoPolicyExecutionMode;
use crate::kube::KubeObjectList;
use crate::metadata::ContextAwareResource;

verus! {

/// Why building the snapshot failed.
#[derive(Clone, Debug, PartialEq)]
pub enum ContextAwareError {
    /// The request could not be posted on the bus.
    CallbackSend(String),
    /// The capability behind the router answered with an error.
    CallbackRequest(String),
    /// The reply channel closed before an answer came.
    CallbackResponse(String),
    /// A list reply was not a canonical list payload.
    CallbackConvertList(CodecError),
    /// A change-detection reply was not a canonical boolean payload.
    CallbackConvertBool(CodecError),
    /// A plural-name reply was not a canonical string payload.
    CallbackGetPluralName(CodecError),
}

/// The identity of a declared resource, at the level contracts speak of.
pub open spec fn car_view(r: ContextAwareResource) -> (Seq<char>, Seq<char>) {
    (r.api_version@, r.kind@)
}

fn clone_resource(r: &ContextAwareResource) -> (c: ContextAwareResource)
    ensures
        car_view(c) == car_view(*r),
{
    ContextAwareResource { api_version: r.api_version.clone(), kind: r.kind.clone() }
}

/// How bus failures surface to the snapshot builder: a request that could
/// not be posted, a capability error passed through unchanged with no local
/// retry, or a reply channel closed by shutdown. This is the whole mapping;
/// nothing is retried or rewritten.
pub fn bus_error(e: BusError) -> (r: ContextAwareError)
    ensures
        match e {
            BusError::Send(m) => r == ContextAwareError::CallbackSend(m),
            BusError::Capability(m) => r == ContextAwareError::CallbackRequest(m),
            BusError::ResponseChannelClosed(m) => r == ContextAwareError::CallbackResponse(m),
        },
{
    match e {
        BusError::Send(m) => ContextAwareError::CallbackSend(m),
        BusError::Capability(m) => ContextAwareError::CallbackRequest(m),
        BusError::ResponseChannelClosed(m) => ContextAwareError::CallbackResponse(m),
    }
}

/// The request the snapshot builder emits to list one declared resource
/// family: its exact coordinates, cluster-wide, with no selectors.
pub fn list_all_request(resource_type: &ContextAwareResource) -> (r: CallbackRequestType)
    ensures
        r matches CallbackRequestType::KubernetesListResourceAll {
            api_version,
            kind,
            label_selector,
            field_selector,
        } && api_version@ == resource_type.api_version@ && kind@ == resource_type.kind@
            && label_selector is None && field_selector is None,
{
    CallbackRequestType::KubernetesListResourceAll {
        api_version: resource_type.api_version.clone(),
        kind: resource_type.kind.clone(),
        label_selector: None,
        field_selector: None,
    }
}

/// The request the snapshot builder emits to resolve one plural name.
pub fn plural_name_request(resource_type: &ContextAwareResource) -> (r: CallbackRequestType)
    ensures
        r matches CallbackRequestType::KubernetesGetResourcePluralName { api_version, kind }
            && api_version@ == resource_type.api_version@ && kind@ == resource_type.kind@,
{
    CallbackRequestType::KubernetesGetResourcePluralName {
        api_version: resource_type.api_version.clone(),
        kind: resource_type.kind.clone(),
    }
}

/// The request the snapshot builder emits to ask whether one resource
/// family's cluster-wide list changed since `since`; no selectors are sent.
pub fn change_detection_request(resource_type: &ContextAwareResource, since: u64) -> (r:
    CallbackRequestType)
    ensures
        r matches CallbackRequestType::HasKubernetesListResourceAllResultChangedSinceInstant {
            api_version,
            kind,
            label_selector,
            field_selector,
            since: s,
        } && api_version@ == resource_type.api_version@ && kind@ == resource_type.kind@
            && label_selector is None && field_selector is None && s == since,
{
    CallbackRequestType::HasKubernetesListResourceAllResultChangedSinceInstant {
        api_version: resource_type.api_version.clone(),
        kind: resource_type.kind.clone(),
        label_selector: None,
        field_selector: None,
        since,
    }
}

/// List every object of one declared resource family, cluster-wide, through
/// the bus: exactly one request, the one `list_all_request` builds. The
/// reply payload decodes to the returned list — and every canonical list
/// payload decodes — so what the list holds is exactly what the capability
/// answered.
pub fn get_all_resources_by_type(
    callback_channel: &tokio::sync::mpsc::Sender<CallbackRequest>,
    resource_type: &ContextAwareResource,
) -> (r: Result<KubeObjectList, ContextAwareError>)
{
    let req_type = list_all_request(resource_type);
    let response = match send_request_and_wait(callback_channel, req_type) {
        Ok(resp) => resp,
        Err(e) => {
            return Err(bus_error(e));
        },
    };
    match decode_object_list(&response.payload) {
        Ok(list) => Ok(list),
        Err(e) => Err(ContextAwareError::CallbackConvertList(e)),
    }
}

/// List every declared resource family: exactly one `list_all_request` per
/// declaration, issued in declaration order — the sorted, duplicate-free
/// order the metadata keeps — pairing each declaration with the list that
/// came back. The first failure aborts the whole snapshot.
pub fn get_allowed_resources(
    callback_channel: &tokio::sync::mpsc::Sender<CallbackRequest>,
    allowed_resources: &Vec<ContextAwareResource>,
) -> (r: Result<Vec<(ContextAwareResource, KubeObjectList)>, ContextAwareError>)
    ensures
        r matches Ok(v) ==> v@.len() == allowed_resources@.len() && (forall|i: int|
            0 <= i < v@.len() ==> car_view(#[trigger] v@[i].0) == car_view(allowed_resources@[i])),
{
    let mut kube_resources: Vec<(ContextAwareResource, KubeObjectList)> = Vec::new();
    let n = allowed_resources.len();
    let mut i: usize = 0;
    while i < n
        invariant
            i <= n,
            n == allowed_resources@.len(),
            kube_resources@.len() == i,
            forall|k: int|
                0 <= k < i ==> car_view(#[trigger] kube_resources@[k].0) == car_view(
                    allowed_resources@[k],
                ),
        decreases n - i,
    {
        let resource = &allowed_resources[i];
        let list = match get_all_resources_by_type(callback_channel, resource) {
            Ok(list) => list,
            Err(e) => {
                return Err(e);
            },
        };
        kube_resources.push((clone_resource(resource), list));
        i += 1;
    }
    Ok(kube_resources)
}

/// Resolve the plural name of every declared resource family: one
/// `plural_name_request` per declaration, in declaration order, pairing
/// each declaration with its name. The first failure aborts.
pub fn get_plural_names(
    callback_channel: &tokio::sync::mpsc::Sender<CallbackRequest>,
    allowed_resources: &Vec<ContextAwareResource>,
) -> (r: Result<Vec<(ContextAwareResource, String)>, ContextAwareError>)
    ensures
        r matches Ok(v) ==> v@.len() == allowed_resources@.len() && (forall|i: int|
            0 <= i < v@.len() ==> car_view(#[trigger] v@[i].0) == car_view(allowed_resources@[i])),
{
    let mut plural_names: Vec<(ContextAwareResource, String)> = Vec::new();
    let n = allowed_resources.len();
    let mut i: usize = 0;
    while i < n
        invariant
            i <= n,
            n == allowed_resources@.len(),
            plural_names@.len() == i,
            forall|k: int|
                0 <= k < i ==> car_view(#[trigger] plural_names@[k].0) == car_view(
                    allowed_resources@[k],
                ),
        decreases n - i,
    {
        let resource = &allowed_resources[i];
        let req_type = plural_name_request(resource);
        let response = match send_request_and_wait(callback_channel, req_type) {
            Ok(resp) => resp,
            Err(e) => {
                return Err(bus_error(e));
            },
        };
        let plural_name = match decode_string(response.payload) {
            Ok(name) => name,
            Err(e) => {
                return Err(ContextAwareError::CallbackGetPluralName(e));
            },
        };
        plural_names.push((clone_resource(resource), plural_name));
        i += 1;
    }
    Ok(plural_names)
}

/// Ask whether the cluster-wide list of one resource family has changed
/// since `since`. Policy-as-data snapshots never use selectors, so none are
/// sent.
pub fn has_resource_changed_since(
    callback_channel: &tokio::sync::mpsc::Sender<CallbackRequest>,
    resource_type: &ContextAwareResource,
    since: u64,
) -> (r: Result<bool, ContextAwareError>)
{
    let req_type = change_detection_request(resource_type, since);
    let response = match send_request_and_wait(callback_channel, req_type) {
        Ok(resp) => resp,
        Err(e) => {
            return Err(bus_error(e));
        },
    };
    match decode_bool(&response.payload) {
        Ok(b) => Ok(b),
        Err(e) => Err(ContextAwareError::CallbackConvertBool(e)),
    }
}

/// The decision over the fetched change flags: the snapshot is stale when
/// any declared resource reported a change.
pub fn any_resource_changed(flags: &Vec<bool>) -> (r: bool)
    ensures
        r == exists|i: int| 0 <= i < flags@.len() && flags@[i],
{
    let n = flags.len();
    let mut i: usize = 0;
    while i < n
        invariant
            i <= n,
            n == flags@.len(),
            forall|k: int| 0 <= k < i ==> !flags@[k],
        decreases n - i,
    {
        if flags[i] {
            return true;
        }
        i += 1;
    }
    false
}

/// Whether any declared resource family changed since `since`: a cached
/// snapshot can be reused only when none did. One change-detection request
/// is asked per declaration, in declaration order; the answer is the
/// disjunction of the fetched flags, as `any_resource_changed` states it, so
/// the first changed resource already decides it and stops the iteration.
/// The first bus failure aborts.
pub fn have_allowed_resources_changed_since_instant(
    callback_channel: &tokio::sync::mpsc::Sender<CallbackRequest>,
    allowed_resources: &Vec<ContextAwareResource>,
    since: u64,
) -> (r: Result<bool, ContextAwareError>)
{
    let mut flags: Vec<bool> = Vec::new();
    let n = allowed_resources.len();
    let mut i: usize = 0;
    while i < n
        invariant
            i <= n,
            n == allowed_resources@.len(),
            forall|k: int| 0 <= k < flags@.len() ==> !flags@[k],
        decreases n - i,
    {
        match has_resource_changed_since(callback_channel, &allowed_resources[i], since) {
            Ok(true) => {
                return Ok(true);
            },
            Ok(false) => flags.push(false),
            Err(e) => {
                return Err(e);
            },
        }
        i += 1;
    }
    Ok(any_resource_changed(&flags))
}

/// The context snapshot handed to a policy-as-data guest: nothing for a
/// policy that declares no resources, the plain inventory for the plain
/// dialect, and the inventory with each resource's plural name for the
/// constrained dialect, which keys resources by their plural names.
pub enum KubernetesContext {
    Empty,
    Opa(Vec<(ContextAwareResource, KubeObjectList)>),
    Gatekeeper(Vec<(ContextAwareResource, String, KubeObjectList)>),
}

/// Materialise the context snapshot for one evaluation: one cluster-wide
/// list per declared resource, in declaration order, plus the plural names
/// the constrained dialect keys by.
pub fn build_kubernetes_context(
    callback_channel: &tokio::sync::mpsc::Sender<CallbackRequest>,
    mode: RegoPolicyExecutionMode,
    allowed_resources: &Vec<ContextAwareResource>,
) -> (r: Result<KubernetesContext, ContextAwareError>)
    ensures
        allowed_resources@.len() == 0 ==> (r matches Ok(ctx) && ctx is Empty),
        r matches Ok(ctx) ==> match ctx {
            KubernetesContext::Empty => allowed_resources@.len() == 0,
            KubernetesContext::Opa(v) => mode == RegoPolicyExecutionMode::Opa && v@.len()
                == allowed_resources@.len() && (forall|i: int|
                0 <= i < v@.len() ==> car_view(#[trigger] v@[i].0) == car_view(
                    allowed_resources@[i],
                )),
            KubernetesContext::Gatekeeper(v) => mode == RegoPolicyExecutionMode::Gatekeeper
                && v@.len() == allowed_resources@.len() && (forall|i: int|
                0 <= i < v@.len() ==> car_view(#[trigger] v@[i].0) == car_view(
                    allowed_resources@[i],
                )),
        },
{
    if allowed_resources.len() == 0 {
        return Ok(KubernetesContext::Empty);
    }
    let lists = match get_allowed_resources(callback_channel, allowed_resources) {
        Ok(lists) => lists,
        Err(e) => {
            return Err(e);
        },
    };
    match mode {
        RegoPolicyExecutionMode::Opa => Ok(KubernetesContext::Opa(lists)),
        RegoPolicyExecutionMode::Gatekeeper => {
            let plurals = match get_plural_names(callback_channel, allowed_resources) {
                Ok(plurals) => plurals,
                Err(e) => {
                    return Err(e);
                },
            };
            let mut inventory: Vec<(ContextAwareResource, String, KubeObjectList)> = Vec::new();
            let mut lists = lists;
            let mut plurals = plurals;
            let n = allowed_resources.len();
            let mut i: usize = 0;
            while i < n
                invariant
                    i <= n,
                    n == allowed_resources@.len(),
                    lists@.len() == n - i,
                    plurals@.len() == n - i,
                    inventory@.len() == i,
                    forall|k: int|
                        0 <= k < lists@.len() ==> car_view(#[trigger] lists@[k].0) == car_view(
                            allowed_resources@[i + k],
                        ),
                    forall|k: int|
                        0 <= k < i ==> car_view(#[trigger] inventory@[k].0) == car_view(
                            allowed_resources@[k],
                        ),
                decreases n - i,
            {
                let (resource, list) = lists.remove(0);
                let (_, plural) = plurals.remove(0);
                inventory.push((resource, plural, list));
                i += 1;
            }
            Ok(KubernetesContext::Gatekeeper(inventory))
        },
    }
}

} // verus!
