use kubewarden::bus::{BusError, CallbackRequest, CallbackRequestType, HostCallSession};
use kubewarden::context_aware::{
    any_resource_changed, change_detection_request, list_all_request, plural_name_request,
};
use kubewarden::context_aware::{build_kubernetes_context, get_all_resources_by_type, ContextAwareError, KubernetesContext};
use kubewarden::evaluator::RegoPolicyExecutionMode;
use kubewarden::metadata::ContextAwareResource;

fn list_request() -> CallbackRequestType {
    CallbackRequestType::KubernetesListResourceAll {
        api_version: "v1".to_string(),
        kind: "Service".to_string(),
        label_selector: None,
        field_selector: None,
    }
}

#[test]
fn a_closed_bus_fails_the_send() {
    let (tx, rx) = tokio::sync::mpsc::channel::<CallbackRequest>(1);
    drop(rx);
    let mut session = HostCallSession::new(tx);
    let r = session.call(list_request());
    assert!(matches!(r, Err(BusError::Send(_))));
}

#[test]
fn snapshot_building_surfaces_bus_errors() {
    let (tx, rx) = tokio::sync::mpsc::channel::<CallbackRequest>(1);
    drop(rx);
    let resource = ContextAwareResource {
        api_version: "v1".to_string(),
        kind: "Service".to_string(),
    };
    let r = get_all_resources_by_type(&tx, &resource);
    assert!(matches!(r, Err(ContextAwareError::CallbackSend(_))));
}

#[test]
fn a_policy_without_declared_resources_gets_an_empty_context() {
    let (tx, _rx) = tokio::sync::mpsc::channel::<CallbackRequest>(1);
    let ctx = build_kubernetes_context(&tx, RegoPolicyExecutionMode::Opa, &Vec::new()).unwrap();
    assert!(matches!(ctx, KubernetesContext::Empty));
}

#[test]
fn snapshot_staleness_is_the_disjunction_of_the_flags() {
    assert!(any_resource_changed(&vec![true]));
    assert!(!any_resource_changed(&vec![false]));
    assert!(any_resource_changed(&vec![true, false]));
    assert!(!any_resource_changed(&vec![false, false]));
    assert!(!any_resource_changed(&Vec::new()));
}

#[test]
fn snapshot_requests_carry_the_exact_coordinates() {
    let resource = ContextAwareResource {
        api_version: "v1".to_string(),
        kind: "Service".to_string(),
    };
    assert!(matches!(
        list_all_request(&resource),
        CallbackRequestType::KubernetesListResourceAll { api_version, kind, label_selector, field_selector }
            if api_version == "v1" && kind == "Service" && label_selector.is_none() && field_selector.is_none()
    ));
    assert!(matches!(
        plural_name_request(&resource),
        CallbackRequestType::KubernetesGetResourcePluralName { api_version, kind }
            if api_version == "v1" && kind == "Service"
    ));
    assert!(matches!(
        change_detection_request(&resource, 10),
        CallbackRequestType::HasKubernetesListResourceAllResultChangedSinceInstant { since: 10, .. }
    ));
}
