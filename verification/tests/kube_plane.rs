use kubewarden::kube::{
    can_i_outcome, compute_reflector_id, get_resource_outcome, get_resource_plan,
    get_resource_plural_name, has_list_resources_all_result_changed_since_instant,
    list_resources_all, list_resources_by_namespace, resource_from_discovery, ApiResourceRow,
    KubeDataPlane, KubeError, KubeObject, SubjectAccessReviewStatus,
};

fn service_discovery_rows() -> Vec<ApiResourceRow> {
    vec![
        ApiResourceRow {
            name: "pods".to_string(),
            kind: "Pod".to_string(),
            namespaced: true,
        },
        ApiResourceRow {
            name: "services".to_string(),
            kind: "Service".to_string(),
            namespaced: true,
        },
    ]
}

fn plane_with_services() -> KubeDataPlane {
    let mut plane = KubeDataPlane::new();
    let resource = resource_from_discovery("v1", "Service", &service_discovery_rows()).unwrap();
    plane.insert_resource(resource);
    plane
}

fn service(name: &str) -> KubeObject {
    KubeObject {
        name: name.to_string(),
        namespace: Some("kube-system".to_string()),
        data: name.as_bytes().to_vec(),
    }
}

#[test]
fn kube_list_returns_both_services_in_a_service_list_envelope() {
    let mut plane = plane_with_services();
    let id = compute_reflector_id("v1", "Service", &None, &None, &None);
    plane.install_reflector(
        &id,
        vec![service("kube-dns"), service("metrics-server")],
        10,
    );

    let listed = list_resources_all(Some(&plane), "v1", "Service", &None, &None).unwrap();
    assert!(!listed.was_cached);
    assert_eq!(listed.value.api_version, "v1");
    assert_eq!(listed.value.kind, "ServiceList");
    assert_eq!(listed.value.items.len(), 2);
    assert_eq!(listed.value.items[0].name, "kube-dns");
    assert_eq!(listed.value.items[1].name, "metrics-server");
    assert_eq!(
        listed.value.items[0].namespace,
        Some("kube-system".to_string())
    );
}

#[test]
fn plural_name_of_a_service_is_services() {
    let plane = plane_with_services();
    let plural = get_resource_plural_name(Some(&plane), "v1", "Service").unwrap();
    assert!(plural.was_cached);
    assert_eq!(plural.value, "services");
}

#[test]
fn change_detection_without_a_reflector_reports_a_change() {
    let plane = plane_with_services();
    let now: u64 = 1000;
    let changed = has_list_resources_all_result_changed_since_instant(
        Some(&plane),
        "v1",
        "Service",
        &None,
        &None,
        now,
    )
    .unwrap();
    assert!(changed.value);
}

#[test]
fn change_detection_follows_watch_events() {
    let mut plane = plane_with_services();
    let id = compute_reflector_id("v1", "Service", &None, &None, &None);
    plane.install_reflector(&id, vec![service("kube-dns")], 5);

    // no event since instant 5
    assert!(!plane.has_changed_since(&id, 5));
    // an event stamped later than the probe instant counts as a change
    plane.record_event(&id, vec![service("kube-dns"), service("metrics-server")], 7);
    assert!(plane.has_changed_since(&id, 5));
    assert!(!plane.has_changed_since(&id, 7));

    let listed = list_resources_all(Some(&plane), "v1", "Service", &None, &None).unwrap();
    assert_eq!(listed.value.items.len(), 2);
}

#[test]
fn missing_client_is_reported() {
    let r = list_resources_all(None, "v1", "Service", &None, &None);
    assert!(matches!(r, Err(KubeError::ClientNotInitialized)));
    let r = get_resource_plural_name(None, "v1", "Service");
    assert!(matches!(r, Err(KubeError::ClientNotInitialized)));
}

#[test]
fn unknown_resources_are_reported() {
    let plane = KubeDataPlane::new();
    let r = get_resource_plural_name(Some(&plane), "v1", "Service");
    assert!(matches!(r, Err(KubeError::ResourceNotFound { .. })));
}

#[test]
fn listing_before_the_watch_starts_is_an_error() {
    let plane = plane_with_services();
    let r = list_resources_all(Some(&plane), "v1", "Service", &None, &None);
    assert!(matches!(r, Err(KubeError::ReflectorNotStarted)));
}

#[test]
fn group_and_version_resolution() {
    let rows = vec![ApiResourceRow {
        name: "deployments".to_string(),
        kind: "Deployment".to_string(),
        namespaced: true,
    }];
    let resource = resource_from_discovery("apps/v1", "Deployment", &rows).unwrap();
    assert_eq!(resource.group, "apps");
    assert_eq!(resource.version, "v1");
    assert_eq!(resource.api_version, "apps/v1");
    assert_eq!(resource.plural, "deployments");
    assert!(resource.namespaced);

    let core = resource_from_discovery("v1", "Pod", &service_discovery_rows()).unwrap();
    assert_eq!(core.group, "");
    assert_eq!(core.version, "v1");
    assert_eq!(core.plural, "pods");

    let missing = resource_from_discovery("v1", "Gizmo", &service_discovery_rows());
    assert!(matches!(missing, Err(KubeError::ResourceNotFound { .. })));

    let unparsable = resource_from_discovery("noslash", "Deployment", &rows);
    assert!(matches!(
        unparsable,
        Err(KubeError::GroupVersionUnparsable { .. })
    ));
}

#[test]
fn namespaced_listing_refuses_cluster_wide_resources() {
    let mut plane = KubeDataPlane::new();
    let rows = vec![ApiResourceRow {
        name: "nodes".to_string(),
        kind: "Node".to_string(),
        namespaced: false,
    }];
    let resource = resource_from_discovery("v1", "Node", &rows).unwrap();
    plane.insert_resource(resource);
    let r = list_resources_by_namespace(Some(&plane), "v1", "Node", "kube-system", &None, &None);
    assert!(matches!(r, Err(KubeError::ClusterWide { .. })));
}

#[test]
fn point_lookup_plans_and_outcomes() {
    let plane = plane_with_services();
    // a namespaced resource needs a namespace
    let r = get_resource_plan(Some(&plane), "v1", "Service", &None);
    assert!(matches!(r, Err(KubeError::NamespaceRequired { .. })));
    let plan = get_resource_plan(
        Some(&plane),
        "v1",
        "Service",
        &Some("kube-system".to_string()),
    )
    .unwrap();
    assert!(plan.namespaced);

    // a fetched object comes back fresh, a missing one as not-found
    let fetched = get_resource_outcome(
        "v1",
        "Service",
        "kube-dns",
        &Some("kube-system".to_string()),
        Some(service("kube-dns")),
    )
    .unwrap();
    assert!(!fetched.was_cached);
    assert_eq!(fetched.value.name, "kube-dns");
    let missing = get_resource_outcome(
        "v1",
        "Service",
        "gone",
        &Some("kube-system".to_string()),
        None,
    );
    assert!(matches!(missing, Err(KubeError::ObjectNotFound { .. })));
}

#[test]
fn can_i_requires_a_status() {
    let granted = can_i_outcome(Some(SubjectAccessReviewStatus {
        allowed: true,
        denied: false,
        reason: None,
    }))
    .unwrap();
    assert!(!granted.was_cached);
    assert!(granted.value.allowed);
    assert!(matches!(
        can_i_outcome(None),
        Err(KubeError::EmptySubjectAccessReviewResponse)
    ));
}

#[test]
fn error_messages_name_what_failed() {
    assert_eq!(
        KubeError::ClientNotInitialized.message(),
        "kube::Client was not initialized properly"
    );
    let not_found = KubeError::ResourceNotFound {
        api_version: "v1".to_string(),
        kind: "Gizmo".to_string(),
    };
    assert_eq!(not_found.message(), "Cannot find resource v1/Gizmo");
    let cluster_wide = KubeError::ClusterWide {
        api_version: "v1".to_string(),
        kind: "Node".to_string(),
    };
    assert_eq!(
        cluster_wide.message(),
        "resource v1/Node is cluster wide. Cannot search for it inside of a namespace"
    );
    let object = KubeError::ObjectNotFound {
        api_version: "v1".to_string(),
        kind: "Service".to_string(),
        name: "kube-dns".to_string(),
        namespace: Some("kube-system".to_string()),
    };
    assert_eq!(
        object.message(),
        "Cannot find v1/Service named 'kube-dns' inside of namespace 'kube-system'"
    );
}
