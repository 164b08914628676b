use kubewarden::bus::CallbackRequestType;
use kubewarden::router::{family_of, route, CapabilityFamily, CapabilityGate, RoutingDecision};

fn dns_request() -> CallbackRequestType {
    CallbackRequestType::DnsLookupHost {
        host: "example.com".to_string(),
    }
}

fn oci_request() -> CallbackRequestType {
    CallbackRequestType::OciManifestDigest {
        image: "registry://r/img:v1".to_string(),
    }
}

#[test]
fn requests_are_grouped_into_families() {
    assert_eq!(family_of(&oci_request()), CapabilityFamily::Oci);
    assert_eq!(family_of(&dns_request()), CapabilityFamily::Dns);
    assert_eq!(
        family_of(&CallbackRequestType::KubernetesGetResourcePluralName {
            api_version: "v1".to_string(),
            kind: "Service".to_string(),
        }),
        CapabilityFamily::KubernetesRead
    );
    assert_eq!(
        family_of(&CallbackRequestType::SigstoreKeylessVerify {
            image: "registry://r/img:v1".to_string(),
            issuer: "https://github.com/login/oauth".to_string(),
            subject: "user1@provider.com".to_string(),
        }),
        CapabilityFamily::Sigstore
    );
}

#[test]
fn allowed_families_are_dispatched() {
    let gate = CapabilityGate::allow_all();
    assert_eq!(
        route(&gate, &dns_request()),
        RoutingDecision::Dispatch(CapabilityFamily::Dns)
    );
}

#[test]
fn gated_off_families_are_denied() {
    let mut gate = CapabilityGate::allow_all();
    gate.allow_dns = false;
    let decision = route(&gate, &dns_request());
    assert!(matches!(decision, RoutingDecision::Deny(_)));
    // other families stay reachable
    assert_eq!(
        route(&gate, &oci_request()),
        RoutingDecision::Dispatch(CapabilityFamily::Oci)
    );
}
