use kubewarden::bus::{request_key, CallbackRequestType, CallbackResponse};
use kubewarden::proxy::{proxy_handle, Journal, ProxyError, ProxyMode};

fn oci_manifest_request() -> CallbackRequestType {
    CallbackRequestType::OciManifest {
        image: "registry://r/img:v1".to_string(),
    }
}

#[test]
fn record_then_replay_is_bit_identical() {
    let record_mode = ProxyMode::Record {
        destination: "session.journal".to_string(),
    };
    let mut journal = Journal::new();
    let manifest_bytes: Vec<u8> = b"{\"schemaVersion\":2,\"layers\":[]}".to_vec();

    // record mode: the registry answered, and the reply is persisted
    let recorded = proxy_handle(
        &record_mode,
        &mut journal,
        &oci_manifest_request(),
        Some(CallbackResponse {
            payload: manifest_bytes.clone(),
        }),
    )
    .unwrap();
    assert_eq!(recorded.payload, manifest_bytes);

    // replay mode with the registry unreachable: the journal alone answers,
    // bit for bit
    let replay_mode = ProxyMode::Replay {
        source: "session.journal".to_string(),
    };
    let replayed = proxy_handle(&replay_mode, &mut journal, &oci_manifest_request(), None).unwrap();
    assert_eq!(replayed.payload, manifest_bytes);
}

#[test]
fn replay_miss_is_a_deterministic_error() {
    let replay_mode = ProxyMode::Replay {
        source: "session.journal".to_string(),
    };
    let mut journal = Journal::new();
    let r = proxy_handle(&replay_mode, &mut journal, &oci_manifest_request(), None);
    assert!(matches!(r, Err(ProxyError::ReplayCacheMiss(_))));
}

#[test]
fn direct_mode_leaves_the_journal_alone() {
    let mut journal = Journal::new();
    let reply = proxy_handle(
        &ProxyMode::Direct,
        &mut journal,
        &oci_manifest_request(),
        Some(CallbackResponse {
            payload: vec![1, 2, 3],
        }),
    )
    .unwrap();
    assert_eq!(reply.payload, vec![1, 2, 3]);
    let replay_mode = ProxyMode::Replay {
        source: "session.journal".to_string(),
    };
    assert!(proxy_handle(&replay_mode, &mut journal, &oci_manifest_request(), None).is_err());
}

#[test]
fn recording_again_overwrites_the_reply() {
    let mut journal = Journal::new();
    let key = request_key(&oci_manifest_request());
    journal.record(&key, vec![1]);
    journal.record(&key, vec![2]);
    assert_eq!(journal.replay(&key).unwrap(), vec![2]);
}

#[test]
fn canonical_request_keys_are_stable() {
    assert_eq!(
        request_key(&oci_manifest_request()),
        "oci-manifest/19:registry://r/img:v1;"
    );
    let list = CallbackRequestType::KubernetesListResourceAll {
        api_version: "v1".to_string(),
        kind: "Service".to_string(),
        label_selector: None,
        field_selector: Some("metadata.name=kube-dns".to_string()),
    };
    assert_eq!(
        request_key(&list),
        "kube-list-all/2:v1;7:Service;-;+22:metadata.name=kube-dns;"
    );
}
