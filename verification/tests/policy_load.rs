use kubewarden::evaluator::PolicyExecutionMode;
use kubewarden::metadata::{Metadata, ProtocolVersion};
use kubewarden::precompile::{
    has_minimum_kubewarden_version, has_valid_protocol_version, LoadError, PrecompiledPolicies,
    PrecompiledPolicy,
};
use kubewarden::version::Version;

fn running_version() -> Version {
    Version { major: 1, minor: 6, patch: 0 }
}

fn metadata_with_minimum(major: u64, minor: u64, patch: u64) -> Metadata {
    Metadata {
        minimum_kubewarden_version: Some(Version { major, minor, patch }),
        ..Default::default()
    }
}

#[test]
fn no_minimum_kubewarden_version_is_valid_test() {
    let metadata = Metadata {
        minimum_kubewarden_version: None,
        ..Default::default()
    };
    assert!(has_minimum_kubewarden_version(&metadata, &running_version()).is_ok())
}

#[test]
fn recent_kubewarden_versions_are_valid() {
    // one major below, and one minor below: both satisfied
    assert!(has_minimum_kubewarden_version(&metadata_with_minimum(0, 6, 0), &running_version()).is_ok());
    assert!(has_minimum_kubewarden_version(&metadata_with_minimum(1, 5, 0), &running_version()).is_ok());
    assert!(has_minimum_kubewarden_version(&metadata_with_minimum(1, 6, 0), &running_version()).is_ok());
}

#[test]
fn old_kubewarden_versions_are_rejected() {
    assert!(has_minimum_kubewarden_version(&metadata_with_minimum(2, 6, 0), &running_version()).is_err());
    assert!(has_minimum_kubewarden_version(&metadata_with_minimum(1, 7, 0), &running_version()).is_err());
}

#[test]
fn ignore_patch_version() {
    // a higher patch demand is still satisfied: patch plays no part
    assert!(has_minimum_kubewarden_version(&metadata_with_minimum(1, 6, 1), &running_version()).is_ok());
}

#[test]
fn version_rejection_reports_sanitized_versions() {
    let err = has_minimum_kubewarden_version(&metadata_with_minimum(2, 1, 9), &running_version())
        .unwrap_err();
    assert_eq!(
        err,
        LoadError::MinimumVersionNotSatisfied {
            required: Version { major: 2, minor: 1, patch: 0 },
            running: Version { major: 1, minor: 6, patch: 0 },
        }
    );
    assert_eq!(
        err.message(),
        "Policy required Kubewarden version 2.1.0 but is running on 1.6.0"
    );
}

#[test]
fn validate_protocol_version() {
    let valid = Metadata {
        execution_mode: PolicyExecutionMode::KubewardenWapc,
        protocol_version: Some(ProtocolVersion::V1),
        ..Default::default()
    };
    assert!(has_valid_protocol_version(&valid).is_ok());

    let unknown = Metadata {
        execution_mode: PolicyExecutionMode::KubewardenWapc,
        protocol_version: Some(ProtocolVersion::Unknown),
        ..Default::default()
    };
    assert!(has_valid_protocol_version(&unknown).is_err());

    let opa = Metadata {
        execution_mode: PolicyExecutionMode::Opa,
        protocol_version: Some(ProtocolVersion::Unknown),
        ..Default::default()
    };
    assert!(has_valid_protocol_version(&opa).is_ok());

    let missing = Metadata {
        execution_mode: PolicyExecutionMode::KubewardenWapc,
        protocol_version: None,
        ..Default::default()
    };
    assert!(matches!(
        has_valid_protocol_version(&missing),
        Err(LoadError::MissingProtocolVersion)
    ));
}

#[test]
fn precompile_digests_the_artifact() {
    // the smallest well-formed module: magic plus version
    let wasm: Vec<u8> = vec![0x00, 0x61, 0x73, 0x6d, 0x01, 0x00, 0x00, 0x00];
    let engine = wasmtime::Engine::default();
    let metadata = Metadata {
        execution_mode: PolicyExecutionMode::Opa,
        ..Default::default()
    };
    let policy = PrecompiledPolicy::new(&engine, &wasm, Some(metadata), &running_version())
        .expect("precompilation should succeed");
    assert_eq!(policy.execution_mode, PolicyExecutionMode::Opa);
    assert_eq!(policy.digest.len(), 64);

    // the digest is the SHA-256 of the compiled artifact's bytes
    let mut by_hand = kubewarden::policies::PolicyStore { policies: Vec::new() };
    by_hand.policies.push(kubewarden::policies::StoredPolicy {
        uri: "registry://example/policy:v1".to_string(),
        wasm: policy.precompiled_module.clone(),
    });
    assert_eq!(by_hand.policies[0].digest(), policy.digest);
}

#[test]
fn precompile_refuses_an_old_platform() {
    let wasm: Vec<u8> = vec![0x00, 0x61, 0x73, 0x6d, 0x01, 0x00, 0x00, 0x00];
    let engine = wasmtime::Engine::default();
    let metadata = Metadata {
        execution_mode: PolicyExecutionMode::Opa,
        minimum_kubewarden_version: Some(Version { major: 9, minor: 0, patch: 0 }),
        ..Default::default()
    };
    let outcome = PrecompiledPolicy::new(&engine, &wasm, Some(metadata), &running_version());
    assert!(matches!(
        outcome,
        Err(LoadError::MinimumVersionNotSatisfied { .. })
    ));
}

#[test]
fn precompile_without_metadata_misses_a_protocol_version() {
    let wasm: Vec<u8> = vec![0x00, 0x61, 0x73, 0x6d, 0x01, 0x00, 0x00, 0x00];
    let engine = wasmtime::Engine::default();
    let outcome = PrecompiledPolicy::new(&engine, &wasm, None, &running_version());
    assert!(matches!(outcome, Err(LoadError::MissingProtocolVersion)));
}

#[test]
fn load_outcomes_are_stored_per_policy_url() {
    let mut outcomes = PrecompiledPolicies::new();
    outcomes.insert(
        "registry://host/good:v1",
        Err(LoadError::MissingProtocolVersion),
    );
    let wasm: Vec<u8> = vec![0x00, 0x61, 0x73, 0x6d, 0x01, 0x00, 0x00, 0x00];
    let engine = wasmtime::Engine::default();
    let metadata = Metadata {
        execution_mode: PolicyExecutionMode::Opa,
        ..Default::default()
    };
    let policy =
        PrecompiledPolicy::new(&engine, &wasm, Some(metadata), &running_version()).unwrap();
    outcomes.insert("registry://host/other:v2", Ok(policy));

    // one failed load does not hide the other policy's outcome
    assert!(matches!(
        outcomes.get("registry://host/good:v1"),
        Some(Err(LoadError::MissingProtocolVersion))
    ));
    assert!(matches!(
        outcomes.get("registry://host/other:v2"),
        Some(Ok(_))
    ));
    assert!(outcomes.get("registry://host/unseen:v1").is_none());
}
