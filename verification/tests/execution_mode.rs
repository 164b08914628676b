use kubewarden::evaluator::{PolicyExecutionMode, RegoPolicyExecutionMode, Runtime};

#[test]
fn serialize_policy_execution_mode() {
    let test_data: Vec<(String, PolicyExecutionMode)> = vec![
        (
            serde_json::to_string("kubewarden-wapc").unwrap(),
            PolicyExecutionMode::KubewardenWapc,
        ),
        (
            serde_json::to_string("opa").unwrap(),
            PolicyExecutionMode::Opa,
        ),
        (
            serde_json::to_string("gatekeeper").unwrap(),
            PolicyExecutionMode::OpaGatekeeper,
        ),
    ];

    for (expected, mode) in &test_data {
        let actual = mode.to_json_string();
        assert_eq!(expected, &actual);
    }
}

#[test]
fn deserialize_policy_execution_mode() {
    let test_data: Vec<(String, PolicyExecutionMode)> = vec![
        (
            serde_json::to_string("kubewarden-wapc").unwrap(),
            PolicyExecutionMode::KubewardenWapc,
        ),
        (
            serde_json::to_string("opa").unwrap(),
            PolicyExecutionMode::Opa,
        ),
        (
            serde_json::to_string("gatekeeper").unwrap(),
            PolicyExecutionMode::OpaGatekeeper,
        ),
    ];

    for (mode_str, expected) in &test_data {
        let actual = PolicyExecutionMode::from_json_str(mode_str);
        assert_eq!(*expected, actual.unwrap());
    }

    // an unknown policy mode should not be deserializable
    let actual = PolicyExecutionMode::from_json_str("hello world");
    assert!(actual.is_none());
}

#[test]
fn mode_names_match_the_wire_format() {
    assert_eq!(PolicyExecutionMode::KubewardenWapc.name(), "kubewarden-wapc");
    assert_eq!(PolicyExecutionMode::Opa.name(), "opa");
    assert_eq!(PolicyExecutionMode::OpaGatekeeper.name(), "gatekeeper");
    assert_eq!(PolicyExecutionMode::Wasi.name(), "wasi");
}

#[test]
fn rego_mode_conversion() {
    assert_eq!(
        RegoPolicyExecutionMode::try_from(PolicyExecutionMode::Opa).unwrap(),
        RegoPolicyExecutionMode::Opa
    );
    assert_eq!(
        RegoPolicyExecutionMode::try_from(PolicyExecutionMode::OpaGatekeeper).unwrap(),
        RegoPolicyExecutionMode::Gatekeeper
    );
    assert!(RegoPolicyExecutionMode::try_from(PolicyExecutionMode::KubewardenWapc).is_err());
    assert!(RegoPolicyExecutionMode::try_from(PolicyExecutionMode::Wasi).is_err());
}

#[test]
fn runtime_names() {
    assert_eq!(Runtime::Wapc.name(), "wapc");
    assert_eq!(Runtime::Rego(RegoPolicyExecutionMode::Opa).name(), "OPA");
    assert_eq!(
        Runtime::Rego(RegoPolicyExecutionMode::Gatekeeper).name(),
        "Gatekeeper"
    );
    assert_eq!(Runtime::Cli.name(), "wasi");
}
