use kubewarden::evaluator::{
    request_selected_by_rules, settings_validation_outcome, short_circuit_allow, Rule,
    SettingsValidationResponse,
};

fn pod_rule() -> Rule {
    Rule {
        api_versions: vec!["v1".to_string()],
        kinds: vec!["Pod".to_string()],
        operations: vec!["CREATE".to_string(), "UPDATE".to_string()],
    }
}

#[test]
fn unmatched_requests_are_short_circuited_to_allow() {
    let rules = vec![pod_rule()];
    // a Service request is not selected by a Pod rule: the guest never runs
    assert!(!request_selected_by_rules(&rules, "v1", "Service", "CREATE"));
    let response = short_circuit_allow("uid-9".to_string());
    assert!(response.allowed);
    assert_eq!(response.uid, "uid-9");
    assert!(response.message.is_none());
}

#[test]
fn matched_requests_reach_the_guest() {
    let rules = vec![pod_rule()];
    assert!(request_selected_by_rules(&rules, "v1", "Pod", "CREATE"));
    assert!(request_selected_by_rules(&rules, "v1", "Pod", "UPDATE"));
    assert!(!request_selected_by_rules(&rules, "v1", "Pod", "DELETE"));
}

#[test]
fn wildcards_select_everything() {
    let rules = vec![Rule {
        api_versions: vec!["*".to_string()],
        kinds: vec!["*".to_string()],
        operations: vec!["*".to_string()],
    }];
    assert!(request_selected_by_rules(&rules, "apps/v1", "Deployment", "DELETE"));
}

#[test]
fn empty_rules_select_nothing() {
    let rules: Vec<Rule> = Vec::new();
    assert!(!request_selected_by_rules(&rules, "v1", "Pod", "CREATE"));
}

#[test]
fn settings_validation_aborts_the_load_on_rejection() {
    assert!(settings_validation_outcome(SettingsValidationResponse {
        valid: true,
        message: None,
    })
    .is_ok());
    let err = settings_validation_outcome(SettingsValidationResponse {
        valid: false,
        message: Some("minimum_replicas must be positive".to_string()),
    });
    assert_eq!(err.unwrap_err(), "minimum_replicas must be positive");
    let default_err = settings_validation_outcome(SettingsValidationResponse {
        valid: false,
        message: None,
    });
    assert_eq!(default_err.unwrap_err(), "the settings are invalid");
}
