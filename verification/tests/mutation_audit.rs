use kubewarden::evaluator::{audit_mutation, normalize_guest_outcome, AdmissionResponse, GuestOutcome};

fn allowed_response_with_patch() -> AdmissionResponse {
    AdmissionResponse {
        uid: "uid-1".to_string(),
        allowed: true,
        message: None,
        code: None,
        patch: Some("W3sib3AiOiJhZGQifV0=".to_string()),
        patch_type: Some("JSONPatch".to_string()),
        warnings: Vec::new(),
    }
}

#[test]
fn mutation_audit_rejects_patches_from_non_mutating_policies() {
    // metadata says mutating=false, the guest still returned a patch:
    // the evaluator answers with a deny of the mutation-not-allowed kind,
    // and the server keeps running
    let audited = audit_mutation(false, allowed_response_with_patch());
    assert!(!audited.allowed);
    assert!(audited.patch.is_none());
    assert!(audited.patch_type.is_none());
    assert_eq!(audited.code, Some(500));
    assert!(audited.message.unwrap().starts_with("mutation-not-allowed"));
    assert_eq!(audited.uid, "uid-1");
}

#[test]
fn mutation_audit_passes_mutating_policies_through() {
    let audited = audit_mutation(true, allowed_response_with_patch());
    assert!(audited.allowed);
    assert_eq!(audited.patch, Some("W3sib3AiOiJhZGQifV0=".to_string()));
}

#[test]
fn mutation_audit_leaves_plain_answers_alone() {
    let response = AdmissionResponse {
        uid: "uid-2".to_string(),
        allowed: false,
        message: Some("denied".to_string()),
        code: Some(400),
        patch: None,
        patch_type: None,
        warnings: vec!["careful".to_string()],
    };
    let audited = audit_mutation(false, response);
    assert!(!audited.allowed);
    assert_eq!(audited.message, Some("denied".to_string()));
    assert_eq!(audited.code, Some(400));
}

#[test]
fn a_guest_trap_becomes_a_deny_and_the_server_keeps_running() {
    let denied = normalize_guest_outcome(
        "uid-3".to_string(),
        false,
        GuestOutcome::Trap("wasm trap: out of bounds memory access".to_string()),
    );
    assert!(!denied.allowed);
    assert_eq!(denied.uid, "uid-3");
    assert_eq!(denied.code, Some(500));
    assert_eq!(
        denied.message,
        Some("guest execution failed: wasm trap: out of bounds memory access".to_string())
    );

    // a healthy response flows through the same gate
    let passed = normalize_guest_outcome(
        "uid-1".to_string(),
        true,
        GuestOutcome::Response(allowed_response_with_patch()),
    );
    assert!(passed.allowed);
}
