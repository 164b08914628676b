use kubewarden::verify::{
    verify_signatures_against_config, AnyOf, CertificateSubject, LatestVerificationConfig,
    Signature, Subject, TrustedLayer, VerifyError,
};

fn generic_issuer(issuer: &str, subject_str: &str) -> Signature {
    let subject = Subject::Equal(subject_str.to_string());
    Signature::GenericIssuer {
        issuer: issuer.to_string(),
        subject,
        annotations: None,
    }
}

fn signature_layer(issuer: &str, subject_str: &str) -> TrustedLayer {
    TrustedLayer {
        certificate_issuer: Some(issuer.to_string()),
        certificate_subject: Some(CertificateSubject::Email(subject_str.to_string())),
        public_key: None,
        certificate: None,
        annotations: Vec::new(),
    }
}

#[test]
fn test_verify_config() {
    // build verification config:
    let signatures_all_of: Vec<Signature> = vec![generic_issuer(
        "https://github.com/login/oauth",
        "user1@provider.com",
    )];
    let signatures_any_of: Vec<Signature> = vec![generic_issuer(
        "https://github.com/login/oauth",
        "user2@provider.com",
    )];
    let verification_config = LatestVerificationConfig {
        all_of: Some(signatures_all_of),
        any_of: Some(AnyOf {
            minimum_matches: 1,
            signatures: signatures_any_of,
        }),
    };

    // build trusted layers:
    let trusted_layers: Vec<TrustedLayer> = vec![
        signature_layer("https://github.com/login/oauth", "user1@provider.com"),
        signature_layer("https://github.com/login/oauth", "user2@provider.com"),
    ];

    assert!(verify_signatures_against_config(&verification_config, &trusted_layers).is_ok());
}

#[test]
fn test_verify_config_missing_both_any_of_all_of() {
    // build verification config:
    let verification_config = LatestVerificationConfig {
        all_of: None,
        any_of: None,
    };

    // build trusted layers:
    let trusted_layers: Vec<TrustedLayer> = vec![signature_layer(
        "https://github.com/login/oauth",
        "user-unrelated@provider.com",
    )];

    let error = verify_signatures_against_config(&verification_config, &trusted_layers);
    let expected_msg = "Image verification failed: no signatures to verify";
    assert!(
        matches!(error, Err(VerifyError::ImageVerificationError(msg)) if msg == expected_msg)
    );
}

#[test]
fn test_verify_config_not_matching_all_of() {
    // build verification config:
    let signatures_all_of: Vec<Signature> = vec![generic_issuer(
        "https://github.com/login/oauth",
        "user1@provider.com",
    )];
    let verification_config = LatestVerificationConfig {
        all_of: Some(signatures_all_of),
        any_of: None,
    };

    // build trusted layers:
    let trusted_layers: Vec<TrustedLayer> = vec![signature_layer(
        "https://github.com/login/oauth",
        "user-unrelated@provider.com",
    )];

    let error = verify_signatures_against_config(&verification_config, &trusted_layers);
    assert!(error.is_err());
    let expected_msg = r#"Image verification failed: missing signatures
The following constraints were not satisfied:
kind: genericIssuer
issuer: https://github.com/login/oauth
subject: !equal user1@provider.com
annotations: null
"#;
    assert!(
        matches!(error, Err(VerifyError::ImageVerificationError(msg)) if msg == expected_msg)
    );
}

#[test]
fn test_verify_config_missing_signatures_all_of() {
    // build verification config:
    let signatures_all_of: Vec<Signature> = vec![
        generic_issuer("https://github.com/login/oauth", "user1@provider.com"),
        generic_issuer("https://github.com/login/oauth", "user2@provider.com"),
        generic_issuer("https://github.com/login/oauth", "user3@provider.com"),
    ];
    let verification_config = LatestVerificationConfig {
        all_of: Some(signatures_all_of),
        any_of: None,
    };

    // build trusted layers:
    let trusted_layers: Vec<TrustedLayer> = vec![
        signature_layer("https://github.com/login/oauth", "user1@provider.com"),
        signature_layer("https://github.com/login/oauth", "user2@provider.com"),
    ];

    let error = verify_signatures_against_config(&verification_config, &trusted_layers);
    assert!(error.is_err());
    let expected_msg = r#"Image verification failed: missing signatures
The following constraints were not satisfied:
kind: genericIssuer
issuer: https://github.com/login/oauth
subject: !equal user3@provider.com
annotations: null
"#;
    assert!(
        matches!(error, Err(VerifyError::ImageVerificationError(msg)) if msg == expected_msg)
    );
}

#[test]
fn test_verify_config_missing_signatures_any_of() {
    // build verification config:
    let signatures_any_of: Vec<Signature> = vec![
        generic_issuer("https://github.com/login/oauth", "user1@provider.com"),
        generic_issuer("https://github.com/login/oauth", "user2@provider.com"),
        generic_issuer("https://github.com/login/oauth", "user3@provider.com"),
    ];
    let verification_config = LatestVerificationConfig {
        all_of: None,
        any_of: Some(AnyOf {
            minimum_matches: 2,
            signatures: signatures_any_of,
        }),
    };

    // build trusted layers:
    let trusted_layers: Vec<TrustedLayer> = vec![signature_layer(
        "https://github.com/login/oauth",
        "user1@provider.com",
    )];

    let error = verify_signatures_against_config(&verification_config, &trusted_layers);
    let expected_msg = r#"Image verification failed: minimum number of signatures not reached: needed 2, got 1
The following constraints were not satisfied:
kind: genericIssuer
issuer: https://github.com/login/oauth
subject: !equal user2@provider.com
annotations: null
kind: genericIssuer
issuer: https://github.com/login/oauth
subject: !equal user3@provider.com
annotations: null
"#;
    assert!(
        matches!(error, Err(VerifyError::ImageVerificationError(msg)) if msg == expected_msg)
    );
}

#[test]
fn test_verify_config_quorum_signatures_any_of() {
    // build verification config:
    let signatures_any_of: Vec<Signature> = vec![
        generic_issuer("https://github.com/login/oauth", "user1@provider.com"),
        generic_issuer("https://github.com/login/oauth", "user2@provider.com"),
        generic_issuer("https://github.com/login/oauth", "user3@provider.com"),
    ];
    let verification_config = LatestVerificationConfig {
        all_of: None,
        any_of: Some(AnyOf {
            minimum_matches: 2,
            signatures: signatures_any_of,
        }),
    };

    // build trusted layers:
    let trusted_layers: Vec<TrustedLayer> = vec![
        signature_layer("https://github.com/login/oauth", "user1@provider.com"),
        signature_layer("https://github.com/login/oauth", "user2@provider.com"),
    ];

    assert!(verify_signatures_against_config(&verification_config, &trusted_layers).is_ok());
}

#[test]
fn verify_returns_the_source_digest_on_success() {
    let config = LatestVerificationConfig {
        all_of: Some(vec![generic_issuer(
            "https://github.com/login/oauth",
            "user1@provider.com",
        )]),
        any_of: None,
    };
    let trusted_layers = vec![signature_layer(
        "https://github.com/login/oauth",
        "user1@provider.com",
    )];
    let digest = kubewarden::verify::verify(
        "sha256:5f481572d088dc4023afb35fced9530c".to_string(),
        &trusted_layers,
        &config,
    );
    assert_eq!(
        digest.unwrap(),
        "sha256:5f481572d088dc4023afb35fced9530c".to_string()
    );
}

#[test]
fn verify_url_prefix_subject() {
    let config = LatestVerificationConfig {
        all_of: Some(vec![Signature::GenericIssuer {
            issuer: "https://token.actions.githubusercontent.com".to_string(),
            subject: Subject::UrlPrefix("https://github.com/kubewarden/".to_string()),
            annotations: None,
        }]),
        any_of: None,
    };
    let layer = TrustedLayer {
        certificate_issuer: Some("https://token.actions.githubusercontent.com".to_string()),
        certificate_subject: Some(CertificateSubject::Uri(
            "https://github.com/kubewarden/policy-repo/.github/workflows/release.yml".to_string(),
        )),
        public_key: None,
        certificate: None,
        annotations: Vec::new(),
    };
    assert!(verify_signatures_against_config(&config, &vec![layer]).is_ok());
}

#[test]
fn verify_annotations_must_all_be_present() {
    let config = LatestVerificationConfig {
        all_of: Some(vec![Signature::GenericIssuer {
            issuer: "https://github.com/login/oauth".to_string(),
            subject: Subject::Equal("user1@provider.com".to_string()),
            annotations: Some(vec![("env".to_string(), "prod".to_string())]),
        }]),
        any_of: None,
    };
    let mut layer = signature_layer("https://github.com/login/oauth", "user1@provider.com");
    assert!(verify_signatures_against_config(&config, &vec![layer.clone()]).is_err());
    layer
        .annotations
        .push(("env".to_string(), "prod".to_string()));
    assert!(verify_signatures_against_config(&config, &vec![layer]).is_ok());
}
