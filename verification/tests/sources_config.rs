use kubewarden::sources::{
    client_protocol, extra_root_certificates, Certificate, ClientProtocolChoice, RawCertificate,
    SourceAuthorities, SourceError, Sources,
};

// spellchecker:off
const CERT_DATA: &str = r#"-----BEGIN CERTIFICATE-----
MIICUTCCAfugAwIBAgIBADANBgkqhkiG9w0BAQQFADBXMQswCQYDVQQGEwJDTjEL
MAkGA1UECBMCUE4xCzAJBgNVBAcTAkNOMQswCQYDVQQKEwJPTjELMAkGA1UECxMC
VU4xFDASBgNVBAMTC0hlcm9uZyBZYW5nMB4XDTA1MDcxNTIxMTk0N1oXDTA1MDgx
NDIxMTk0N1owVzELMAkGA1UEBhMCQ04xCzAJBgNVBAgTAlBOMQswCQYDVQQHEwJD
TjELMAkGA1UEChMCT04xCzAJBgNVBAsTAlVOMRQwEgYDVQQDEwtIZXJvbmcgWWFu
ZzBcMA0GCSqGSIb3DQEBAQUAA0sAMEgCQQCp5hnG7ogBhtlynpOS21cBewKE/B7j
V14qeyslnr26xZUsSVko36ZnhiaO/zbMOoRcKK9vEcgMtcLFuQTWDl3RAgMBAAGj
gbEwga4wHQYDVR0OBBYEFFXI70krXeQDxZgbaCQoR4jUDncEMH8GA1UdIwR4MHaA
FFXI70krXeQDxZgbaCQoR4jUDncEoVukWTBXMQswCQYDVQQGEwJDTjELMAkGA1UE
CBMCUE4xCzAJBgNVBAcTAkNOMQswCQYDVQQKEwJPTjELMAkGA1UECxMCVU4xFDAS
BgNVBAMTC0hlcm9uZyBZYW5nggEAMAwGA1UdEwQFMAMBAf8wDQYJKoZIhvcNAQEE
BQADQQA/ugzBrjjK9jcWnDVfGHlk3icNRq0oV7Ri32z/+HQX67aRfgZu7KWdI+Ju
Wm7DCfrPNGVwFWUQOmsPue9rZBgO
-----END CERTIFICATE-----
"#;
// spellchecker:on

#[test]
fn test_raw_source_authorities_to_source_authority() {
    let expected_cert = Certificate::Pem(CERT_DATA.into());

    let raw: Vec<(String, Vec<RawCertificate>)> = vec![(
        "foo.com".to_string(),
        vec![
            RawCertificate(CERT_DATA.into()),
            RawCertificate(CERT_DATA.into()),
        ],
    )];

    let actual = SourceAuthorities::from_raw(raw);
    assert!(actual.is_ok(), "Got an unexpected error: {:?}", actual);

    let actual_map = actual.unwrap();
    assert_eq!(actual_map.0.len(), 1);
    assert_eq!(actual_map.0[0].0, "foo.com");
    let actual_certs = &actual_map.0[0].1;
    assert_eq!(actual_certs.len(), 2);
    for actual_cert in actual_certs {
        assert_eq!(actual_cert, &expected_cert);
    }
}

#[test]
fn pem_certificates_are_recognised() {
    let cert = Certificate::try_from_raw(RawCertificate(CERT_DATA.into())).unwrap();
    assert!(matches!(cert, Certificate::Pem(_)));
    // a PEM certificate decodes to its DER contents
    let der = cert.der_bytes().unwrap();
    assert!(!der.is_empty());
    // the decoded contents are themselves a DER certificate
    let reparsed = Certificate::try_from_raw(RawCertificate(der)).unwrap();
    assert!(matches!(reparsed, Certificate::Der(_)));
}

#[test]
fn garbage_is_neither_pem_nor_der() {
    let r = Certificate::try_from_raw(RawCertificate(b"hello world".to_vec()));
    assert!(matches!(
        r,
        Err(SourceError::InvalidCertificateError(msg))
            if msg == "Raw certificate is not in PEM nor in DER encoding"
    ));
}

#[test]
fn insecure_sources_are_looked_up_by_host() {
    let sources = Sources {
        insecure_sources: vec!["registry.local".to_string()],
        source_authorities: SourceAuthorities(Vec::new()),
    };
    assert!(sources.is_insecure_source("registry.local"));
    assert!(!sources.is_insecure_source("ghcr.io"));
    assert!(sources.source_authority("ghcr.io").is_none());
}

#[test]
fn client_protocol_follows_the_insecure_list() {
    let secure = Sources {
        insecure_sources: Vec::new(),
        source_authorities: SourceAuthorities(Vec::new()),
    };
    assert_eq!(client_protocol(&secure), ClientProtocolChoice::Https);

    let relaxed = Sources {
        insecure_sources: vec!["registry.local".to_string()],
        source_authorities: SourceAuthorities(Vec::new()),
    };
    assert_eq!(
        client_protocol(&relaxed),
        ClientProtocolChoice::HttpsExcept(vec!["registry.local".to_string()])
    );
}

#[test]
fn extra_root_certificates_flatten_every_host() {
    let sources = Sources {
        insecure_sources: Vec::new(),
        source_authorities: SourceAuthorities(vec![
            ("a.com".to_string(), vec![Certificate::Der(vec![1])]),
            (
                "b.com".to_string(),
                vec![Certificate::Der(vec![2]), Certificate::Pem(vec![3])],
            ),
        ]),
    };
    let flat = extra_root_certificates(&sources);
    assert_eq!(
        flat,
        vec![
            Certificate::Der(vec![1]),
            Certificate::Der(vec![2]),
            Certificate::Pem(vec![3]),
        ]
    );
}

#[test]
fn one_invalid_certificate_fails_the_whole_map() {
    let raw: Vec<(String, Vec<RawCertificate>)> = vec![(
        "foo.com".to_string(),
        vec![
            RawCertificate(CERT_DATA.into()),
            RawCertificate(b"not a certificate".to_vec()),
        ],
    )];
    let actual = SourceAuthorities::from_raw(raw);
    assert!(matches!(
        actual,
        Err(SourceError::InvalidCertificateError(msg))
            if msg == "Raw certificate is not in PEM nor in DER encoding"
    ));
}
