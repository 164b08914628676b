use kubewarden::inspect::{
    annotation_value, usage_annotation, InspectError, MetadataPrinter, OutputType,
    SignaturesPrinter,
};
use kubewarden::metadata::Metadata;
use kubewarden::policies::{policy_list, policy_table_row, PolicyStore, StoredPolicy};

#[test]
fn output_type_parsing() {
    assert_eq!(OutputType::try_from(None).unwrap(), OutputType::Pretty);
    assert_eq!(OutputType::try_from(Some("yaml")).unwrap(), OutputType::Yaml);
    let err = OutputType::try_from(Some("toml"));
    assert!(matches!(
        err,
        Err(InspectError::InvalidOutputFormat(f)) if f == "toml"
    ));
}

#[test]
fn printers_follow_the_output_type() {
    assert_eq!(
        MetadataPrinter::from(&OutputType::Yaml),
        MetadataPrinter::Yaml
    );
    assert_eq!(
        MetadataPrinter::from(&OutputType::Pretty),
        MetadataPrinter::Pretty
    );
    assert_eq!(
        SignaturesPrinter::from(&OutputType::Yaml),
        SignaturesPrinter::Yaml
    );
    assert_eq!(
        SignaturesPrinter::from(&OutputType::Pretty),
        SignaturesPrinter::Pretty
    );
}

#[test]
fn annotation_row_keys_drop_the_well_known_prefix() {
    let printer = MetadataPrinter::Pretty;
    assert_eq!(
        printer.annotation_to_row_key("io.kubewarden.policy.title"),
        "title:"
    );
    assert_eq!(printer.annotation_to_row_key("custom.annotation"), "custom.annotation:");
}

#[test]
fn annotations_are_looked_up_by_key() {
    let metadata = Metadata {
        annotations: Some(vec![
            (
                "io.kubewarden.policy.title".to_string(),
                "psp-capabilities".to_string(),
            ),
            (
                "io.kubewarden.policy.usage".to_string(),
                "# How to use it".to_string(),
            ),
        ]),
        ..Default::default()
    };
    assert_eq!(
        annotation_value(&metadata, "io.kubewarden.policy.title").unwrap(),
        "psp-capabilities"
    );
    assert!(annotation_value(&metadata, "io.kubewarden.policy.license").is_none());
    assert_eq!(usage_annotation(&metadata).unwrap(), "# How to use it");

    let bare = Metadata::default();
    assert!(usage_annotation(&bare).is_none());
}

#[test]
fn policy_rows_show_digest_and_size() {
    let store = PolicyStore {
        policies: vec![StoredPolicy {
            uri: "registry://host/policy:v1".to_string(),
            wasm: Vec::new(),
        }],
    };
    let policies = policy_list(&store);
    assert_eq!(policies.len(), 1);

    // SHA-256 of the empty byte string, truncated to twelve characters
    let row = policy_table_row(&policies[0], &None);
    assert_eq!(row.policy, "registry://host/policy:v1");
    assert_eq!(row.mutating, "unknown");
    assert_eq!(row.context_aware, "no");
    assert_eq!(row.sha256sum, "e3b0c44298fc");
    assert_eq!(row.size, "0 B");
}

#[test]
fn policy_rows_follow_the_metadata() {
    let policy = StoredPolicy {
        uri: "registry://host/policy:v1".to_string(),
        wasm: vec![0; 1500],
    };
    let metadata = Metadata {
        mutating: true,
        context_aware_resources: vec![kubewarden::metadata::ContextAwareResource {
            api_version: "v1".to_string(),
            kind: "Service".to_string(),
        }],
        ..Default::default()
    };
    let row = policy_table_row(&policy, &Some(metadata));
    assert_eq!(row.mutating, "yes");
    assert_eq!(row.context_aware, "yes");
    assert_eq!(row.size, "1.50 kB");
}
