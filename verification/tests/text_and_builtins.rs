use kubewarden::builtins::{BuiltinError, BuiltinsHelper};
use kubewarden::text::{find_char, split_once, str_starts_with, strip_prefix, trim_start_matches, u64_to_string};

#[test]
fn decimal_rendering() {
    assert_eq!(u64_to_string(0), "0");
    assert_eq!(u64_to_string(7), "7");
    assert_eq!(u64_to_string(42), "42");
    assert_eq!(u64_to_string(1006), "1006");
    assert_eq!(u64_to_string(u64::MAX), "18446744073709551615");
}

#[test]
fn prefix_handling() {
    assert!(str_starts_with("sha256:abcd", "sha256:"));
    assert!(!str_starts_with("sha1:abcd", "sha256:"));
    assert_eq!(strip_prefix("sha256:abcd", "sha256:").unwrap(), "abcd");
    assert!(strip_prefix("abcd", "sha256:").is_none());
    assert_eq!(
        trim_start_matches("io.kubewarden.policy.io.kubewarden.policy.x", "io.kubewarden.policy."),
        "x"
    );
}

#[test]
fn splitting_api_versions() {
    let (group, version) = split_once("apps/v1", '/').unwrap();
    assert_eq!(group, "apps");
    assert_eq!(version, "v1");
    assert!(split_once("v1", '/').is_none());
    assert_eq!(find_char("a/b/c", '/').unwrap(), 1);
}

#[test]
fn builtins_resolve_by_name() {
    let helper = BuiltinsHelper::new(vec![
        "sprintf".to_string(),
        "urlquery.encode".to_string(),
    ]);
    assert_eq!(helper.resolve("sprintf").unwrap(), 0);
    assert_eq!(helper.resolve("urlquery.encode").unwrap(), 1);
    assert!(helper.has_builtin("sprintf"));
    assert!(!helper.has_builtin("json.marshal"));
    let err = helper.resolve("json.marshal");
    assert!(matches!(
        err,
        Err(BuiltinError::BuiltinNotImplementedError(name)) if name == "json.marshal"
    ));
}
