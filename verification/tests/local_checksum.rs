use kubewarden::verify::{verify_local_file_checksum, ManifestLayer, VerifyError};

const WASM_MEDIA_TYPE: &str = "application/vnd.wasm.content.layer.v1+wasm";

fn wasm_layer(digest: &str) -> ManifestLayer {
    ManifestLayer {
        media_type: WASM_MEDIA_TYPE.to_string(),
        digest: digest.to_string(),
    }
}

fn config_layer() -> ManifestLayer {
    ManifestLayer {
        media_type: "application/vnd.oci.image.config.v1+json".to_string(),
        digest: "sha256:ffff".to_string(),
    }
}

#[test]
fn matching_checksum_passes() {
    let layers = vec![config_layer(), wasm_layer("sha256:abcdef0123")];
    assert!(verify_local_file_checksum(&layers, "abcdef0123").is_ok());
}

#[test]
fn mismatching_checksum_is_reported_with_both_digests() {
    let layers = vec![wasm_layer("sha256:expected111")];
    let err = verify_local_file_checksum(&layers, "got000");
    assert!(matches!(
        err,
        Err(VerifyError::ChecksumVerificationError(msg))
            if msg == "The digest of the local file doesn't match with the one reported inside of the signed manifest. Got got000 instead of expected111"
    ));
}

#[test]
fn exactly_one_wasm_layer_is_required() {
    let none = vec![config_layer()];
    let err = verify_local_file_checksum(&none, "abc");
    assert!(matches!(
        err,
        Err(VerifyError::ChecksumVerificationError(msg))
            if msg == "Cannot verify local file integrity, the remote manifest doesn't have only one WASM layer"
    ));

    let two = vec![wasm_layer("sha256:a"), wasm_layer("sha256:b")];
    assert!(verify_local_file_checksum(&two, "a").is_err());
}

#[test]
fn non_sha256_digests_are_refused() {
    let layers = vec![wasm_layer("sha512:abcdef")];
    let err = verify_local_file_checksum(&layers, "abcdef");
    assert!(matches!(
        err,
        Err(VerifyError::ChecksumVerificationError(msg))
            if msg == "The checksum inside of the remote manifest is not using the sha256 hashing algorithm as expected."
    ));
}
