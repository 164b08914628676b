use kubewarden::codec::{
    decode_bool, decode_object_list, decode_string, encode_bool, encode_object_list,
    encode_string, CodecError,
};
use kubewarden::kube::{KubeObject, KubeObjectList};

fn sample_list() -> KubeObjectList {
    KubeObjectList {
        api_version: "v1".to_string(),
        kind: "ServiceList".to_string(),
        items: vec![
            KubeObject {
                name: "kube-dns".to_string(),
                namespace: Some("kube-system".to_string()),
                data: vec![1, 2, 3],
            },
            KubeObject {
                name: "node-a".to_string(),
                namespace: None,
                data: Vec::new(),
            },
        ],
    }
}

#[test]
fn bool_payloads_round_trip() {
    assert_eq!(decode_bool(&encode_bool(true)).unwrap(), true);
    assert_eq!(decode_bool(&encode_bool(false)).unwrap(), false);
    assert_eq!(encode_bool(true), vec![1u8]);
    assert_eq!(encode_bool(false), vec![0u8]);
}

#[test]
fn bool_payloads_reject_other_bytes() {
    assert!(matches!(decode_bool(&vec![2u8]), Err(CodecError::BadTag)));
    assert!(matches!(decode_bool(&vec![]), Err(CodecError::Truncated)));
    assert!(matches!(
        decode_bool(&vec![1u8, 1u8]),
        Err(CodecError::Truncated)
    ));
}

#[test]
fn string_payloads_round_trip() {
    let bytes = encode_string("services");
    assert_eq!(bytes, b"services".to_vec());
    assert_eq!(decode_string(bytes).unwrap(), "services");
}

#[test]
fn string_payloads_reject_invalid_utf8() {
    assert!(decode_string(vec![0xff, 0xfe]).is_err());
}

#[test]
fn object_lists_round_trip() {
    let list = sample_list();
    let bytes = encode_object_list(&list);
    let decoded = decode_object_list(&bytes).unwrap();
    assert_eq!(decoded.api_version, list.api_version);
    assert_eq!(decoded.kind, list.kind);
    assert_eq!(decoded.items.len(), list.items.len());
    for (a, b) in decoded.items.iter().zip(list.items.iter()) {
        assert_eq!(a.name, b.name);
        assert_eq!(a.namespace, b.namespace);
        assert_eq!(a.data, b.data);
    }
}

#[test]
fn object_lists_reject_trailing_bytes() {
    let mut bytes = encode_object_list(&sample_list());
    bytes.push(0);
    assert!(matches!(
        decode_object_list(&bytes),
        Err(CodecError::TrailingBytes)
    ));
}

#[test]
fn object_lists_reject_truncation() {
    let bytes = encode_object_list(&sample_list());
    let cut = bytes[..bytes.len() - 1].to_vec();
    assert!(decode_object_list(&cut).is_err());
}
