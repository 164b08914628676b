use kubewarden::evaluator::{
    AdmissionRequest, PolicySettings, RawValidateObject, SettingsValue, ValidateRequest,
};

#[test]
fn uid_of_an_admission_request_is_its_uid() {
    let request = ValidateRequest::AdmissionRequest(Box::new(AdmissionRequest {
        uid: "adm-42".to_string(),
        object: Some(b"{}".to_vec()),
        old_object: None,
        dry_run: false,
        username: "alice".to_string(),
    }));
    assert_eq!(request.uid(), "adm-42");
}

#[test]
fn uid_of_a_raw_request_is_read_from_the_document() {
    let with_uid = ValidateRequest::Raw(RawValidateObject {
        uid: Some("raw-7".to_string()),
        payload: b"{\"uid\":\"raw-7\"}".to_vec(),
    });
    assert_eq!(with_uid.uid(), "raw-7");

    let without_uid = ValidateRequest::Raw(RawValidateObject {
        uid: None,
        payload: b"{}".to_vec(),
    });
    assert_eq!(without_uid.uid(), "");
}

#[test]
fn settings_accept_null_and_objects_only() {
    let empty = PolicySettings::try_from_value(SettingsValue::Null).unwrap();
    assert!(empty.entries.is_empty());

    let object = PolicySettings::try_from_value(SettingsValue::Object(vec![(
        "key1".to_string(),
        b"\"value1\"".to_vec(),
    )]))
    .unwrap();
    assert_eq!(object.entries.len(), 1);
    assert_eq!(object.entries[0].0, "key1");

    let rejected = PolicySettings::try_from_value(SettingsValue::Other);
    assert_eq!(rejected.unwrap_err(), "Invalid settings in CRD, not an object");
}
