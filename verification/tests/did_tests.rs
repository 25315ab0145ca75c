use abnf_engine::cid::Cid;
use abnf_engine::did_key::{DidKey, Error};
use abnf_engine::document::Document;
use abnf_engine::operation::create::Create;
use abnf_engine::operation::rotate_recovery_key::RotateRecoveryKey;
use abnf_engine::operation::rotate_signing_key::RotateSigningKey;
use abnf_engine::operation::update_atp_pds::UpdateAtpPds;
use abnf_engine::operation::update_username::UpdateUsername;
use abnf_engine::operation::{Operation, OperationLog, ToBytes};

#[test]
fn test_did_key_with_percent_encoded_method_specific_id_is_valid() {
    let key = DidKey::new("example", "foo%20bar").unwrap();
    assert_eq!(key.as_bytes(), b"did:example:foo%20bar");
}

#[test]
fn test_missing_method_name() {
    assert_eq!(DidKey::new("", "foo").unwrap_err(), Error::missing_method_name());
}

#[test]
fn test_invalid_method_name() {
    assert_eq!(
        DidKey::new("Foo", "foo").unwrap_err(),
        Error::invalid_method_name("Foo".to_owned())
    );
}

#[test]
fn create_operation_round_trip() {
    let op = Create::builder()
        .signing_key("sk".to_string())
        .recovery_key("rk".to_string())
        .username("alice".to_string())
        .service("svc".to_string())
        .sig("sg".to_string())
        .build()
        .unwrap();
    assert_eq!(op.op_type(), "create");
    assert!(Operation::prev(&op).is_none());
    assert_eq!(op.sig(), "sg");
    assert_eq!(op.to_bytes(), b"skrkalicesvcsg".to_vec());
}

#[test]
fn create_builder_reports_first_missing_field() {
    let err = Create::builder().build().unwrap_err();
    assert_eq!(err.message(), "missing required field signing_key");
    let err = Create::builder().signing_key("sk".to_string()).build().unwrap_err();
    assert_eq!(err.message(), "missing required field recovery_key");
}

#[test]
fn cid_of_empty_operation_is_the_digest_of_nothing() {
    // every field empty, so the operation's bytes are empty and the id is
    // the hex of the digest of the empty message
    let op = Create::builder()
        .signing_key(String::new())
        .recovery_key(String::new())
        .username(String::new())
        .service(String::new())
        .sig(String::new())
        .build()
        .unwrap();
    let cid = op.cid();
    assert_eq!(
        cid.as_str(),
        "e3b0c44298fc1c149afbf4c8996fb92427ae41e4649b934ca495991b7852b855"
    );
}

#[test]
fn cid_depends_on_the_operation_bytes() {
    let op = UpdateUsername::builder()
        .username("alice".to_string())
        .sig("s".to_string())
        .build()
        .unwrap();
    let other = UpdateUsername::builder()
        .username("bob".to_string())
        .sig("s".to_string())
        .build()
        .unwrap();
    let a = Cid::from_operation(op);
    let b = Cid::from_operation(other);
    assert_ne!(a.as_str(), b.as_str());
    assert_eq!(a.as_str().len(), 64);
}

#[test]
fn rotate_key_operations_carry_their_key() {
    let key = DidKey::new("plc", "abc123").unwrap();
    let op = RotateRecoveryKey::builder().key(key.clone()).sig("s".to_string()).build().unwrap();
    assert_eq!(op.op_type(), "rotate_recovery_key");
    assert_eq!(op.to_bytes(), b"did:plc:abc123s".to_vec());

    let op = RotateSigningKey::builder().key(key).sig("s".to_string()).build().unwrap();
    assert_eq!(op.op_type(), "rotate_signing_key");
}

#[test]
fn update_operations_chain_through_prev() {
    let first = UpdateAtpPds::builder()
        .service("pds.example".to_string())
        .sig("s1".to_string())
        .build()
        .unwrap();
    assert_eq!(first.op_type(), "update_atp_pds");
    let prev = Cid::from_operation(first);
    let second = UpdateUsername::builder()
        .username("alice".to_string())
        .prev(prev.clone())
        .sig("s2".to_string())
        .build()
        .unwrap();
    let carried = second.prev().unwrap();
    assert_eq!(carried.as_str(), prev.as_str());
    let mut expected = b"alice".to_vec();
    expected.extend_from_slice(prev.as_bytes());
    expected.extend_from_slice(b"s2");
    assert_eq!(second.to_bytes(), expected);
}

#[test]
fn builders_report_missing_signature() {
    let err = UpdateUsername::builder().username("u".to_string()).build().unwrap_err();
    assert_eq!(err.message(), "missing required field sig");
    let err = UpdateAtpPds::builder().build().unwrap_err();
    assert_eq!(err.message(), "missing required field service");
}

#[test]
fn document_resolution_is_a_placeholder() {
    let log = OperationLog { log: Vec::new() };
    let _doc = Document::from_operation_log(&log);
}
