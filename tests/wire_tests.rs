use base64::Engine;
use sha2::Digest;
use tuta_poll::types::{
    BucketPermissionType, EntityUpdate, Event, GroupType, MailFolderType, OperationType,
    PermissionType,
};
use tuta_poll::updates::has_new_mail;
use tuta_poll::wire::{
    auth_verifier, check_format, decode_bytes, decode_code, decode_flag, decode_key,
    decode_optional_bytes, decode_optional_key, WireError,
};

fn b64(data: &[u8]) -> String {
    base64::engine::general_purpose::STANDARD.encode(data)
}

#[test]
fn key_fields_hold_sixteen_bytes() {
    let key: Vec<u8> = (0u8..16).collect();
    assert_eq!(decode_key(&b64(&key)).map(|k| k.to_vec()), Ok(key.clone()));
    assert_eq!(decode_key(&b64(&key[..15])), Err(WireError::WrongLength));
    assert_eq!(decode_key("not base64!"), Err(WireError::InvalidBase64));
}

#[test]
fn optional_key_fields() {
    let key = [7u8; 16];
    assert_eq!(decode_optional_key(None), Ok(None));
    assert_eq!(decode_optional_key(Some("")), Ok(None));
    assert_eq!(decode_optional_key(Some(&b64(&key))), Ok(Some(key)));
    assert_eq!(decode_optional_key(Some(&b64(&[1, 2, 3]))), Err(WireError::WrongLength));
    assert_eq!(decode_optional_key(Some("%%")), Err(WireError::InvalidBase64));
}

#[test]
fn variable_fields() {
    assert_eq!(decode_bytes(&b64(b"hello")), Ok(b"hello".to_vec()));
    assert_eq!(decode_bytes("a"), Err(WireError::InvalidBase64));
    assert_eq!(decode_optional_bytes(Some("")), Ok(None));
    assert_eq!(decode_optional_bytes(None), Ok(None));
    assert_eq!(decode_optional_bytes(Some(&b64(&[9, 9]))), Ok(Some(vec![9, 9])));
}

#[test]
fn format_tag_must_be_zero() {
    assert_eq!(check_format("0"), Ok(()));
    assert_eq!(check_format("1"), Err(WireError::InvalidFormat));
    assert_eq!(check_format("00"), Err(WireError::InvalidFormat));
    assert_eq!(check_format(""), Err(WireError::InvalidFormat));
}

#[test]
fn codes_are_decimal_strings() {
    assert_eq!(decode_code("5"), Ok(5));
    assert_eq!(decode_code("+12"), Ok(12));
    assert_eq!(decode_code("255"), Ok(255));
    assert_eq!(decode_code("256"), Err(WireError::InvalidCode));
    assert_eq!(decode_code(" 1"), Err(WireError::InvalidCode));
    assert_eq!(decode_code(""), Err(WireError::InvalidCode));
    assert_eq!(decode_flag("1"), Ok(true));
    assert_eq!(decode_flag("0"), Ok(false));
    assert_eq!(decode_flag("2"), Err(WireError::InvalidCode));
}

#[test]
fn codes_decode_to_closed_variants() {
    assert_eq!(PermissionType::from_code(1), Some(PermissionType::Symmetric));
    assert_eq!(PermissionType::from_code(4), Some(PermissionType::External));
    assert_eq!(PermissionType::from_code(6), None);
    assert_eq!(BucketPermissionType::from_code(2), Some(BucketPermissionType::Public));
    assert_eq!(BucketPermissionType::from_code(3), Some(BucketPermissionType::External));
    assert_eq!(BucketPermissionType::from_code(0), None);
    assert_eq!(GroupType::from_code(5), Some(GroupType::Mail));
    assert_eq!(GroupType::from_code(12), None);
    assert_eq!(MailFolderType::from_code(1), Some(MailFolderType::Inbox));
    assert_eq!(MailFolderType::from_code(7), None);
    assert_eq!(OperationType::from_code(0), Some(OperationType::Create));
    assert_eq!(OperationType::from_code(3), None);
}

#[test]
fn auth_verifier_is_url_safe_digest() {
    let key = [0xfbu8; 16];
    let expected = base64::engine::general_purpose::URL_SAFE_NO_PAD.encode(sha2::Sha256::digest(key));
    assert_eq!(auth_verifier(&key), expected);
    assert!(!auth_verifier(&key).contains('='));
}

fn event(operation: OperationType, event_type: &str) -> Event {
    Event {
        instance_id: "i".to_string(),
        instance_list_id: "l".to_string(),
        operation,
        event_type: event_type.to_string(),
    }
}

#[test]
fn new_mail_needs_a_created_mail_event() {
    let update = EntityUpdate {
        event_batch: vec![event(OperationType::Update, "Mail"), event(OperationType::Create, "MailBox")],
    };
    assert!(!has_new_mail(&update));
    let update = EntityUpdate {
        event_batch: vec![event(OperationType::Delete, "Mail"), event(OperationType::Create, "Mail")],
    };
    assert!(has_new_mail(&update));
    assert!(!has_new_mail(&EntityUpdate { event_batch: vec![] }));
}

#[test]
fn codes_accept_leading_zeros_and_reject_other_digits() {
    assert_eq!(decode_code("00255"), Ok(255));
    assert_eq!(decode_code("+"), Err(WireError::InvalidCode));
    assert_eq!(decode_code("٣"), Err(WireError::InvalidCode));
    assert_eq!(decode_code("1_0"), Err(WireError::InvalidCode));
    assert_eq!(decode_flag("+1"), Ok(true));
    assert_eq!(decode_flag("01"), Ok(true));
}
