use persistence::import_batch::{content_digest, hex_encode};
use persistence::import_values::{is_uuid_text, parse_i32, parse_uuid, valid_email};
use persistence::text::decimal_string;

#[test]
fn content_digest_is_lower_hex_sha256() {
    assert_eq!(
        content_digest(b"abc"),
        "ba7816bf8f01cfea414140de5dae2223b00361a396177a9cb410ff61f20015ad"
    );
    assert_eq!(
        content_digest(b""),
        "e3b0c44298fc1c149afbf4c8996fb92427ae41e4649b934ca495991b7852b855"
    );
}

#[test]
fn uuids_are_read_in_their_text_forms() {
    let id = 0x67e55044_10b1_426f_9247_bb680e5fe0c8u128;
    assert_eq!(parse_uuid("67e55044-10b1-426f-9247-bb680e5fe0c8"), Some(id));
    assert_eq!(parse_uuid("67e5504410b1426f9247bb680e5fe0c8"), Some(id));
    assert_eq!(parse_uuid("{67e55044-10b1-426f-9247-bb680e5fe0c8}"), Some(id));
    assert_eq!(parse_uuid("urn:uuid:67e55044-10b1-426f-9247-bb680e5fe0c8"), Some(id));
    assert_eq!(parse_uuid("67e55044-10b1-426f-9247"), None);
    assert!(!is_uuid_text("not-a-uuid"));
}

#[test]
fn integers_and_emails_are_checked() {
    assert_eq!(parse_i32("42"), Some(42));
    assert_eq!(parse_i32("-7"), Some(-7));
    assert_eq!(parse_i32("2147483648"), None);
    assert_eq!(parse_i32("4x"), None);
    assert!(valid_email("a.b@example.edu"));
    assert!(!valid_email("a@b@example.edu"));
    assert!(!valid_email(" a@example.edu"));
    assert!(!valid_email("a@example"));
    assert!(!valid_email("a@.example.edu"));
    assert!(!valid_email("@example.edu"));
    assert_eq!(decimal_string(0), "0");
    assert_eq!(decimal_string(1234567890123), "1234567890123");
}

#[test]
fn hex_encoding_writes_two_lower_digits_per_byte() {
    assert_eq!(hex_encode(&[0, 15, 16, 171, 255]), "000f10abff");
    assert_eq!(hex_encode(&[]), "");
}
