use zexec::hex::to_hex;
use zexec::logs::{is_safe_log_name, make_log_record, LOG_ID_CHARS};

#[test]
fn hex_rendering_is_exact() {
    assert_eq!(to_hex(&vec![0xbe, 0xef]), "beef");
    assert_eq!(to_hex(&vec![0x00, 0x0f]), "000f");
    assert_eq!(to_hex(&vec![]), "");
    assert_eq!(to_hex(&vec![0x01, 0x23, 0x45, 0x67, 0x89, 0xab, 0xcd, 0xef]), "0123456789abcdef");
}

#[test]
fn hex_rendering_keeps_leading_zeros() {
    // one digit below 0x10 still takes two characters
    assert_eq!(to_hex(&vec![0x05]), "05");
    assert_eq!(to_hex(&vec![0x00]), "00");
}

#[test]
fn log_record_preserves_content() {
    let rec = make_log_record(b"captured output\n".to_vec());
    assert_eq!(rec.content, b"captured output\n".to_vec());
}

#[test]
fn log_id_is_fixed_length_lowercase_hex() {
    let rec = make_log_record(Vec::new());
    assert_eq!(rec.id.len(), LOG_ID_CHARS);
    assert!(rec.id.chars().all(|c| c.is_ascii_hexdigit() && !c.is_ascii_uppercase()));
    assert!(is_safe_log_name(&rec.id));
}

#[test]
fn two_records_get_distinct_ids() {
    let one = make_log_record(b"same".to_vec());
    let two = make_log_record(b"same".to_vec());
    assert_ne!(one.id, two.id);
}

#[test]
fn traversal_names_are_rejected() {
    assert!(!is_safe_log_name(".."));
    assert!(!is_safe_log_name("../0123456789abcdef0123456789abcdef"));
    assert!(!is_safe_log_name("a/b"));
    assert!(!is_safe_log_name("/etc/passwd"));
    assert!(!is_safe_log_name("..\\0123456789abcdef0123456789abcd"));
}

#[test]
fn malformed_identifiers_are_rejected() {
    assert!(!is_safe_log_name(""));
    assert!(!is_safe_log_name("0123456789abcdef0123456789abcde"));
    assert!(!is_safe_log_name("0123456789abcdef0123456789abcdef0"));
    assert!(!is_safe_log_name("0123456789ABCDEF0123456789ABCDEF"));
    assert!(!is_safe_log_name("0123456789abcdeg0123456789abcdef"));
}

#[test]
fn well_formed_identifiers_are_accepted() {
    assert!(is_safe_log_name("0123456789abcdef0123456789abcdef"));
    assert!(is_safe_log_name("ffffffffffffffffffffffffffffffff"));
}
