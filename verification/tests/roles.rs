use prusto::{RoleType, SelectedRole, TransactionId};
use prusto::error::{need_retry, Error};

#[test]
fn test_to_string() {
    let a = SelectedRole::new(RoleType::All, None);
    let res = a.display();
    assert_eq!(res, "ALL");

    let a = SelectedRole::new(RoleType::Role, Some("admin".to_string()));
    let res = a.display();
    assert_eq!(res, "ROLE{admin}");
}

#[test]
fn test_from_str() {
    let a = "ALL";
    let res = SelectedRole::from_str(a).unwrap();
    assert_eq!(res.ty, RoleType::All);
    assert_eq!(res.role, None);

    let a = "ROLE{admin}";
    let res = SelectedRole::from_str(a).unwrap();
    assert_eq!(res.ty, RoleType::Role);
    assert_eq!(res.role, Some("admin".to_string()));
}

#[test]
fn test_role_rejects_other_text() {
    assert!(SelectedRole::from_str("role{admin}").is_none());
    assert!(SelectedRole::from_str("ROLE{admin").is_none());
    assert!(SelectedRole::from_str("").is_none());
}

#[test]
fn test_transaction_id_round_trip() {
    assert_eq!(TransactionId::default().to_str(), "NONE");
    assert_eq!(
        TransactionId::from_str("START TRANSACTION"),
        Some(TransactionId::StartTransaction)
    );
    assert_eq!(TransactionId::from_str("ROLLBACK"), Some(TransactionId::RollBack));
    assert_eq!(TransactionId::from_str("COMMIT"), Some(TransactionId::Commit));
    assert_eq!(TransactionId::from_str("commit"), None);
}

#[test]
fn test_encode_kv_percent_encodes() {
    // the value side is percent-encoded on its way into a header
    assert_eq!(prusto::encode_kv("a", "b c"), "a=b%20c");
    assert_eq!(prusto::encode_kv("k", "plain"), "k=plain");
}

#[test]
fn test_decode_kv_from_header() {
    assert_eq!(
        prusto::decode_kv_from_header("a=b%20c"),
        Some(("a".to_string(), "b c".to_string()))
    );
    assert_eq!(prusto::decode_kv_from_header("a=b=c"), None);
    assert_eq!(prusto::decode_kv_from_header("nothing"), None);
}

#[test]
fn test_need_retry_on_service_unavailable() {
    assert!(need_retry(&Error::HttpNotOk(503, String::new())));
    assert!(need_retry(&Error::HttpError(Some(503), String::new())));
    assert!(!need_retry(&Error::HttpNotOk(500, String::new())));
    assert!(!need_retry(&Error::EmptyData));
}
