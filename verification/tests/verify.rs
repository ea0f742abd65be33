use ensip25::error::Error;
use ensip25::verify::{status_from_lookup, TxtLookup, VerificationStatus};

#[test]
fn non_empty_record_is_verified() {
    let s = status_from_lookup(TxtLookup::Value("https://agent.example".to_string())).unwrap();
    assert_eq!(s, VerificationStatus::Verified);
    assert!(s.is_verified());
}

#[test]
fn empty_or_unresolved_record_is_missing() {
    let s = status_from_lookup(TxtLookup::Value(String::new())).unwrap();
    assert_eq!(s, VerificationStatus::EnsRecordMissing);
    assert!(!s.is_verified());
    assert_eq!(
        status_from_lookup(TxtLookup::Unresolved).unwrap(),
        VerificationStatus::EnsRecordMissing
    );
}

#[test]
fn other_lookup_failures_are_errors() {
    assert_eq!(
        status_from_lookup(TxtLookup::Failed("rpc down".to_string())),
        Err(Error::Ens("rpc down".to_string()))
    );
}

#[test]
fn status_display_text() {
    assert_eq!(VerificationStatus::Verified.to_string(), "verified");
    assert_eq!(VerificationStatus::EnsRecordMissing.to_string(), "ENS record missing");
}
