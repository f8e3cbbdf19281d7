use expressing::auth::Claims;
use expressing::credentials::{hash_password, password_matches};
use expressing::errors::ApiError;
use expressing::incidents::{report_incident, IncidentLog};

fn claims(sub: &str, role: &str) -> Claims {
    Claims {
        sub: sub.to_string(),
        email: format!("{}@example.com", sub),
        role: role.to_string(),
        exp: 9_999_999_999,
        restaurant_id: None,
    }
}

#[test]
fn hashed_passwords_round_trip() {
    let hash = hash_password("hunter2").expect("hashing should succeed");
    // a bcrypt hash is never the password itself
    assert_ne!(hash, "hunter2");
    assert!(hash.starts_with("$2"));
    assert!(password_matches("hunter2", &hash));
    assert!(!password_matches("hunter3", &hash));
    assert!(!password_matches("", &hash));
}

#[test]
fn legacy_plaintext_records_still_match() {
    assert!(password_matches("plain-secret", "plain-secret"));
    assert!(!password_matches("plain-secret", "other"));
    // a malformed stored hash falls back to the plaintext comparison
    assert!(password_matches("$2b$bogus", "$2b$bogus"));
    assert!(!password_matches("pw", "$2b$bogus"));
}

#[test]
fn incidents_append_in_order() {
    let mut log = IncidentLog::new();
    let b = claims("rider-b", "deliverer");
    report_incident(&mut log, &b, "o1".to_string(), "flat tire".to_string(), 1_000).unwrap();
    report_incident(&mut log, &b, "o2".to_string(), "address wrong".to_string(), 2_000).unwrap();
    assert_eq!(log.len(), 2);
    let first = log.nth(0);
    assert_eq!(first.order_id, "o1");
    assert_eq!(first.deliverer_id, "rider-b");
    assert_eq!(first.note, "flat tire");
    assert_eq!(first.created_at, 1_000);
    assert_eq!(log.nth(1).order_id, "o2");

    let cust = claims("cust-a", "customer");
    let r = report_incident(&mut log, &cust, "o1".to_string(), "nope".to_string(), 3_000);
    assert_eq!(r.unwrap_err(), ApiError::Forbidden);
    assert_eq!(log.len(), 2);
}
