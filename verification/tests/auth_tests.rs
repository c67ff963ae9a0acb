use pushkind_emailer::auth::{new_user_credentials, verify_password};

#[test]
fn hash_then_verify_round_trip() {
    let c = new_user_credentials("u@x.io".to_string(), "hunter2").expect("hash expected");
    assert!(verify_password(&c.password_hash, "hunter2"));
    assert!(!verify_password(&c.password_hash, "hunter3"));
}

#[test]
fn verify_rejects_garbage_hash() {
    assert!(!verify_password("not a bcrypt hash", "hunter2"));
    assert!(!verify_password("", "hunter2"));
}

#[test]
fn new_user_credentials_keep_email_and_match_password() {
    let c = new_user_credentials("user@acme.example".to_string(), "s3cret")
        .expect("credentials expected");
    assert_eq!(c.email, "user@acme.example");
    assert_ne!(c.password_hash, "s3cret");
    assert!(verify_password(&c.password_hash, "s3cret"));
    assert!(!verify_password(&c.password_hash, "other"));
}
