use sharam::storage::error::Error;
use sharam::storage::proof_store::{
    bucket_already_exists, check_bucket_config, needs_location_constraint, new_proof_key,
    proof_key, sanitize_email_frag,
};

#[test]
fn sanitize_typical_email() {
    assert_eq!(
        sanitize_email_frag("Alice.Smith+ledger@Example.com"),
        "alice.smith-ledger_at_example.com"
    );
}

#[test]
fn sanitize_no_at() {
    assert_eq!(sanitize_email_frag("nobody"), "nobody");
}

#[test]
fn sanitize_collapses_runs_and_trims_dashes() {
    assert_eq!(sanitize_email_frag("  a b!!c@x.y  "), "a-b-c_at_x.y");
    assert_eq!(sanitize_email_frag("++@@"), "_at_");
    assert_eq!(sanitize_email_frag(""), "");
}

#[test]
fn sanitized_fragment_holds_only_safe_characters() {
    for e in ["Ünïcode@Exämple.COM", "a/../b@c", "x\"y'z@q"] {
        let f = sanitize_email_frag(e);
        assert!(f
            .chars()
            .all(|c| c.is_ascii_alphanumeric() || c == '.' || c == '_' || c == '-'));
        assert!(!f.starts_with('-') && !f.ends_with('-'));
    }
}

#[test]
fn proof_key_layout() {
    assert_eq!(
        proof_key("acme_capital", "Bob@Example.com", "0190-abc", "pdf"),
        "tenants/acme_capital/bob_at_example.com/0190-abc.pdf"
    );
}

#[test]
fn new_proof_keys_are_fresh_and_in_tenant() {
    let a = new_proof_key("acme", "bob@x.io", "png");
    let b = new_proof_key("acme", "bob@x.io", "png");
    assert!(a.starts_with("tenants/acme/bob_at_x.io/"));
    assert!(a.ends_with(".png"));
    assert_ne!(a, b);
}

#[test]
fn bucket_rules() {
    assert_eq!(check_bucket_config(""), Err(Error::S3("storage.bucket is empty".to_string())));
    assert_eq!(check_bucket_config("proofs"), Ok(()));
    assert!(!needs_location_constraint("us-east-1"));
    assert!(needs_location_constraint("ap-southeast-1"));
    assert!(bucket_already_exists("service error: BucketAlreadyOwnedByYou: ..."));
    assert!(bucket_already_exists("BucketAlreadyExists"));
    assert!(!bucket_already_exists("AccessDenied"));
    assert_eq!(Error::S3("boom".to_string()).to_string(), "s3: boom");
    assert_eq!(Error::NotFound.to_string(), "not found");
}
