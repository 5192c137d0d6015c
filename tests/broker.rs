use mongo_setup::broker::{response_event_name, secret_from_payload, CredentialBroker};

#[test]
fn unknown_token_is_ignored() {
    let mut b = CredentialBroker::new();
    assert!(b.register("a".to_string(), 0));
    assert_eq!(b.respond("never-requested", "pw".to_string(), 10), None);
    assert!(b.is_pending("a"));
    assert_eq!(b.pending_count(), 1);
}

#[test]
fn late_answer_is_ignored() {
    let mut b = CredentialBroker::new();
    b.register("a".to_string(), 1000);
    let expired = b.expire(121000);
    assert_eq!(expired, vec!["a".to_string()]);
    assert_eq!(b.respond("a", "pw".to_string(), 121001), None);
    assert_eq!(b.pending_count(), 0);
}

#[test]
fn answer_after_deadline_without_sweep_is_ignored() {
    let mut b = CredentialBroker::new();
    b.register("a".to_string(), 0);
    assert_eq!(b.respond("a", "pw".to_string(), 120000), None);
    assert_eq!(b.respond("a", "pw".to_string(), 119999), Some("pw".to_string()));
    assert_eq!(b.respond("a", "again".to_string(), 119999), None);
}

#[test]
fn requests_do_not_share_a_waiter() {
    let mut b = CredentialBroker::new();
    b.register("A".to_string(), 0);
    b.register("B".to_string(), 10);
    assert_eq!(b.respond("B", "secret".to_string(), 50), Some("secret".to_string()));
    assert!(b.is_pending("A"));
    assert!(!b.is_pending("B"));
    assert!(b.expire(119999).is_empty());
    assert_eq!(b.expire(120000), vec!["A".to_string()]);
}

#[test]
fn duplicate_registration_is_refused() {
    let mut b = CredentialBroker::new();
    assert!(b.register("A".to_string(), 0));
    assert!(!b.register("A".to_string(), 5));
    assert!(b.withdraw("A"));
    assert!(!b.withdraw("A"));
    assert!(!b.register("A".to_string(), 9));
    assert!(!b.is_pending("A"));
}

#[test]
fn answered_token_is_not_accepted_again() {
    let mut b = CredentialBroker::new();
    let t = b.begin_request(0).unwrap();
    assert_eq!(b.respond(&t, "pw".to_string(), 1), Some("pw".to_string()));
    assert!(!b.register(t.clone(), 2));
    assert_eq!(b.respond(&t, "pw".to_string(), 3), None);
}

#[test]
fn minted_tokens_are_hyphenated_and_distinct() {
    let mut b = CredentialBroker::new();
    let t1 = b.begin_request(0).unwrap();
    let t2 = b.begin_request(0).unwrap();
    assert_ne!(t1, t2);
    assert_eq!(t1.len(), 36);
    for i in [8, 13, 18, 23] {
        assert_eq!(t1.as_bytes()[i], b'-');
    }
    assert_eq!(b.pending_count(), 2);
}

#[test]
fn payload_is_decoded_as_json_string() {
    assert_eq!(secret_from_payload("\"hunter2\""), "hunter2");
    assert_eq!(secret_from_payload("\"a\\\"b\""), "a\"b");
    assert_eq!(secret_from_payload("not json"), "");
    let mut b = CredentialBroker::new();
    b.register("t".to_string(), 0);
    assert_eq!(b.respond_with_payload("t", "\"pw\"", 1), Some("pw".to_string()));
}

#[test]
fn response_event_carries_the_token() {
    assert_eq!(response_event_name("abc"), "sudo-password-response-abc");
}
