use base64::engine::general_purpose::STANDARD;
use base64::Engine;
use persistence::mail_outbox::{
    associated_data, attempt_count, claim_limit, decode_claim, failure_status_text,
    failure_transition, retry_delay_seconds, retry_refusal, MailOutboxConfig, MailOutboxError,
    MailOutboxSummary, MailSecretCipher,
};
use persistence::Duration;

fn cipher() -> MailSecretCipher {
    MailSecretCipher::from_base64(&STANDARD.encode([7_u8; 32])).expect("valid key")
}

#[test]
fn encrypted_secret_round_trips_without_containing_plaintext() {
    let cipher = cipher();
    let id = uuid::Uuid::new_v4().as_u128();
    let secret = "A2bcDef3";
    let (ciphertext, nonce) = cipher
        .encrypt(id, "writer@example.edu", "student", secret)
        .expect("encrypts");
    assert!(!ciphertext
        .windows(secret.len())
        .any(|bytes| bytes == secret.as_bytes()));
    assert_eq!(
        cipher
            .decrypt(id, "writer@example.edu", "student", &ciphertext, &nonce)
            .expect("decrypts"),
        secret
    );
}

#[test]
fn invalid_or_wrong_length_keys_are_rejected() {
    assert!(MailSecretCipher::from_base64("not base64").is_err());
    assert!(MailSecretCipher::from_base64(&STANDARD.encode([0_u8; 16])).is_err());
}

#[test]
fn retry_schedule_is_bounded() {
    assert_eq!(retry_delay_seconds(1), 60);
    assert_eq!(retry_delay_seconds(2), 300);
    assert_eq!(retry_delay_seconds(3), 900);
    assert_eq!(retry_delay_seconds(20), 3600);
}

#[test]
fn key_with_surrounding_white_space_is_accepted() {
    let key = format!("  {}\n", STANDARD.encode([9_u8; 32]));
    assert!(MailSecretCipher::from_base64(&key).is_ok());
}

#[test]
fn a_secret_sealed_for_another_recipient_or_nonce_does_not_open() {
    let cipher = cipher();
    let id = 42;
    let (ciphertext, nonce) = cipher
        .encrypt(id, "writer@example.edu", "student", "A2bcDef3")
        .expect("encrypts");
    assert_eq!(
        cipher.decrypt(id, "other@example.edu", "student", &ciphertext, &nonce),
        Err(MailOutboxError::Decryption)
    );
    assert_eq!(
        cipher.decrypt(id + 1, "writer@example.edu", "student", &ciphertext, &nonce),
        Err(MailOutboxError::Decryption)
    );
    assert_eq!(
        cipher.decrypt(id, "writer@example.edu", "student", &ciphertext, &nonce[..11]),
        Err(MailOutboxError::Decryption)
    );
}

#[test]
fn associated_data_names_delivery_recipient_and_role() {
    assert_eq!(
        associated_data(0x67e5504410b1426f9247bb680e5fe0c8, "writer@example.edu", "student"),
        "latex-core:temporary-credential:67e55044-10b1-426f-9247-bb680e5fe0c8:writer@example.edu:student"
    );
}

#[test]
fn claimed_delivery_opens_its_password() {
    let cipher = cipher();
    let (ciphertext, nonce) = cipher.encrypt(7, "a@example.edu", "mentor", "Zz9pQr4s").expect("encrypts");
    let claim = decode_claim(
        &cipher,
        7,
        "a@example.edu".to_owned(),
        Some(11),
        "mentor".to_owned(),
        &ciphertext,
        &nonce,
        -3,
    )
    .expect("opens");
    assert_eq!(claim.temporary_password, "Zz9pQr4s");
    assert_eq!(claim.attempt, u32::MAX);
    assert_eq!(claim.account_user_id, Some(11));
}

#[test]
fn failures_retry_while_attempts_remain() {
    let t = failure_transition(2, 5, true);
    assert!(t.retry && !t.audit);
    assert_eq!(t.delay_seconds, 300);
    assert_eq!(failure_status_text(t), "PENDING");
    let t = failure_transition(5, 5, true);
    assert!(!t.retry && t.audit);
    assert_eq!(failure_status_text(t), "FAILED");
    assert!(!failure_transition(1, 5, false).retry);
}

#[test]
fn claim_batches_are_clamped() {
    assert_eq!(claim_limit(0), 1);
    assert_eq!(claim_limit(50), 50);
    assert_eq!(claim_limit(500), 100);
    assert_eq!(attempt_count(4), 4);
    assert_eq!(retry_refusal(true), MailOutboxError::PayloadUnavailable);
    assert_eq!(retry_refusal(false), MailOutboxError::NotFound);
}

#[test]
fn payload_lifetime_must_be_positive() {
    assert_eq!(
        MailOutboxConfig::new(cipher(), Duration::zero()).err(),
        Some(MailOutboxError::PayloadUnavailable)
    );
    let config = MailOutboxConfig::new(cipher(), Duration::from_secs(3600)).expect("valid");
    assert_eq!(config.lifetime_seconds(), 3600);
    let summary = MailOutboxSummary::default();
    assert_eq!((summary.pending, summary.sent, summary.failed), (0, 0, 0));
    assert_eq!(MailOutboxError::NotFound.message(), "email delivery record not found");
}
