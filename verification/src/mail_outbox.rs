//! The encrypted outbox of temporary credentials: sealing a password for one recipient,
//! opening it again, and the bounded retry schedule of deliveries.
use crate::duration::Duration;
use crate::import_values::{uuid_display, uuid_string};
use crate::text::{concat_str, trim_spec, trim_str};
use aes_gcm::aead::rand_core::{OsRng, RngCore};
use aes_gcm::aead::{Aead, Payload};
use aes_gcm::{Aes256Gcm, Key, KeyInit, Nonce};
use base64::engine::general_purpose::STANDARD;
use base64::Engine;
use vstd::prelude::*;
use vstd::string::StringSliceAdditionalSpecFns;
use vstd::utf8::{decode_utf8, encode_utf8, valid_utf8};

verus! {

/// Bytes of an AES-GCM nonce.
pub const NONCE_LENGTH: usize = 12;

/// Bytes of an AES-256 key.
pub const KEY_LENGTH: usize = 32;

/// Why an outbox operation failed.
#[derive(Copy, Clone, Debug, PartialEq, Eq, Structural)]
pub enum MailOutboxError {
    InvalidKey,
    Encryption,
    Decryption,
    NotFound,
    PayloadUnavailable,
}

impl MailOutboxError {
    /// The message shown for the error.
    pub fn message(&self) -> (s: &'static str)
        ensures
            s@ == mail_error_message(*self),
    {
        match self {
            MailOutboxError::InvalidKey => "mail secret key must be base64-encoded random 32-byte material",
            MailOutboxError::Encryption => "mail secret encryption failed",
            MailOutboxError::Decryption => "mail secret decryption failed",
            MailOutboxError::NotFound => "email delivery record not found",
            MailOutboxError::PayloadUnavailable => "email delivery payload has expired or is unavailable",
        }
    }
}

/// The message of an outbox error.
pub open spec fn mail_error_message(e: MailOutboxError) -> Seq<char> {
    match e {
        MailOutboxError::InvalidKey => "mail secret key must be base64-encoded random 32-byte material"@,
        MailOutboxError::Encryption => "mail secret encryption failed"@,
        MailOutboxError::Decryption => "mail secret decryption failed"@,
        MailOutboxError::NotFound => "email delivery record not found"@,
        MailOutboxError::PayloadUnavailable => "email delivery payload has expired or is unavailable"@,
    }
}

/// The bytes of an optional byte vector.
pub open spec fn opt_bytes(v: Option<Vec<u8>>) -> Option<Seq<u8>> {
    match v {
        Some(b) => Some(b@),
        None => None,
    }
}

/// What `base64`'s standard engine decodes from `text`, if it is valid padded base64.
pub uninterp spec fn base64_decoded(text: Seq<char>) -> Option<Seq<u8>>;

/// The ciphertext (with its tag) that AES-256-GCM produces from `msg` under `key`,
/// `nonce` and associated data `aad`; none when it refuses.
pub uninterp spec fn aes_gcm_sealed(key: Seq<u8>, nonce: Seq<u8>, aad: Seq<u8>, msg: Seq<u8>) -> Option<Seq<u8>>;

/// The plaintext AES-256-GCM recovers from `ciphertext` under `key`, `nonce` and `aad`;
/// none when authentication fails.
pub uninterp spec fn aes_gcm_opened(
    key: Seq<u8>,
    nonce: Seq<u8>,
    aad: Seq<u8>,
    ciphertext: Seq<u8>,
) -> Option<Seq<u8>>;

/// `STANDARD.decode(text)` of the `base64` crate.
#[verifier::external_body]
fn decode_base64(text: &str) -> (r: Option<Vec<u8>>)
    ensures
        opt_bytes(r) == base64_decoded(text@),
{
    STANDARD.decode(text).ok()
}

/// The most bytes AES-GCM seals, as message or as associated data (2^36).
pub const SEAL_LIMIT: u64 = 0x10_0000_0000;

/// `Aes256Gcm::new(key).encrypt(nonce, Payload { msg, aad })`: the named ciphertext. The
/// crate refuses only a message or associated data longer than 2^36 bytes, so within
/// that limit the seal succeeds.
#[verifier::external_body]
fn aes_gcm_seal(key: &[u8], nonce: &[u8], aad: &[u8], msg: &[u8]) -> (r: Option<Vec<u8>>)
    requires
        key@.len() == KEY_LENGTH,
        nonce@.len() == NONCE_LENGTH,
    ensures
        opt_bytes(r) == aes_gcm_sealed(key@, nonce@, aad@, msg@),
        msg@.len() <= SEAL_LIMIT && aad@.len() <= SEAL_LIMIT ==> r is Some,
{
    Aes256Gcm::new(Key::<Aes256Gcm>::from_slice(key)).encrypt(
        Nonce::from_slice(nonce),
        Payload { msg, aad },
    ).ok()
}

/// `Aes256Gcm::new(key).decrypt(nonce, Payload { msg: ciphertext, aad })`. Besides naming
/// the result, the contract states the correctness of the AEAD: a ciphertext sealed from
/// `m` under the same key, nonce and associated data opens to `m`.
#[verifier::external_body]
fn aes_gcm_open(key: &[u8], nonce: &[u8], aad: &[u8], ciphertext: &[u8]) -> (r: Option<Vec<u8>>)
    requires
        key@.len() == KEY_LENGTH,
        nonce@.len() == NONCE_LENGTH,
    ensures
        opt_bytes(r) == aes_gcm_opened(key@, nonce@, aad@, ciphertext@),
        forall|m: Seq<u8>|
            #[trigger] aes_gcm_sealed(key@, nonce@, aad@, m) == Some(ciphertext@) ==> opt_bytes(r)
                == Some(m),
{
    Aes256Gcm::new(Key::<Aes256Gcm>::from_slice(key)).decrypt(
        Nonce::from_slice(nonce),
        Payload { msg: ciphertext, aad },
    ).ok()
}

/// `OsRng.fill_bytes` on a fresh nonce: random bytes, so only the length is promised.
#[verifier::external_body]
fn random_nonce() -> (n: Vec<u8>)
    ensures
        n@.len() == NONCE_LENGTH,
{
    let mut nonce = [0_u8; NONCE_LENGTH];
    OsRng.fill_bytes(&mut nonce);
    nonce.to_vec()
}

/// `String::from_utf8`: the text the bytes encode, when they are valid UTF-8.
#[verifier::external_body]
fn string_from_utf8(bytes: Vec<u8>) -> (r: Option<String>)
    ensures
        r is Some <==> valid_utf8(bytes@),
        r matches Some(s) ==> s@ == decode_utf8(bytes@),
{
    String::from_utf8(bytes).ok()
}

/// The associated data that binds a sealed password to its delivery, recipient and role.
pub open spec fn credential_aad(id: u128, recipient: Seq<char>, role: Seq<char>) -> Seq<char> {
    "latex-core:temporary-credential:"@ + uuid_display(id) + ":"@ + recipient + ":"@ + role
}

/// The associated data for delivery `id` to `recipient` in `role`.
pub fn associated_data(id: u128, recipient: &str, role: &str) -> (s: String)
    ensures
        s@ == credential_aad(id, recipient@, role@),
{
    let id_text = uuid_string(id);
    let a = concat_str("latex-core:temporary-credential:", id_text.as_str());
    let b = concat_str(a.as_str(), ":");
    let c = concat_str(b.as_str(), recipient);
    let d = concat_str(c.as_str(), ":");
    concat_str(d.as_str(), role)
}

/// The AES-256-GCM key that seals temporary passwords in the outbox.
pub struct MailSecretCipher {
    key: Vec<u8>,
}

impl Clone for MailSecretCipher {
    fn clone(&self) -> (c: MailSecretCipher)
        ensures
            c.key_bytes() == self.key_bytes(),
    {
        proof {
            use_type_invariant(self);
        }
        let mut key: Vec<u8> = Vec::new();
        let mut i: usize = 0;
        while i < self.key.len()
            invariant
                i <= self.key@.len(),
                key@ == self.key@.take(i as int),
            decreases self.key@.len() - i,
        {
            key.push(self.key[i]);
            assert(self.key@.take(i + 1) =~= self.key@.take(i as int).push(self.key@[i as int]));
            i = i + 1;
        }
        assert(self.key@.take(self.key@.len() as int) =~= self.key@);
        MailSecretCipher { key }
    }
}

impl MailSecretCipher {
    #[verifier::type_invariant]
    spec fn key_is_aes256(self) -> bool {
        self.key@.len() == KEY_LENGTH
    }

    /// The key's bytes.
    pub closed spec fn key_bytes(self) -> Seq<u8> {
        self.key@
    }

    /// Reads a key given in standard padded base64, surrounding white space ignored; it
    /// must decode to exactly 32 bytes.
    pub fn from_base64(value: &str) -> (r: Result<MailSecretCipher, MailOutboxError>)
        ensures
            (base64_decoded(trim_spec(value@)) matches Some(k) && k.len() == KEY_LENGTH) ==> (r matches Ok(
                c,
            ) && c.key_bytes() == base64_decoded(trim_spec(value@))->Some_0),
            !(base64_decoded(trim_spec(value@)) matches Some(k) && k.len() == KEY_LENGTH) ==> r
                == Err::<MailSecretCipher, MailOutboxError>(MailOutboxError::InvalidKey),
    {
        let trimmed = trim_str(value);
        match decode_base64(trimmed.as_str()) {
            Some(key) => if key.len() == KEY_LENGTH {
                Ok(MailSecretCipher { key })
            } else {
                Err(MailOutboxError::InvalidKey)
            },
            None => Err(MailOutboxError::InvalidKey),
        }
    }

    /// Seals `plaintext` for delivery `id` to `recipient` in `role` under a fresh random
    /// nonce; gives the ciphertext and the nonce. Sealing succeeds whenever the password
    /// and the associated data are each within AES-GCM's limit of 2^36 bytes.
    pub fn encrypt(&self, id: u128, recipient: &str, role: &str, plaintext: &str) -> (r: Result<
        (Vec<u8>, Vec<u8>),
        MailOutboxError,
    >)
        ensures
            r matches Ok((c, n)) ==> n@.len() == NONCE_LENGTH && aes_gcm_sealed(
                self.key_bytes(),
                n@,
                encode_utf8(credential_aad(id, recipient@, role@)),
                encode_utf8(plaintext@),
            ) == Some(c@),
            r matches Err(e) ==> e == MailOutboxError::Encryption,
            encode_utf8(plaintext@).len() <= SEAL_LIMIT && encode_utf8(
                credential_aad(id, recipient@, role@),
            ).len() <= SEAL_LIMIT ==> r is Ok,
    {
        proof {
            use_type_invariant(self);
        }
        let nonce = random_nonce();
        let aad = associated_data(id, recipient, role);
        match aes_gcm_seal(self.key.as_slice(), nonce.as_slice(), aad.as_str().as_bytes(), plaintext.as_bytes()) {
            Some(c) => Ok((c, nonce)),
            None => Err(MailOutboxError::Encryption),
        }
    }

    /// Opens a sealed password of delivery `id` to `recipient` in `role`. A nonce of the
    /// wrong length, a failed authentication or bytes that are not UTF-8 are
    /// `Decryption` errors; what `encrypt` sealed for the same delivery opens to the
    /// plaintext.
    pub fn decrypt(
        &self,
        id: u128,
        recipient: &str,
        role: &str,
        ciphertext: &[u8],
        nonce: &[u8],
    ) -> (r: Result<String, MailOutboxError>)
        ensures
            nonce@.len() != NONCE_LENGTH ==> r == Err::<String, MailOutboxError>(
                MailOutboxError::Decryption,
            ),
            nonce@.len() == NONCE_LENGTH ==> ({
                let opened = aes_gcm_opened(
                    self.key_bytes(),
                    nonce@,
                    encode_utf8(credential_aad(id, recipient@, role@)),
                    ciphertext@,
                );
                &&& r is Ok <==> (opened matches Some(p) && valid_utf8(p))
                &&& r matches Ok(s) ==> s@ == decode_utf8(opened->Some_0)
                &&& r matches Err(e) ==> e == MailOutboxError::Decryption
            }),
            forall|m: Seq<char>|
                nonce@.len() == NONCE_LENGTH && #[trigger] aes_gcm_sealed(
                    self.key_bytes(),
                    nonce@,
                    encode_utf8(credential_aad(id, recipient@, role@)),
                    encode_utf8(m),
                ) == Some(ciphertext@) ==> (r matches Ok(s) && s@ == m),
    {
        proof {
            use_type_invariant(self);
        }
        if nonce.len() != NONCE_LENGTH {
            return Err(MailOutboxError::Decryption);
        }
        let aad = associated_data(id, recipient, role);
        let ghost aad_bytes = encode_utf8(credential_aad(id, recipient@, role@));
        let opened = aes_gcm_open(self.key.as_slice(), nonce, aad.as_str().as_bytes(), ciphertext);
        let r = match opened {
            Some(p) => match string_from_utf8(p) {
                Some(s) => Ok(s),
                None => Err(MailOutboxError::Decryption),
            },
            None => Err(MailOutboxError::Decryption),
        };
        proof {
            assert forall|m: Seq<char>|
                nonce@.len() == NONCE_LENGTH && #[trigger] aes_gcm_sealed(
                    self.key_bytes(),
                    nonce@,
                    aad_bytes,
                    encode_utf8(m),
                ) == Some(ciphertext@) implies (r matches Ok(s) && s@ == m) by {
                vstd::utf8::encode_utf8_valid_utf8(m);
                vstd::utf8::encode_utf8_decode_utf8(m);
            }
        }
        r
    }
}

/// How long sealed passwords stay deliverable, and the key that seals them.
#[derive(Clone)]
pub struct MailOutboxConfig {
    cipher: MailSecretCipher,
    lifetime_seconds: i64,
}

impl MailOutboxConfig {
    /// A configuration whose payloads live `lifetime`, in whole seconds: at least one
    /// second, and no more than a BIGINT holds.
    pub fn new(cipher: MailSecretCipher, lifetime: Duration) -> (r: Result<
        MailOutboxConfig,
        MailOutboxError,
    >)
        ensures
            (0 < lifetime.spec_secs() <= i64::MAX) ==> (r matches Ok(c) && c.spec_lifetime_seconds()
                == lifetime.spec_secs() && c.spec_cipher() == cipher),
            !(0 < lifetime.spec_secs() <= i64::MAX) ==> r == Err::<
                MailOutboxConfig,
                MailOutboxError,
            >(MailOutboxError::PayloadUnavailable),
    {
        let secs = lifetime.as_secs();
        if secs == 0 || secs > 0x7fff_ffff_ffff_ffffu64 {
            return Err(MailOutboxError::PayloadUnavailable);
        }
        Ok(MailOutboxConfig { cipher, lifetime_seconds: secs as i64 })
    }

    /// Payload lifetime in seconds.
    pub closed spec fn spec_lifetime_seconds(self) -> i64 {
        self.lifetime_seconds
    }

    /// The sealing key.
    pub closed spec fn spec_cipher(self) -> MailSecretCipher {
        self.cipher
    }

    /// Payload lifetime in seconds.
    pub fn lifetime_seconds(&self) -> (s: i64)
        ensures
            s == self.spec_lifetime_seconds(),
    {
        self.lifetime_seconds
    }

    /// The sealing key.
    pub fn cipher(&self) -> (c: &MailSecretCipher)
        ensures
            *c == self.spec_cipher(),
    {
        &self.cipher
    }
}

/// Counts of deliveries by state.
#[derive(Clone, Copy, Debug, PartialEq, Eq, Structural)]
pub struct MailOutboxSummary {
    pub pending: i64,
    pub sent: i64,
    pub failed: i64,
}

impl Default for MailOutboxSummary {
    fn default() -> (s: MailOutboxSummary)
        ensures
            s.pending == 0 && s.sent == 0 && s.failed == 0,
    {
        MailOutboxSummary { pending: 0, sent: 0, failed: 0 }
    }
}

/// Seconds before retrying after the `attempt`-th failed delivery.
pub open spec fn spec_retry_delay(attempt: u32) -> i32 {
    if attempt <= 1 {
        60
    } else if attempt == 2 {
        300
    } else if attempt == 3 {
        900
    } else {
        3600
    }
}

/// Seconds before retrying after the `attempt`-th failed delivery: one minute, five,
/// fifteen, then an hour.
pub fn retry_delay_seconds(attempt: u32) -> (s: i32)
    ensures
        s == spec_retry_delay(attempt),
{
    match attempt {
        0 | 1 => 60,
        2 => 5 * 60,
        3 => 15 * 60,
        _ => 60 * 60,
    }
}

/// The retry delay never shrinks as attempts grow, and never exceeds an hour.
pub proof fn law_retry_schedule_bounded(a: u32, b: u32)
    requires
        a <= b,
    ensures
        spec_retry_delay(a) <= spec_retry_delay(b),
        60 <= spec_retry_delay(b) <= 3600,
{
}

/// A claim batch holds between 1 and 100 deliveries.
pub fn claim_limit(limit: i64) -> (r: i64)
    ensures
        r == (if limit < 1 {
            1
        } else if limit > 100 {
            100
        } else {
            limit
        }),
{
    if limit < 1 {
        1
    } else if limit > 100 {
        100
    } else {
        limit
    }
}

/// What a failed delivery leads to.
#[derive(Copy, Clone, Debug, PartialEq, Eq, Structural)]
pub struct FailureTransition {
    /// The delivery goes back to the queue.
    pub retry: bool,
    /// Seconds until the next attempt.
    pub delay_seconds: i32,
    /// The failure is final and audited.
    pub audit: bool,
}

/// The stored status after a failure.
pub open spec fn failure_status(t: FailureTransition) -> Seq<char> {
    if t.retry {
        "PENDING"@
    } else {
        "FAILED"@
    }
}

/// Decides what follows the `attempt`-th failed delivery: a transient failure is retried
/// while attempts remain; otherwise the delivery fails for good and is audited.
pub fn failure_transition(attempt: u32, max_attempts: u32, transient: bool) -> (t: FailureTransition)
    ensures
        t.retry == (transient && attempt < max_attempts),
        t.audit == !t.retry,
        t.delay_seconds == spec_retry_delay(attempt),
{
    let retry = transient && attempt < max_attempts;
    FailureTransition { retry, delay_seconds: retry_delay_seconds(attempt), audit: !retry }
}

/// The stored status after a failure.
pub fn failure_status_text(t: FailureTransition) -> (s: &'static str)
    ensures
        s@ == failure_status(t),
{
    if t.retry {
        "PENDING"
    } else {
        "FAILED"
    }
}

/// The attempt number of a claimed delivery: a negative stored count reads as the
/// largest attempt.
pub fn attempt_count(attempts: i32) -> (a: u32)
    ensures
        attempts >= 0 ==> a == attempts,
        attempts < 0 ==> a == u32::MAX,
{
    if attempts >= 0 {
        attempts as u32
    } else {
        u32::MAX
    }
}

/// Why a manual retry did not requeue a delivery: it is unknown, or it cannot be sent
/// again.
pub fn retry_refusal(exists: bool) -> (e: MailOutboxError)
    ensures
        exists ==> e == MailOutboxError::PayloadUnavailable,
        !exists ==> e == MailOutboxError::NotFound,
{
    if exists {
        MailOutboxError::PayloadUnavailable
    } else {
        MailOutboxError::NotFound
    }
}

/// A delivery claimed for sending, with its password opened.
pub struct ClaimedCredentialEmail {
    pub id: u128,
    pub recipient_email: String,
    pub account_user_id: Option<u128>,
    pub credential_role: String,
    pub temporary_password: String,
    pub attempt: u32,
}

/// Opens a claimed delivery's sealed password; the attempt count reads as
/// `attempt_count` does.
pub fn decode_claim(
    cipher: &MailSecretCipher,
    id: u128,
    recipient_email: String,
    account_user_id: Option<u128>,
    credential_role: String,
    ciphertext: &[u8],
    nonce: &[u8],
    attempts: i32,
) -> (r: Result<ClaimedCredentialEmail, MailOutboxError>)
    ensures
        r matches Ok(c) ==> {
            &&& c.id == id
            &&& c.recipient_email@ == recipient_email@
            &&& c.account_user_id == account_user_id
            &&& c.credential_role@ == credential_role@
            &&& c.attempt == (if attempts >= 0 {
                attempts as u32
            } else {
                u32::MAX
            })
            &&& nonce@.len() == NONCE_LENGTH
            &&& aes_gcm_opened(
                cipher.key_bytes(),
                nonce@,
                encode_utf8(credential_aad(id, recipient_email@, credential_role@)),
                ciphertext@,
            ) matches Some(p) && valid_utf8(p) && c.temporary_password@ == decode_utf8(p)
        },
        r matches Err(e) ==> e == MailOutboxError::Decryption,
        nonce@.len() == NONCE_LENGTH ==> (r is Ok <==> (aes_gcm_opened(
            cipher.key_bytes(),
            nonce@,
            encode_utf8(credential_aad(id, recipient_email@, credential_role@)),
            ciphertext@,
        ) matches Some(p) && valid_utf8(p))),
        nonce@.len() != NONCE_LENGTH ==> r is Err,
{
    let password = match cipher.decrypt(id, recipient_email.as_str(), credential_role.as_str(), ciphertext, nonce) {
        Ok(p) => p,
        Err(e) => return Err(e),
    };
    Ok(
        ClaimedCredentialEmail {
            id,
            recipient_email,
            account_user_id,
            credential_role,
            temporary_password: password,
            attempt: attempt_count(attempts),
        },
    )
}

} // verus!
