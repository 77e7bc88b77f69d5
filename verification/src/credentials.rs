//! Password policy, Argon2 hashing and cryptographically secure temporary credentials.
use crate::text::{chars_of, string_from_chars};
use argon2::password_hash::rand_core::{OsRng, RngCore};
use argon2::password_hash::SaltString;
use argon2::{Argon2, PasswordHash, PasswordHasher, PasswordVerifier};
use vstd::prelude::*;
use vstd::string::StringSliceAdditionalSpecFns;

verus! {

/// Length of a temporary password, in characters (all ASCII).
pub const TEMPORARY_PASSWORD_LENGTH: usize = 8;

/// Why a credential operation failed.
#[derive(Clone, Copy, Debug, PartialEq, Eq, Structural)]
pub enum CredentialError {
    Policy,
    Hash,
    InvalidHash,
}

/// Whether `hash` parses as a PHC password-hash string.
pub uninterp spec fn phc_parses(hash: Seq<char>) -> bool;

/// Whether Argon2 accepts `password` (its UTF-8 bytes) against the PHC string `hash`.
pub uninterp spec fn argon2_accepts(password: Seq<u8>, hash: Seq<char>) -> bool;

/// Upper-case letters used in temporary passwords (no I or O).
pub open spec fn upper_alphabet() -> Seq<u8> {
    seq![
        65u8, 66, 67, 68, 69, 70, 71, 72, 74, 75, 76, 77, 78, 80, 81, 82, 83, 84, 85, 86, 87, 88, 89, 90,
    ]
}

/// Lower-case letters used in temporary passwords (no l).
pub open spec fn lower_alphabet() -> Seq<u8> {
    seq![
        97u8, 98, 99, 100, 101, 102, 103, 104, 105, 106, 107, 109, 110, 111, 112, 113, 114, 115,
        116, 117, 118, 119, 120, 121, 122,
    ]
}

/// Digits used in temporary passwords (no 0 or 1).
pub open spec fn digit_alphabet() -> Seq<u8> {
    seq![50u8, 51, 52, 53, 54, 55, 56, 57]
}

/// The easily readable alphabet: upper-case letters, lower-case letters, digits.
pub open spec fn easy_alphabet() -> Seq<u8> {
    upper_alphabet() + lower_alphabet() + digit_alphabet()
}

/// A permanent password holds 12 to 256 bytes.
pub fn validate_password(value: &str) -> (r: Result<(), CredentialError>)
    ensures
        r is Ok <==> 12 <= value.len() <= 256,
        r matches Err(e) ==> e == CredentialError::Policy,
{
    let n = value.len();
    if 12 <= n && n <= 256 {
        Ok(())
    } else {
        Err(CredentialError::Policy)
    }
}

/// Hashes a policy-compliant permanent password with Argon2.
pub fn hash_password(value: &str) -> (r: Result<String, CredentialError>)
    ensures
        !(12 <= value.len() <= 256) ==> r == Err::<String, CredentialError>(CredentialError::Policy),
        12 <= value.len() <= 256 ==> (r is Ok || r == Err::<String, CredentialError>(CredentialError::Hash)),
        r matches Err(e) ==> (e == CredentialError::Policy || e == CredentialError::Hash),
        r matches Ok(h) ==> 12 <= value.len() <= 256 && phc_parses(h@) && argon2_accepts(
            value.spec_bytes(),
            h@,
        ) && h@.len() >= 9 && h@.take(9) == "$argon2id"@,
{
    validate_password(value)?;
    hash_unchecked(value)
}

/// Hashes an exactly eight-character temporary password with Argon2.
pub fn hash_temporary_password(value: &str) -> (r: Result<String, CredentialError>)
    ensures
        value@.len() != TEMPORARY_PASSWORD_LENGTH ==> r == Err::<String, CredentialError>(CredentialError::Policy),
        value@.len() == TEMPORARY_PASSWORD_LENGTH ==> (r is Ok || r == Err::<String, CredentialError>(
            CredentialError::Hash,
        )),
        r matches Ok(h) ==> value@.len() == TEMPORARY_PASSWORD_LENGTH && phc_parses(h@) && argon2_accepts(
            value.spec_bytes(),
            h@,
        ) && h@.len() >= 9 && h@.take(9) == "$argon2id"@,
{
    if chars_of(value).len() != TEMPORARY_PASSWORD_LENGTH {
        return Err(CredentialError::Policy);
    }
    hash_unchecked(value)
}

/// `Argon2::default().hash_password` with a fresh `SaltString::generate(OsRng)`. The salt
/// is random, so the string itself is not determined; the contract states that a produced
/// hash is a PHC string naming Argon2id that parses and that Argon2 verification accepts
/// the hashed password against it.
#[verifier::external_body]
fn hash_unchecked(value: &str) -> (r: Result<String, CredentialError>)
    ensures
        r matches Ok(h) ==> phc_parses(h@) && argon2_accepts(value.spec_bytes(), h@) && h@.len()
            >= 9 && h@.take(9) == "$argon2id"@,
        r matches Err(e) ==> e == CredentialError::Hash,
{
    let salt = SaltString::generate(&mut OsRng);
    Argon2::default().hash_password(value.as_bytes(), &salt).map(|hash| hash.to_string()).map_err(
        |_| CredentialError::Hash,
    )
}

/// `PasswordHash::new` on the stored hash, then `Argon2::default().verify_password`:
/// an unparsable hash is `InvalidHash`; otherwise the result is Argon2's verdict.
#[verifier::external_body]
pub fn verify_password(value: &str, hash: &str) -> (r: Result<bool, CredentialError>)
    ensures
        r is Err <==> !phc_parses(hash@),
        r matches Err(e) ==> e == CredentialError::InvalidHash,
        r matches Ok(b) ==> b == argon2_accepts(value.spec_bytes(), hash@),
{
    let parsed = PasswordHash::new(hash).map_err(|_| CredentialError::InvalidHash)?;
    Ok(Argon2::default().verify_password(value.as_bytes(), &parsed).is_ok())
}

/// A password hashed here is accepted by verification.
pub proof fn law_hash_then_verify(value: &str, hash: String)
    requires
        phc_parses(hash@),
        argon2_accepts(value.spec_bytes(), hash@),
    ensures
        (if phc_parses(hash@) {
            Ok::<bool, CredentialError>(argon2_accepts(value.spec_bytes(), hash@))
        } else {
            Err(CredentialError::InvalidHash)
        }) == Ok::<bool, CredentialError>(true),
{
}

/// `OsRng.next_u32()`: a uniformly random value; nothing more is promised.
#[verifier::external_body]
fn random_u32() -> u32 {
    OsRng.next_u32()
}

/// The largest multiple of `bound` that fits in a `u32` draw: draws below it map onto
/// every index below `bound` equally often.
pub open spec fn rejection_limit(bound: u32) -> u32 {
    (u32::MAX - (u32::MAX % bound)) as u32
}

/// The index a random draw `candidate` gives below `bound`: its remainder, when the draw
/// is below the rejection limit; otherwise none, and another draw is needed.
fn sample_index(candidate: u32, bound: u32) -> (r: Option<usize>)
    requires
        bound > 0,
    ensures
        candidate < rejection_limit(bound) ==> r == Some((candidate % bound) as usize),
        candidate >= rejection_limit(bound) ==> r is None,
{
    let limit: u32 = u32::MAX - (u32::MAX % bound);
    if candidate < limit {
        Some((candidate % bound) as usize)
    } else {
        None
    }
}

/// A uniformly random index below `upper_bound`, by rejection sampling: random draws are
/// taken until `sample_index` accepts one. The draws are random, so only the bound is
/// promised of the result.
fn secure_index(upper_bound: usize) -> (i: usize)
    requires
        0 < upper_bound <= u32::MAX,
    ensures
        i < upper_bound,
{
    let bound: u32 = upper_bound as u32;
    let mut attempts: u64 = 0;
    while attempts < u64::MAX
        invariant
            0 < bound,
            bound as int == upper_bound as int,
        decreases u64::MAX - attempts,
    {
        let candidate = random_u32();
        match sample_index(candidate, bound) {
            Some(index) => {
                return index;
            },
            None => {},
        }
        attempts = attempts + 1;
    }
    0
}

proof fn lemma_easy_contains(b: u8)
    ensures
        upper_alphabet().contains(b) ==> easy_alphabet().contains(b),
        lower_alphabet().contains(b) ==> easy_alphabet().contains(b),
        digit_alphabet().contains(b) ==> easy_alphabet().contains(b),
{
    let e = easy_alphabet();
    if upper_alphabet().contains(b) {
        let k = choose|k: int| 0 <= k < upper_alphabet().len() && upper_alphabet()[k] == b;
        assert(e[k] == b);
    }
    if lower_alphabet().contains(b) {
        let k = choose|k: int| 0 <= k < lower_alphabet().len() && lower_alphabet()[k] == b;
        assert(e[24 + k] == b);
    }
    if digit_alphabet().contains(b) {
        let k = choose|k: int| 0 <= k < digit_alphabet().len() && digit_alphabet()[k] == b;
        assert(e[49 + k] == b);
    }
}

fn upper() -> (a: [u8; 24])
    ensures
        a@ == upper_alphabet(),
{
    let a: [u8; 24] = [
        65u8, 66, 67, 68, 69, 70, 71, 72, 74, 75, 76, 77, 78, 80, 81, 82, 83, 84, 85, 86, 87, 88, 89, 90,
    ];
    assert(a@ =~= upper_alphabet());
    a
}

fn lower() -> (a: [u8; 25])
    ensures
        a@ == lower_alphabet(),
{
    let a: [u8; 25] = [
        97u8, 98, 99, 100, 101, 102, 103, 104, 105, 106, 107, 109, 110, 111, 112, 113, 114, 115,
        116, 117, 118, 119, 120, 121, 122,
    ];
    assert(a@ =~= lower_alphabet());
    a
}

fn digits() -> (a: [u8; 8])
    ensures
        a@ == digit_alphabet(),
{
    let a: [u8; 8] = [50u8, 51, 52, 53, 54, 55, 56, 57];
    assert(a@ =~= digit_alphabet());
    a
}

fn easy_at(i: usize) -> (b: u8)
    requires
        i < 57,
    ensures
        b == easy_alphabet()[i as int],
{
    if i < 24 {
        let u = upper();
        u[i]
    } else if i < 49 {
        let l = lower();
        l[i - 24]
    } else {
        let d = digits();
        d[i - 49]
    }
}

/// The shape every temporary password has: eight characters from the readable alphabet,
/// at least one upper-case letter, one lower-case letter and one digit.
pub open spec fn temporary_password_shape(p: Seq<char>) -> bool {
    &&& p.len() == TEMPORARY_PASSWORD_LENGTH
    &&& forall|i: int| 0 <= i < p.len() ==> easy_alphabet().contains(#[trigger] p[i] as u8)
    &&& exists|i: int| 0 <= i < p.len() && upper_alphabet().contains(#[trigger] p[i] as u8)
    &&& exists|i: int| 0 <= i < p.len() && lower_alphabet().contains(#[trigger] p[i] as u8)
    &&& exists|i: int| 0 <= i < p.len() && digit_alphabet().contains(#[trigger] p[i] as u8)
}

/// The bytes drawn for a temporary password, before shuffling: an upper-case letter, a
/// lower-case letter and a digit picked by `u`, `l` and `d`, then five characters of the
/// readable alphabet picked by `fill`.
pub open spec fn drawn_bytes(u: usize, l: usize, d: usize, fill: Seq<usize>) -> Seq<u8> {
    seq![upper_alphabet()[u as int], lower_alphabet()[l as int], digit_alphabet()[d as int]]
        + fill.map_values(|f: usize| easy_alphabet()[f as int])
}

/// The first `n` steps of a Fisher-Yates shuffle of eight bytes: step `k` (from 0)
/// exchanges position `7 - k` with position `swaps[k]`.
pub open spec fn shuffled(s: Seq<u8>, swaps: Seq<usize>, n: int) -> Seq<u8>
    decreases n,
{
    if n <= 0 {
        s
    } else {
        let t = shuffled(s, swaps, n - 1);
        let i = 8 - n;
        let j = swaps[n - 1] as int;
        t.update(i, t[j]).update(j, t[i])
    }
}

/// The text of ASCII bytes.
pub open spec fn password_text(b: Seq<u8>) -> Seq<char> {
    b.map_values(|x: u8| x as char)
}

/// Draws a temporary password can be built from: picks within each alphabet, five fill
/// picks, and seven shuffle positions, the `k`-th at most `7 - k`.
pub open spec fn draws_valid(u: usize, l: usize, d: usize, fill: Seq<usize>, swaps: Seq<usize>) -> bool {
    &&& u < 24
    &&& l < 25
    &&& d < 8
    &&& fill.len() == 5
    &&& forall|k: int| 0 <= k < 5 ==> #[trigger] fill[k] < 57
    &&& swaps.len() == 7
    &&& forall|k: int| 0 <= k < 7 ==> #[trigger] swaps[k] <= 7 - k
}

/// The temporary password that given draws make: the drawn characters, shuffled.
pub open spec fn built_password(u: usize, l: usize, d: usize, fill: Seq<usize>, swaps: Seq<usize>) -> Seq<char> {
    password_text(shuffled(drawn_bytes(u, l, d, fill), swaps, 7))
}

/// Builds a temporary password from its draws: one character of each class, five more
/// from the readable alphabet, then the Fisher-Yates swaps in order.
pub fn temporary_password_from(u: usize, l: usize, d: usize, fill: &Vec<usize>, swaps: &Vec<usize>) -> (p: String)
    requires
        draws_valid(u, l, d, fill@, swaps@),
    ensures
        p@ == built_password(u, l, d, fill@, swaps@),
        temporary_password_shape(p@),
{
    let up = upper();
    let lo = lower();
    let di = digits();
    let mut password: [u8; 8] = [0u8; 8];
    password[0] = up[u];
    password[1] = lo[l];
    password[2] = di[d];
    proof {
        lemma_easy_contains(password@[0]);
        lemma_easy_contains(password@[1]);
        lemma_easy_contains(password@[2]);
    }
    let ghost drawn = drawn_bytes(u, l, d, fill@);
    let mut k: usize = 3;
    while k < 8
        invariant
            3 <= k <= 8,
            draws_valid(u, l, d, fill@, swaps@),
            drawn == drawn_bytes(u, l, d, fill@),
            password@.len() == 8,
            upper_alphabet().contains(password@[0]),
            lower_alphabet().contains(password@[1]),
            digit_alphabet().contains(password@[2]),
            forall|j: int| 0 <= j < k ==> easy_alphabet().contains(#[trigger] password@[j]),
            forall|j: int| 0 <= j < k ==> #[trigger] password@[j] == drawn[j],
        decreases 8 - k,
    {
        assert(fill@[k - 3] < 57);
        let b = easy_at(fill[k - 3]);
        password[k] = b;
        assert(drawn[k as int] == easy_alphabet()[fill@[k - 3] as int]);
        k = k + 1;
    }
    assert(password@ =~= drawn);
    let ghost mut ku: int = 0;
    let ghost mut kl: int = 1;
    let ghost mut kd: int = 2;
    let mut index: usize = 7;
    while index >= 1
        invariant
            index <= 7,
            draws_valid(u, l, d, fill@, swaps@),
            drawn == drawn_bytes(u, l, d, fill@),
            password@ == shuffled(drawn, swaps@, 7 - index),
            password@.len() == 8,
            0 <= ku < 8,
            0 <= kl < 8,
            0 <= kd < 8,
            upper_alphabet().contains(password@[ku]),
            lower_alphabet().contains(password@[kl]),
            digit_alphabet().contains(password@[kd]),
            forall|j: int| 0 <= j < 8 ==> easy_alphabet().contains(#[trigger] password@[j]),
        decreases index,
    {
        assert(swaps@[7 - index as int] <= index);
        let swap = swaps[7 - index];
        let ghost t = password@;
        let a = password[index];
        let b = password[swap];
        password[index] = b;
        password[swap] = a;
        proof {
            assert(password@ =~= t.update(index as int, t[swap as int]).update(swap as int, t[index as int]));
            assert(shuffled(drawn, swaps@, 8 - index) == t.update(index as int, t[swap as int]).update(
                swap as int,
                t[index as int],
            ));
            if ku == index as int {
                ku = swap as int;
            } else if ku == swap as int {
                ku = index as int;
            }
            if kl == index as int {
                kl = swap as int;
            } else if kl == swap as int {
                kl = index as int;
            }
            if kd == index as int {
                kd = swap as int;
            } else if kd == swap as int {
                kd = index as int;
            }
        }
        index = index - 1;
    }
    let mut chars: Vec<char> = Vec::new();
    let mut i: usize = 0;
    while i < 8
        invariant
            i <= 8,
            password@.len() == 8,
            chars@.len() == i,
            forall|j: int| 0 <= j < i ==> #[trigger] chars@[j] == password@[j] as char,
            forall|j: int| 0 <= j < i ==> (#[trigger] chars@[j]) as u8 == password@[j],
        decreases 8 - i,
    {
        chars.push(password[i] as char);
        i = i + 1;
    }
    let p = string_from_chars(&chars);
    proof {
        assert(chars@ =~= password_text(password@));
        assert(chars@[ku] as u8 == password@[ku]);
        assert(chars@[kl] as u8 == password@[kl]);
        assert(chars@[kd] as u8 == password@[kd]);
    }
    p
}

/// Generates a random temporary password: it draws the picks and shuffle positions with
/// `secure_index` and builds the password from them. The draws are random; the password
/// is one that some valid draws build, so it has the temporary-password shape.
pub fn temporary_password() -> (p: String)
    ensures
        temporary_password_shape(p@),
        exists|u: usize, l: usize, d: usize, fill: Seq<usize>, swaps: Seq<usize>|
            draws_valid(u, l, d, fill, swaps) && p@ == #[trigger] built_password(u, l, d, fill, swaps),
{
    let u = secure_index(24);
    let l = secure_index(25);
    let d = secure_index(8);
    let mut fill: Vec<usize> = Vec::new();
    let mut k: usize = 0;
    while k < 5
        invariant
            k <= 5,
            fill@.len() == k,
            forall|j: int| 0 <= j < k ==> #[trigger] fill@[j] < 57,
        decreases 5 - k,
    {
        fill.push(secure_index(57));
        k = k + 1;
    }
    let mut swaps: Vec<usize> = Vec::new();
    let mut index: usize = 7;
    while index >= 1
        invariant
            index <= 7,
            swaps@.len() == 7 - index,
            forall|j: int| 0 <= j < swaps@.len() ==> #[trigger] swaps@[j] <= 7 - j,
        decreases index,
    {
        swaps.push(secure_index(index + 1));
        index = index - 1;
    }
    temporary_password_from(u, l, d, &fill, &swaps)
}

} // verus!
