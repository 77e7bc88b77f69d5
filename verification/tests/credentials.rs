use persistence::{
    hash_temporary_password, temporary_password, verify_password, TEMPORARY_PASSWORD_LENGTH,
};

const UPPER: &[u8] = b"ABCDEFGHJKLMNPQRSTUVWXYZ";
const LOWER: &[u8] = b"abcdefghijkmnopqrstuvwxyz";
const DIGITS: &[u8] = b"23456789";

fn easy(value: u8) -> bool {
    UPPER.contains(&value) || LOWER.contains(&value) || DIGITS.contains(&value)
}

#[test]
fn temporary_passwords_have_the_required_shape_and_vary() {
    let passwords = (0..128).map(|_| temporary_password()).collect::<Vec<_>>();
    for password in &passwords {
        assert_eq!(password.len(), TEMPORARY_PASSWORD_LENGTH);
        assert!(password.bytes().any(|value| UPPER.contains(&value)));
        assert!(password.bytes().any(|value| LOWER.contains(&value)));
        assert!(password.bytes().any(|value| DIGITS.contains(&value)));
        assert!(password.bytes().all(easy));
    }
    assert!(passwords.windows(2).any(|pair| pair[0] != pair[1]));
}

#[test]
fn temporary_password_hashes_are_argon2_and_verifiable() {
    let password = temporary_password();
    let hash = hash_temporary_password(&password).expect("temporary password hashes");
    assert!(hash.starts_with("$argon2"));
    assert_eq!(verify_password(&password, &hash), Ok(true));
    assert!(!hash.contains(&password));
}

#[test]
fn a_wrong_password_does_not_verify_and_a_garbled_hash_is_refused() {
    let hash = hash_temporary_password("Ab3defGh").expect("hashes");
    assert_eq!(verify_password("Ab3defGj", &hash), Ok(false));
    assert!(verify_password("Ab3defGh", "not a phc string").is_err());
}

#[test]
fn temporary_hashing_refuses_other_lengths() {
    assert!(hash_temporary_password("short").is_err());
}

#[test]
fn temporary_hashing_counts_characters_not_bytes() {
    let result = persistence::hash_temporary_password("\u{e9}\u{e9}\u{e9}\u{e9}\u{e9}\u{e9}\u{e9}\u{e9}");
    assert!(result.is_ok());
    assert_eq!(
        persistence::hash_temporary_password("\u{e9}\u{e9}\u{e9}\u{e9}"),
        Err(persistence::CredentialError::Policy)
    );
}

#[test]
fn a_temporary_password_is_built_from_its_draws() {
    let keep = persistence::credentials::temporary_password_from(
        0,
        0,
        0,
        &vec![0, 1, 2, 3, 4],
        &vec![7, 6, 5, 4, 3, 2, 1],
    );
    assert_eq!(keep, "Aa2ABCDE");
    let rotated = persistence::credentials::temporary_password_from(
        0,
        0,
        0,
        &vec![0, 1, 2, 3, 4],
        &vec![0, 0, 0, 0, 0, 0, 0],
    );
    assert_eq!(rotated, "a2ABCDEA");
    let last_picks = persistence::credentials::temporary_password_from(
        23,
        24,
        7,
        &vec![56, 24, 48, 0, 23],
        &vec![7, 6, 5, 4, 3, 2, 1],
    );
    assert_eq!(last_picks, "Zz99azAZ");
}
