use repo_manager::auth::{outcome_for, AuthError, AuthOutcome, AuthenticationProvider, VerifyResult};
use repo_manager::config::{Config, PasswordType, UserConfig};
use repo_manager::user_pass::{digests_equal, ConfigError, UserPassAuthenticationProvider};

fn user(name: &str, password_type: PasswordType, password: &str) -> UserConfig {
    UserConfig {
        username: String::from(name),
        password_type,
        password: String::from(password),
    }
}

fn three_scheme_provider() -> UserPassAuthenticationProvider {
    let bcrypt_hash = bcrypt::hash("bcrypt-secret", 4).unwrap();
    let argon2_hash =
        argon2::hash_encoded(b"argon2-secret", b"somesaltvalue", &argon2::Config::default()).unwrap();
    let blake3_hash = blake3::hash(b"blake3-secret").to_hex().to_string();
    let config = Config {
        repositories: vec![],
        users: vec![
            user("bob", PasswordType::BCrypt, &bcrypt_hash),
            user("ann", PasswordType::Argon2, &argon2_hash),
            user("cid", PasswordType::Blake3, &blake3_hash),
        ],
    };
    UserPassAuthenticationProvider::new(&config).unwrap()
}

fn auth(p: &UserPassAuthenticationProvider, u: Option<&str>, pw: Option<&str>) -> Result<AuthOutcome, AuthError> {
    p.authenticate(u.map(String::from), pw.map(String::from))
}

#[test]
fn correct_password_authenticates_for_each_scheme() {
    let p = three_scheme_provider();
    assert_eq!(auth(&p, Some("bob"), Some("bcrypt-secret")), Ok(AuthOutcome::Authenticated(String::from("bob"))));
    assert_eq!(auth(&p, Some("ann"), Some("argon2-secret")), Ok(AuthOutcome::Authenticated(String::from("ann"))));
    assert_eq!(auth(&p, Some("cid"), Some("blake3-secret")), Ok(AuthOutcome::Authenticated(String::from("cid"))));
}

#[test]
fn mutated_password_is_a_mismatch_for_each_scheme() {
    let p = three_scheme_provider();
    assert_eq!(auth(&p, Some("bob"), Some("bcrypt-secreT")), Err(AuthError::Mismatch));
    assert_eq!(auth(&p, Some("ann"), Some("argon2-secreT")), Err(AuthError::Mismatch));
    assert_eq!(auth(&p, Some("cid"), Some("blake3-secreT")), Err(AuthError::Mismatch));
}

#[test]
fn no_username_is_anonymous_even_with_password() {
    let p = three_scheme_provider();
    assert_eq!(auth(&p, None, None), Ok(AuthOutcome::Anonymous));
    assert_eq!(auth(&p, None, Some("whatever")), Ok(AuthOutcome::Anonymous));
}

#[test]
fn username_without_password_is_missing_credential() {
    let p = three_scheme_provider();
    assert_eq!(auth(&p, Some("bob"), None), Err(AuthError::MissingCredential));
}

#[test]
fn unknown_user_gets_the_same_error_as_wrong_password() {
    let p = three_scheme_provider();
    assert_eq!(auth(&p, Some("eve"), Some("bcrypt-secret")), Err(AuthError::Mismatch));
}

#[test]
fn corrupt_stored_hash_fails_closed() {
    let config = Config {
        repositories: vec![],
        users: vec![
            user("bob", PasswordType::BCrypt, "not-a-bcrypt-hash"),
            user("ann", PasswordType::Argon2, "not-an-argon2-hash"),
        ],
    };
    let p = UserPassAuthenticationProvider::new(&config).unwrap();
    assert_eq!(auth(&p, Some("bob"), Some("x")), Err(AuthError::Mismatch));
    assert_eq!(auth(&p, Some("ann"), Some("x")), Err(AuthError::Mismatch));
}

#[test]
fn last_credential_for_a_name_wins() {
    let first = blake3::hash(b"old").to_hex().to_string();
    let second = blake3::hash(b"new").to_hex().to_string();
    let config = Config {
        repositories: vec![],
        users: vec![user("cid", PasswordType::Blake3, &first), user("cid", PasswordType::Blake3, &second)],
    };
    let p = UserPassAuthenticationProvider::new(&config).unwrap();
    assert_eq!(auth(&p, Some("cid"), Some("old")), Err(AuthError::Mismatch));
    assert_eq!(auth(&p, Some("cid"), Some("new")), Ok(AuthOutcome::Authenticated(String::from("cid"))));
}

#[test]
fn uppercase_blake3_digest_is_accepted() {
    let upper = blake3::hash(b"pw").to_hex().to_uppercase();
    let config = Config { repositories: vec![], users: vec![user("cid", PasswordType::Blake3, &upper)] };
    let p = UserPassAuthenticationProvider::new(&config).unwrap();
    assert_eq!(auth(&p, Some("cid"), Some("pw")), Ok(AuthOutcome::Authenticated(String::from("cid"))));
}

#[test]
fn malformed_blake3_digest_fails_construction() {
    let config = Config {
        repositories: vec![],
        users: vec![
            user("bob", PasswordType::BCrypt, "anything"),
            user("dan", PasswordType::Blake3, "abc123"),
        ],
    };
    assert_eq!(
        UserPassAuthenticationProvider::new(&config).err(),
        Some(ConfigError::InvalidDigest(String::from("dan")))
    );
}

#[test]
fn outcome_for_each_verdict() {
    assert_eq!(
        outcome_for(String::from("u"), VerifyResult::Match),
        Ok(AuthOutcome::Authenticated(String::from("u")))
    );
    assert_eq!(outcome_for(String::from("u"), VerifyResult::NoMatch), Err(AuthError::Mismatch));
    assert_eq!(
        outcome_for(String::from("u"), VerifyResult::VerificationError(String::from("bad hash"))),
        Err(AuthError::Mismatch)
    );
}

#[test]
fn digest_comparison() {
    let a = *blake3::hash(b"a").as_bytes();
    let b = *blake3::hash(b"b").as_bytes();
    let mut c = a;
    c[31] ^= 1;
    assert!(digests_equal(&a, &a));
    assert!(!digests_equal(&a, &b));
    assert!(!digests_equal(&a, &c));
}
