//! The shipped provider: static users with stored password hashes.

use vstd::prelude::*;
use crate::auth::{outcome_for, AuthError, AuthOutcome, AuthenticationProvider, VerifyResult};
use crate::config::{Config, PasswordType, UserConfig};
use crate::hashing::{
    argon2_verdict, argon2_verify, bcrypt_verdict, bcrypt_verify, blake3_digest, blake3_digest_of,
    hex_digest_bytes, is_hex_digest, parse_blake3_hex,
};

verus! {

/// A stored credential as a value: username, scheme and stored secret.
pub open spec fn credential_of(u: UserConfig) -> (Seq<char>, PasswordType, Seq<char>) {
    (u.username@, u.password_type, u.password@)
}

/// The credentials that a list of configured users defines, in order.
pub open spec fn credentials_of(users: Seq<UserConfig>) -> Seq<(Seq<char>, PasswordType, Seq<char>)> {
    users.map_values(|u: UserConfig| credential_of(u))
}

/// The scheme and stored secret in force for a username: those of the last
/// credential listed under that name.
pub open spec fn find_credential(
    creds: Seq<(Seq<char>, PasswordType, Seq<char>)>,
    name: Seq<char>,
) -> Option<(PasswordType, Seq<char>)>
    decreases creds.len(),
{
    if creds.len() == 0 {
        None
    } else if creds.last().0 == name {
        Some((creds.last().1, creds.last().2))
    } else {
        find_credential(creds.drop_last(), name)
    }
}

/// Whether a password matches a stored secret under its scheme. Bcrypt and Argon2
/// match only when their check succeeds and says so; Blake3 matches when the
/// password's digest equals the stored digest.
pub open spec fn password_matches(scheme: PasswordType, stored: Seq<char>, password: Seq<char>) -> bool {
    match scheme {
        PasswordType::BCrypt => bcrypt_verdict(password, stored) == Some(true),
        PasswordType::Argon2 => argon2_verdict(stored, password) == Some(true),
        PasswordType::Blake3 => is_hex_digest(stored) && blake3_digest_of(password)
            == hex_digest_bytes(stored),
    }
}

/// Whether every Blake3 user of the list stores a well-formed digest.
pub open spec fn digests_valid(users: Seq<UserConfig>) -> bool {
    forall|i: int|
        0 <= i < users.len() && (#[trigger] users[i]).password_type == PasswordType::Blake3
            ==> is_hex_digest(users[i].password@)
}

/// A configuration fault found while building a provider.
#[derive(Clone, Debug, PartialEq, Eq)]
pub enum ConfigError {
    /// The named user's Blake3 secret is not 64 hexadecimal digits.
    InvalidDigest(String),
}

/// Compares two digests in full, without stopping at the first difference.
pub fn digests_equal(a: &[u8; 32], b: &[u8; 32]) -> (r: bool)
    ensures
        r == (a@ == b@),
{
    let mut same = true;
    let mut i: usize = 0;
    assert(a@.subrange(0, 0) == b@.subrange(0, 0));
    while i < 32
        invariant
            i <= 32,
            same == (a@.subrange(0, i as int) == b@.subrange(0, i as int)),
        decreases 32 - i,
    {
        proof {
            assert(a@.subrange(0, i + 1) == a@.subrange(0, i as int).push(a@[i as int]));
            assert(b@.subrange(0, i + 1) == b@.subrange(0, i as int).push(b@[i as int]));
            if a@.subrange(0, i + 1) == b@.subrange(0, i + 1) {
                assert(a@.subrange(0, i as int) == a@.subrange(0, i + 1).drop_last());
                assert(b@.subrange(0, i as int) == b@.subrange(0, i + 1).drop_last());
                assert(a@[i as int] == a@.subrange(0, i + 1).last());
            }
        }
        let equal_here = a[i] == b[i];
        same = if equal_here { same } else { false };
        i = i + 1;
    }
    assert(a@.subrange(0, 32) == a@);
    assert(b@.subrange(0, 32) == b@);
    same
}

struct StoredUser {
    username: String,
    password: String,
    password_type: PasswordType,
    blake3_hash: Option<[u8; 32]>,
}

/// Authenticates against a fixed table of users. Blake3 digests are parsed once,
/// when the table is built.
pub struct UserPassAuthenticationProvider {
    users: Vec<StoredUser>,
}

impl UserPassAuthenticationProvider {
    #[verifier::type_invariant]
    spec fn digests_parsed(self) -> bool {
        forall|i: int|
            0 <= i < self.users.len() && (#[trigger] self.users[i]).password_type
                == PasswordType::Blake3 ==> {
                &&& is_hex_digest(self.users[i].password@)
                &&& self.users[i].blake3_hash is Some
                &&& self.users[i].blake3_hash.unwrap()@ == hex_digest_bytes(
                    self.users[i].password@,
                )
            }
    }

    /// The stored credentials, in configuration order.
    pub closed spec fn credentials(self) -> Seq<(Seq<char>, PasswordType, Seq<char>)> {
        self.users@.map_values(
            |u: StoredUser| (u.username@, u.password_type, u.password@),
        )
    }

    /// Builds the table from the configured users; fails on the first Blake3
    /// secret that is not a well-formed digest.
    pub fn new(config: &Config) -> (r: Result<Self, ConfigError>)
        ensures
            r is Ok <==> digests_valid(config.users@),
            r matches Ok(p) ==> p.credentials() == credentials_of(config.users@),
            r matches Err(ConfigError::InvalidDigest(name)) ==> exists|i: int|
                0 <= i < config.users@.len() && (#[trigger] config.users@[i]).password_type
                    == PasswordType::Blake3 && !is_hex_digest(config.users@[i].password@)
                    && name@ == config.users@[i].username@,
    {
        let mut users: Vec<StoredUser> = Vec::new();
        let mut i: usize = 0;
        while i < config.users.len()
            invariant
                i <= config.users@.len(),
                users@.len() == i,
                digests_valid(config.users@.subrange(0, i as int)),
                forall|j: int|
                    0 <= j < i ==> {
                        &&& (#[trigger] users@[j]).username@ == config.users@[j].username@
                        &&& users@[j].password@ == config.users@[j].password@
                        &&& users@[j].password_type == config.users@[j].password_type
                        &&& users@[j].password_type == PasswordType::Blake3 ==> {
                            &&& is_hex_digest(users@[j].password@)
                            &&& users@[j].blake3_hash is Some
                            &&& users@[j].blake3_hash.unwrap()@ == hex_digest_bytes(
                                users@[j].password@,
                            )
                        }
                    },
            decreases config.users@.len() - i,
        {
            let user = &config.users[i];
            let blake3_hash = if user.password_type == PasswordType::Blake3 {
                match parse_blake3_hex(user.password.as_str()) {
                    Some(h) => Some(h),
                    None => {
                        assert(!digests_valid(config.users@)) by {
                            assert(config.users@[i as int] == *user);
                        }
                        return Err(ConfigError::InvalidDigest(user.username.clone()));
                    },
                }
            } else {
                None
            };
            users.push(
                StoredUser {
                    username: user.username.clone(),
                    password: user.password.clone(),
                    password_type: user.password_type,
                    blake3_hash,
                },
            );
            assert(config.users@.subrange(0, i + 1) == config.users@.subrange(0, i as int).push(
                *user,
            ));
            i = i + 1;
        }
        assert(config.users@.subrange(0, i as int) == config.users@);
        let r = UserPassAuthenticationProvider { users };
        assert(r.credentials() == credentials_of(config.users@));
        Ok(r)
    }

    /// Index of the credential in force for a username: the last one under that name.
    fn find_user(&self, name: &String) -> (r: Option<usize>)
        ensures
            match r {
                Some(i) => i < self.credentials().len() && find_credential(
                    self.credentials(),
                    name@,
                ) == Some((self.credentials()[i as int].1, self.credentials()[i as int].2)),
                None => find_credential(self.credentials(), name@) is None,
            },
    {
        let ghost creds = self.credentials();
        let mut i: usize = self.users.len();
        assert(creds.subrange(0, i as int) == creds);
        while i > 0
            invariant
                i <= self.users@.len(),
                creds == self.credentials(),
                creds.len() == self.users@.len(),
                find_credential(creds.subrange(0, i as int), name@) == find_credential(
                    creds,
                    name@,
                ),
            decreases i,
        {
            i = i - 1;
            let ghost prefix = creds.subrange(0, i + 1);
            assert(prefix.drop_last() == creds.subrange(0, i as int));
            assert(prefix.last() == creds[i as int]);
            if self.users[i].username == *name {
                return Some(i);
            }
        }
        assert(creds.subrange(0, 0).len() == 0);
        None
    }

    /// Checks a password against the stored credential at an index.
    fn check_password(&self, i: usize, password: &String) -> (r: VerifyResult)
        requires
            i < self.credentials().len(),
        ensures
            (r is Match) == password_matches(
                self.credentials()[i as int].1,
                self.credentials()[i as int].2,
                password@,
            ),
    {
        proof {
            use_type_invariant(self);
        }
        let user = &self.users[i];
        match user.password_type {
            PasswordType::BCrypt => match bcrypt_verify(password.as_str(), user.password.as_str()) {
                Ok(true) => VerifyResult::Match,
                Ok(false) => VerifyResult::NoMatch,
                Err(e) => VerifyResult::VerificationError(e),
            },
            PasswordType::Argon2 => match argon2_verify(user.password.as_str(), password.as_str()) {
                Ok(true) => VerifyResult::Match,
                Ok(false) => VerifyResult::NoMatch,
                Err(e) => VerifyResult::VerificationError(e),
            },
            PasswordType::Blake3 => {
                assert(self.users@[i as int] == *user);
                let stored = match &user.blake3_hash {
                    Some(h) => h,
                    None => {
                        return VerifyResult::NoMatch;
                    },
                };
                let given = blake3_digest(password.as_str());
                if digests_equal(&given, stored) {
                    VerifyResult::Match
                } else {
                    VerifyResult::NoMatch
                }
            },
        }
    }
}

/// A copy of a stored user.
fn copy_user(u: &StoredUser) -> (r: StoredUser)
    ensures
        r == *u,
{
    StoredUser {
        username: u.username.clone(),
        password: u.password.clone(),
        password_type: u.password_type,
        blake3_hash: u.blake3_hash,
    }
}

impl Clone for UserPassAuthenticationProvider {
    fn clone(&self) -> (r: Self)
        ensures
            r.credentials() == self.credentials(),
    {
        proof {
            use_type_invariant(self);
        }
        let mut users: Vec<StoredUser> = Vec::new();
        let mut i: usize = 0;
        while i < self.users.len()
            invariant
                i <= self.users@.len(),
                users@ == self.users@.subrange(0, i as int),
            decreases self.users@.len() - i,
        {
            users.push(copy_user(&self.users[i]));
            i = i + 1;
        }
        assert(users@ == self.users@);
        UserPassAuthenticationProvider { users }
    }
}

impl AuthenticationProvider for UserPassAuthenticationProvider {
    open spec fn accepts(&self, username: Seq<char>, password: Seq<char>) -> bool {
        match find_credential(self.credentials(), username) {
            Some(c) => password_matches(c.0, c.1, password),
            None => false,
        }
    }

    fn authenticate(&self, username: Option<String>, password: Option<String>) -> (r: Result<
        AuthOutcome,
        AuthError,
    >) {
        let user_id = match username {
            None => {
                return Ok(AuthOutcome::Anonymous);
            },
            Some(u) => u,
        };
        let password = match password {
            None => {
                return Err(AuthError::MissingCredential);
            },
            Some(p) => p,
        };
        match self.find_user(&user_id) {
            None => Err(AuthError::Mismatch),
            Some(i) => {
                let verdict = self.check_password(i, &password);
                outcome_for(user_id, verdict)
            },
        }
    }
}

} // verus!
