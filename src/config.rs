//! Configuration values read at startup and the capability model.

use vstd::prelude::*;

verus! {

/// Whole server configuration: the repositories it serves and the users it knows.
pub struct Config {
    pub repositories: Vec<RepositoryConfig>,
    pub users: Vec<UserConfig>,
}

/// One user with the stored (hashed or encoded) form of their password.
pub struct UserConfig {
    pub username: String,
    pub password_type: PasswordType,
    pub password: String,
}

/// The scheme in which a stored password is kept.
#[derive(Copy, Clone, Debug, PartialEq, Eq, Structural)]
pub enum PasswordType {
    BCrypt,
    Argon2,
    Blake3,
}

/// How a repository stores its files.
pub enum RepositoryConfig {
    File {
        name: String,
        path: String,
        permissions: Vec<PermissionConfig>,
        authentication: AuthenticationConfig,
    },
}

/// Where a repository takes its users from.
#[derive(Copy, Clone, Debug, PartialEq, Eq, Structural)]
pub enum AuthenticationConfig {
    Yaml,
}

impl Default for AuthenticationConfig {
    fn default() -> (r: Self)
        ensures
            r == AuthenticationConfig::Yaml,
    {
        AuthenticationConfig::Yaml
    }
}

/// One permission line of a repository: either a named user's capability or,
/// with `anonymous` set, the capability of requests without a username.
#[derive(Clone)]
pub struct PermissionConfig {
    pub username: Option<String>,
    pub permission: Permission,
    pub anonymous: bool,
}

/// Capability level, ordered `NoAccess < Read < Write`.
#[derive(Copy, Clone, Debug, PartialEq, Eq, Structural)]
pub enum Permission {
    NoAccess,
    Read,
    Write,
}

impl Permission {
    /// Rank of a level in the order `NoAccess < Read < Write`.
    pub open spec fn rank(self) -> nat {
        match self {
            Permission::NoAccess => 0,
            Permission::Read => 1,
            Permission::Write => 2,
        }
    }

    /// A held level suffices for a required one when it is at least as high.
    pub open spec fn permits(self, required: Permission) -> bool {
        self.rank() >= required.rank()
    }

    /// Whether holding `self` is sufficient for an operation that requires `required`.
    pub fn is_permitted(&self, required: &Permission) -> (r: bool)
        ensures
            r == self.permits(*required),
            *required == Permission::Write ==> (r <==> *self == Permission::Write),
            *required == Permission::Read ==> (r <==> (*self == Permission::Read
                || *self == Permission::Write)),
            *required == Permission::NoAccess ==> r,
    {
        match required {
            Permission::Write => *self == Permission::Write,
            Permission::Read => *self == Permission::Write || *self == Permission::Read,
            Permission::NoAccess => true,
        }
    }
}

} // verus!
