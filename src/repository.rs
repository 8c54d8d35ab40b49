//! Repositories: who may do what in them, and where their files lie.

use vstd::prelude::*;
use crate::auth::{
    auth_result_view, expected_authentication, opt_view, AuthError, AuthOutcome,
    AuthenticationProvider,
};
use crate::config::{Permission, PermissionConfig};
use crate::path::{
    clean_path, is_plain_absolute, is_plain_relative, is_within_root, join_path, joined, normalized,
    plain_join_is_plain, within_root,
};

verus! {

/// Why an authorization request was refused.
#[derive(Copy, Clone, Debug, PartialEq, Eq, Structural)]
pub enum AuthzError {
    /// The credentials were refused, or the user has no entry in the repository.
    Unauthenticated(AuthError),
    /// The identity's capability is below the one required. Always reported as
    /// such, never disguised as a missing file.
    Forbidden,
}

/// Why a path could not be resolved.
#[derive(Copy, Clone, Debug, PartialEq, Eq, Structural)]
pub enum PathError {
    /// The normalised path leaves the repository root.
    Escape,
}

/// An authorization result as a value.
pub open spec fn authz_result_view(r: Result<AuthOutcome, AuthzError>) -> Result<
    Option<Seq<char>>,
    AuthzError,
> {
    match r {
        Ok(o) => Ok(crate::auth::identity_of(o)),
        Err(e) => Err(e),
    }
}

/// The named-user entries of a permission list, in order, as (username, capability).
pub open spec fn user_entries(perms: Seq<PermissionConfig>) -> Seq<(Seq<char>, Permission)>
    decreases perms.len(),
{
    if perms.len() == 0 {
        Seq::empty()
    } else {
        let rest = user_entries(perms.drop_last());
        if perms.last().anonymous {
            rest
        } else {
            rest.push((perms.last().username.unwrap()@, perms.last().permission))
        }
    }
}

/// The capability of requests without a username: that of the last anonymous
/// entry, `Read` where there is none.
pub open spec fn anonymous_permission(perms: Seq<PermissionConfig>) -> Permission
    decreases perms.len(),
{
    if perms.len() == 0 {
        Permission::Read
    } else if perms.last().anonymous {
        perms.last().permission
    } else {
        anonymous_permission(perms.drop_last())
    }
}

/// The capability of a user: that of the last entry under the name.
pub open spec fn find_permission(entries: Seq<(Seq<char>, Permission)>, name: Seq<char>) -> Option<
    Permission,
>
    decreases entries.len(),
{
    if entries.len() == 0 {
        None
    } else if entries.last().0 == name {
        Some(entries.last().1)
    } else {
        find_permission(entries.drop_last(), name)
    }
}

/// Every non-anonymous entry names a user.
pub open spec fn entries_named(perms: Seq<PermissionConfig>) -> bool {
    forall|i: int|
        0 <= i < perms.len() && !(#[trigger] perms[i]).anonymous ==> perms[i].username is Some
}

/// Whether an identity holds the required capability under a table of user entries
/// and an anonymous capability. A user without an entry is refused as unauthenticated.
pub open spec fn permission_decision(
    entries: Seq<(Seq<char>, Permission)>,
    anonymous: Permission,
    identity: Option<Seq<char>>,
    required: Permission,
) -> Result<Option<Seq<char>>, AuthzError> {
    match identity {
        None => if anonymous.permits(required) {
            Ok(None)
        } else {
            Err(AuthzError::Forbidden)
        },
        Some(u) => match find_permission(entries, u) {
            None => Err(AuthzError::Unauthenticated(AuthError::Mismatch)),
            Some(p) => if p.permits(required) {
                Ok(Some(u))
            } else {
                Err(AuthzError::Forbidden)
            },
        },
    }
}

/// Where a repository's root sends a client path: the normalised join, while it
/// stays within the root.
pub open spec fn resolution(root: Seq<char>, relative: Seq<char>) -> Result<Seq<char>, PathError> {
    let full = normalized(joined(root, relative));
    if within_root(full, root) {
        Ok(full)
    } else {
        Err(PathError::Escape)
    }
}

/// A path result as a value.
pub open spec fn path_result_view(r: Result<String, PathError>) -> Result<Seq<char>, PathError> {
    match r {
        Ok(p) => Ok(p@),
        Err(e) => Err(e),
    }
}

/// A store of files under one root, with its own permissions.
pub trait Repository {
    /// The root below which every resolved path lies.
    spec fn root(&self) -> Seq<char>;

    /// The result owed to an authorization request.
    spec fn authorization(
        &self,
        username: Option<Seq<char>>,
        password: Option<Seq<char>>,
        required: Permission,
    ) -> Result<Option<Seq<char>>, AuthzError>;

    /// Resolves a client path against the root; fails with `Escape` when the
    /// normalised result leaves it. Resolution is lexical: a symbolic link inside
    /// the root that points elsewhere is not detected here.
    fn get_file(&self, path: &String) -> (r: Result<String, PathError>)
        ensures
            path_result_view(r) == resolution(self.root(), path@),
    ;

    /// Authenticates the credentials and checks the identity's capability.
    fn authorize(&self, username: Option<String>, password: Option<String>, required: &Permission) -> (r:
        Result<AuthOutcome, AuthzError>)
        ensures
            authz_result_view(r) == self.authorization(
                opt_view(username),
                opt_view(password),
                *required,
            ),
    ;
}

/// A repository of files below a directory, with user permissions and an
/// authentication provider.
pub struct FileRepository<P: AuthenticationProvider> {
    base_path: String,
    permissions: Vec<(String, Permission)>,
    anonymous: Permission,
    auth_provider: P,
}

impl<P: AuthenticationProvider> FileRepository<P> {
    /// The user entries, in order.
    pub closed spec fn entries(&self) -> Seq<(Seq<char>, Permission)> {
        self.permissions@.map_values(|e: (String, Permission)| (e.0@, e.1))
    }

    /// The capability of anonymous requests.
    pub closed spec fn anonymous_level(&self) -> Permission {
        self.anonymous
    }

    /// The provider that checks credentials.
    pub closed spec fn provider(&self) -> P {
        self.auth_provider
    }

    /// Builds a repository rooted at the normalised `path`. Anonymous requests get
    /// the capability of the last anonymous entry, `Read` without one; a user gets
    /// that of the last entry under their name.
    pub fn new(path: &String, permissions: &Vec<PermissionConfig>, auth_provider: P) -> (r: Self)
        requires
            entries_named(permissions@),
        ensures
            r.root() == normalized(path@),
            r.entries() == user_entries(permissions@),
            r.anonymous_level() == anonymous_permission(permissions@),
            r.provider() == auth_provider,
    {
        let mut map: Vec<(String, Permission)> = Vec::new();
        let mut anonymous = Permission::Read;
        let mut i: usize = 0;
        while i < permissions.len()
            invariant
                i <= permissions@.len(),
                entries_named(permissions@),
                map@.map_values(|e: (String, Permission)| (e.0@, e.1)) == user_entries(
                    permissions@.subrange(0, i as int),
                ),
                anonymous == anonymous_permission(permissions@.subrange(0, i as int)),
            decreases permissions@.len() - i,
        {
            let c = &permissions[i];
            let ghost before = permissions@.subrange(0, i as int);
            assert(permissions@.subrange(0, i + 1).drop_last() == before);
            assert(permissions@.subrange(0, i + 1).last() == *c);
            if c.anonymous {
                anonymous = c.permission;
            } else {
                assert(permissions@[i as int] == *c);
                match &c.username {
                    Some(name) => {
                        let ghost old_map = map@;
                        map.push((name.clone(), c.permission));
                        assert(map@.map_values(|e: (String, Permission)| (e.0@, e.1)) == old_map.map_values(
                            |e: (String, Permission)| (e.0@, e.1),
                        ).push((name@, c.permission)));
                    },
                    None => {},
                }
            }
            i = i + 1;
        }
        assert(permissions@.subrange(0, i as int) == permissions@);
        FileRepository { base_path: clean_path(path.as_str()), permissions: map, anonymous, auth_provider }
    }

    /// Capability of the last entry under a username.
    fn permission_of(&self, name: &String) -> (r: Option<Permission>)
        ensures
            r == find_permission(self.entries(), name@),
    {
        let ghost entries = self.entries();
        let mut i: usize = self.permissions.len();
        assert(entries.subrange(0, i as int) == entries);
        while i > 0
            invariant
                i <= self.permissions@.len(),
                entries == self.entries(),
                entries.len() == self.permissions@.len(),
                find_permission(entries.subrange(0, i as int), name@) == find_permission(
                    entries,
                    name@,
                ),
            decreases i,
        {
            i = i - 1;
            let ghost prefix = entries.subrange(0, i + 1);
            assert(prefix.drop_last() == entries.subrange(0, i as int));
            assert(prefix.last() == entries[i as int]);
            if self.permissions[i].0 == *name {
                return Some(self.permissions[i].1);
            }
        }
        None
    }

    /// Whether an authenticated or anonymous identity holds the required capability.
    /// A user without an entry is refused as unauthenticated, with the same error as
    /// a wrong password.
    pub fn is_authorized(&self, outcome: &AuthOutcome, required: &Permission) -> (r: Result<(), AuthzError>)
        ensures
            match permission_decision(
                self.entries(),
                self.anonymous_level(),
                crate::auth::identity_of(*outcome),
                *required,
            ) {
                Ok(_) => r is Ok,
                Err(e) => r == Err::<(), AuthzError>(e),
            },
    {
        match outcome {
            AuthOutcome::Anonymous => {
                if self.anonymous.is_permitted(required) {
                    Ok(())
                } else {
                    Err(AuthzError::Forbidden)
                }
            },
            AuthOutcome::Authenticated(user_id) => {
                match self.permission_of(user_id) {
                    None => Err(AuthzError::Unauthenticated(AuthError::Mismatch)),
                    Some(p) => if p.is_permitted(required) {
                        Ok(())
                    } else {
                        Err(AuthzError::Forbidden)
                    },
                }
            },
        }
    }

    /// The provider that checks this repository's credentials.
    pub fn get_auth_provider(&self) -> (r: &P)
        ensures
            *r == self.provider(),
    {
        &self.auth_provider
    }
}

impl<P: AuthenticationProvider> Repository for FileRepository<P> {
    closed spec fn root(&self) -> Seq<char> {
        self.base_path@
    }

    open spec fn authorization(
        &self,
        username: Option<Seq<char>>,
        password: Option<Seq<char>>,
        required: Permission,
    ) -> Result<Option<Seq<char>>, AuthzError> {
        match expected_authentication(&self.provider(), username, password) {
            Err(e) => Err(AuthzError::Unauthenticated(e)),
            Ok(identity) => permission_decision(
                self.entries(),
                self.anonymous_level(),
                identity,
                required,
            ),
        }
    }

    fn get_file(&self, path: &String) -> (r: Result<String, PathError>) {
        let joined_path = join_path(self.base_path.as_str(), path.as_str());
        let full_path = clean_path(joined_path.as_str());
        if !is_within_root(full_path.as_str(), self.base_path.as_str()) {
            return Err(PathError::Escape);
        }
        Ok(full_path)
    }

    fn authorize(&self, username: Option<String>, password: Option<String>, required: &Permission) -> (r:
        Result<AuthOutcome, AuthzError>) {
        let ghost u = opt_view(username);
        let ghost p = opt_view(password);
        let presented = match &username {
            Some(name) => Some(name.clone()),
            None => None,
        };
        let outcome = match self.auth_provider.authenticate(presented, password) {
            Ok(o) => o,
            Err(e) => {
                return Err(AuthzError::Unauthenticated(e));
            },
        };
        assert(auth_result_view(Ok::<AuthOutcome, AuthError>(outcome)) == expected_authentication(
            &self.provider(),
            u,
            p,
        ));
        match self.is_authorized(&outcome, required) {
            Ok(()) => Ok(outcome),
            Err(e) => Err(e),
        }
    }
}

} // verus!

verus! {

/// Sandboxing: whatever `..` or absolute components a client path holds,
/// resolution either yields a path within the root or fails with `Escape`.
pub proof fn resolution_stays_in_root(root: Seq<char>, relative: Seq<char>)
    ensures
        match resolution(root, relative) {
            Ok(p) => within_root(p, root),
            Err(e) => e == PathError::Escape,
        },
{
}

/// Round trip: a plain relative path below a plain root resolves to the root
/// joined with that path.
pub proof fn plain_path_resolves_to_join(root: Seq<char>, relative: Seq<char>)
    requires
        is_plain_absolute(root),
        is_plain_relative(relative),
    ensures
        resolution(root, relative) == Ok::<Seq<char>, PathError>(root + seq!['/'] + relative),
{
    plain_join_is_plain(root, relative);
    let q = root + seq!['/'] + relative;
    assert(q.subrange(0, root.len() as int) == root);
    assert(q[root.len() as int] == '/');
}

/// A repository whose anonymous capability is `Read` lets requests without a
/// username read and refuses them writing.
pub proof fn anonymous_read_only<P: AuthenticationProvider>(
    repository: FileRepository<P>,
    password: Option<Seq<char>>,
)
    requires
        repository.anonymous_level() == Permission::Read,
    ensures
        repository.authorization(None, password, Permission::Read) == Ok::<
            Option<Seq<char>>,
            AuthzError,
        >(None),
        repository.authorization(None, password, Permission::Write) == Err::<
            Option<Seq<char>>,
            AuthzError,
        >(AuthzError::Forbidden),
{
}

/// Authorization keeps no state: two identical requests to the same repository
/// get the same result.
pub proof fn authorization_is_repeatable<R: Repository>(
    repository: R,
    username: Option<Seq<char>>,
    password: Option<Seq<char>>,
    required: Permission,
    first: Result<AuthOutcome, AuthzError>,
    second: Result<AuthOutcome, AuthzError>,
)
    requires
        authz_result_view(first) == repository.authorization(username, password, required),
        authz_result_view(second) == repository.authorization(username, password, required),
    ensures
        authz_result_view(first) == authz_result_view(second),
{
}

} // verus!
