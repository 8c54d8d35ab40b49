//! The repositories a server offers, by name, and the handling of one request.

use vstd::prelude::*;
use crate::auth::opt_view;
use crate::config::Permission;
use crate::path::{
    is_plain_absolute, is_plain_relative, normalized, plain_relative_is_kept, sanitize_relative,
    within_root, without_parent_prefix,
};
use crate::repository::{
    plain_path_resolves_to_join, resolution, resolution_stays_in_root, AuthzError, Repository,
};

verus! {

/// The map that a list of registrations defines: a later one under a name
/// replaces an earlier one.
pub open spec fn registry_map<R>(entries: Seq<(Seq<char>, R)>) -> Map<Seq<char>, R>
    decreases entries.len(),
{
    if entries.len() == 0 {
        Map::empty()
    } else {
        registry_map(entries.drop_last()).insert(entries.last().0, entries.last().1)
    }
}

/// Repositories by name.
pub struct RepositoryRegistry<R: Repository> {
    repositories: Vec<(String, R)>,
}

impl<R: Repository> View for RepositoryRegistry<R> {
    type V = Map<Seq<char>, R>;

    closed spec fn view(&self) -> Map<Seq<char>, R> {
        registry_map(self.repositories@.map_values(|e: (String, R)| (e.0@, e.1)))
    }
}

impl<R: Repository> RepositoryRegistry<R> {
    /// A registry without repositories.
    pub fn new() -> (r: Self)
        ensures
            r@ == Map::<Seq<char>, R>::empty(),
    {
        RepositoryRegistry { repositories: Vec::new() }
    }

    /// Registers a repository under a name, replacing any earlier one of that name.
    pub fn insert(&mut self, name: String, repository: R)
        ensures
            final(self)@ == old(self)@.insert(name@, repository),
    {
        let ghost before = self.repositories@.map_values(|e: (String, R)| (e.0@, e.1));
        self.repositories.push((name, repository));
        assert(self.repositories@.map_values(|e: (String, R)| (e.0@, e.1)).drop_last() == before);
    }

    /// The repository registered under a name.
    pub fn get_repository(&self, name: &String) -> (r: Option<&R>)
        ensures
            match r {
                Some(repo) => self@.contains_key(name@) && self@[name@] == *repo,
                None => !self@.contains_key(name@),
            },
    {
        let ghost entries = self.repositories@.map_values(|e: (String, R)| (e.0@, e.1));
        let mut i: usize = self.repositories.len();
        assert(entries.subrange(0, i as int) == entries);
        while i > 0
            invariant
                i <= self.repositories@.len(),
                entries == self.repositories@.map_values(|e: (String, R)| (e.0@, e.1)),
                self@ == registry_map(entries),
                registry_map(entries.subrange(0, i as int)).contains_key(name@)
                    == self@.contains_key(name@),
                self@.contains_key(name@) ==> registry_map(entries.subrange(0, i as int))[name@]
                    == self@[name@],
            decreases i,
        {
            i = i - 1;
            let ghost prefix = entries.subrange(0, i + 1);
            assert(prefix.drop_last() == entries.subrange(0, i as int));
            assert(prefix.last() == entries[i as int]);
            if self.repositories[i].0 == *name {
                return Some(&self.repositories[i].1);
            }
        }
        None
    }
}

/// Why a request for a file was refused.
#[derive(Copy, Clone, Debug, PartialEq, Eq, Structural)]
pub enum RequestError {
    /// No repository has the requested name.
    RepositoryNotFound,
    /// Authentication or authorization failed.
    Denied(AuthzError),
    /// The path leaves the repository.
    InvalidPath,
}

/// The result owed to a request: the repository is looked up, the credentials are
/// authorized for the required capability, and the client path, normalised and
/// without a leading `..` component, is resolved inside the repository.
pub open spec fn request_resolution<R: Repository>(
    repositories: Map<Seq<char>, R>,
    name: Seq<char>,
    path: Seq<char>,
    username: Option<Seq<char>>,
    password: Option<Seq<char>>,
    required: Permission,
) -> Result<Seq<char>, RequestError> {
    if !repositories.contains_key(name) {
        Err(RequestError::RepositoryNotFound)
    } else {
        let repo = repositories[name];
        match repo.authorization(username, password, required) {
            Err(e) => Err(RequestError::Denied(e)),
            Ok(_) => match resolution(repo.root(), without_parent_prefix(normalized(path))) {
                Ok(p) => Ok(p),
                Err(_) => Err(RequestError::InvalidPath),
            },
        }
    }
}

/// Handles a request for a file: finds the repository, authorizes the credentials
/// for the required capability and resolves the path inside the repository.
pub fn resolve_request<R: Repository>(
    registry: &RepositoryRegistry<R>,
    repository: &String,
    path: &String,
    username: Option<String>,
    password: Option<String>,
    required: &Permission,
) -> (r: Result<String, RequestError>)
    ensures
        match request_resolution(
            registry@,
            repository@,
            path@,
            opt_view(username),
            opt_view(password),
            *required,
        ) {
            Ok(p) => r matches Ok(q) && q@ == p,
            Err(e) => r == Err::<String, RequestError>(e),
        },
{
    let repo = match registry.get_repository(repository) {
        Some(repo) => repo,
        None => {
            return Err(RequestError::RepositoryNotFound);
        },
    };
    match repo.authorize(username, password, required) {
        Ok(_) => {},
        Err(e) => {
            return Err(RequestError::Denied(e));
        },
    }
    let relative = sanitize_relative(path.as_str());
    match repo.get_file(&relative) {
        Ok(p) => Ok(p),
        Err(_) => Err(RequestError::InvalidPath),
    }
}

} // verus!

verus! {

/// Sandboxing for whole requests: a path handed out for a request lies within the
/// root of the requested repository.
pub proof fn request_stays_in_root<R: Repository>(
    repositories: Map<Seq<char>, R>,
    name: Seq<char>,
    path: Seq<char>,
    username: Option<Seq<char>>,
    password: Option<Seq<char>>,
    required: Permission,
)
    ensures
        request_resolution(repositories, name, path, username, password, required) matches Ok(p)
            ==> repositories.contains_key(name) && within_root(p, repositories[name].root()),
{
    resolution_stays_in_root(
        repositories[name].root(),
        without_parent_prefix(normalized(path)),
    );
}

/// Round trip for whole requests: an authorized request for a plain relative path
/// in a repository with a plain root gets the root joined with that path.
pub proof fn plain_request_resolves_to_join<R: Repository>(
    repositories: Map<Seq<char>, R>,
    name: Seq<char>,
    path: Seq<char>,
    username: Option<Seq<char>>,
    password: Option<Seq<char>>,
    required: Permission,
)
    requires
        repositories.contains_key(name),
        is_plain_absolute(repositories[name].root()),
        is_plain_relative(path),
        repositories[name].authorization(username, password, required) is Ok,
    ensures
        request_resolution(repositories, name, path, username, password, required) == Ok::<
            Seq<char>,
            RequestError,
        >(repositories[name].root() + seq!['/'] + path),
{
    plain_relative_is_kept(path);
    plain_path_resolves_to_join(repositories[name].root(), path);
}

} // verus!
