//! Authentication outcomes and the provider interface.

use vstd::prelude::*;

verus! {

/// Who a request was authenticated as.
#[derive(Clone, Debug, PartialEq, Eq)]
pub enum AuthOutcome {
    Anonymous,
    Authenticated(String),
}

/// Why authentication failed. Unknown users and wrong passwords share `Mismatch`.
#[derive(Copy, Clone, Debug, PartialEq, Eq, Structural)]
pub enum AuthError {
    MissingCredential,
    Mismatch,
}

/// What a password check decided.
#[derive(Clone, Debug, PartialEq, Eq)]
pub enum VerifyResult {
    Match,
    NoMatch,
    VerificationError(String),
}

/// An identity as a value: `None` for anonymous, `Some(name)` for a user.
pub open spec fn identity_of(o: AuthOutcome) -> Option<Seq<char>> {
    match o {
        AuthOutcome::Anonymous => None,
        AuthOutcome::Authenticated(name) => Some(name@),
    }
}

/// An authentication result as a value.
pub open spec fn auth_result_view(r: Result<AuthOutcome, AuthError>) -> Result<
    Option<Seq<char>>,
    AuthError,
> {
    match r {
        Ok(o) => Ok(identity_of(o)),
        Err(e) => Err(e),
    }
}

/// An optional string as an optional sequence of characters.
pub open spec fn opt_view(o: Option<String>) -> Option<Seq<char>> {
    match o {
        Some(s) => Some(s@),
        None => None,
    }
}

/// Resolves presented credentials into an identity.
pub trait AuthenticationProvider {
    /// Whether this provider accepts the password for the username.
    spec fn accepts(&self, username: Seq<char>, password: Seq<char>) -> bool;

    /// No username: anonymous, whatever the password. A username without a
    /// password: `MissingCredential`. Otherwise the user, if the provider accepts
    /// the pair, else `Mismatch`.
    fn authenticate(&self, username: Option<String>, password: Option<String>) -> (r: Result<
        AuthOutcome,
        AuthError,
    >)
        ensures
            username is None ==> auth_result_view(r) == Ok::<Option<Seq<char>>, AuthError>(
                None,
            ),
            username is Some && password is None ==> r == Err::<AuthOutcome, AuthError>(
                AuthError::MissingCredential,
            ),
            username is Some && password is Some ==> auth_result_view(r) == (if self.accepts(
                username.unwrap()@,
                password.unwrap()@,
            ) {
                Ok::<Option<Seq<char>>, AuthError>(Some(username.unwrap()@))
            } else {
                Err::<Option<Seq<char>>, AuthError>(AuthError::Mismatch)
            }),
    ;
}

/// The result that a provider owes for the presented credentials.
pub open spec fn expected_authentication<P: AuthenticationProvider>(
    provider: &P,
    username: Option<Seq<char>>,
    password: Option<Seq<char>>,
) -> Result<Option<Seq<char>>, AuthError> {
    match username {
        None => Ok(None),
        Some(u) => match password {
            None => Err(AuthError::MissingCredential),
            Some(p) => if provider.accepts(u, p) {
                Ok(Some(u))
            } else {
                Err(AuthError::Mismatch)
            },
        },
    }
}

/// Turns the verdict of a password check for a known user into an authentication
/// result: only a match authenticates; a mismatch and a failed check both give
/// `Mismatch`.
pub fn outcome_for(username: String, verdict: VerifyResult) -> (r: Result<AuthOutcome, AuthError>)
    ensures
        auth_result_view(r) == (if verdict is Match {
            Ok::<Option<Seq<char>>, AuthError>(Some(username@))
        } else {
            Err::<Option<Seq<char>>, AuthError>(AuthError::Mismatch)
        }),
{
    match verdict {
        VerifyResult::Match => Ok(AuthOutcome::Authenticated(username)),
        VerifyResult::NoMatch => Err(AuthError::Mismatch),
        VerifyResult::VerificationError(_) => Err(AuthError::Mismatch),
    }
}

} // verus!
