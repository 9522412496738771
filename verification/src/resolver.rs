use vstd::prelude::*;

use crate::primitives::Status;

verus! {

/// What the session resolver reads of a repository row: who owns it.
#[derive(Clone, Debug, PartialEq)]
pub struct Repository {
    pub user_id: u128,
}

/// What the subsystem reads of a session row: the token its connections
/// authenticate with, the owning user, and when it expires (seconds on the
/// persistence collaborator's clock). Never mutated here.
#[derive(Clone, Debug, PartialEq)]
pub struct SessionRecord {
    pub token: String,
    pub user_id: u128,
    pub expires_at: i64,
}

/// What the subsystem reads of a progress row after the updater ran: whose
/// it is, where the user stands, and the step counter.
#[derive(Clone, Debug, PartialEq)]
pub struct ProgressRecord {
    pub user_id: u128,
    pub status: Status,
    pub current_step: i64,
}

/// Why resolution failed: the repository url is unknown, or its owner has no
/// live session. Both are non-retryable for the event that hit them.
#[derive(Clone, Copy, PartialEq, Eq, Structural, Debug)]
pub enum ResolveError {
    RepositoryNotFound,
    SessionNotFound,
}

/// Resolves a repository identifier to the owning session, given what the
/// persistence collaborator answered to the two lookups it is made of:
/// the repository by url, then the session of that repository's owner. A
/// miss at either step fails the resolution; this function holds no state of
/// its own.
pub fn resolve(repo: Option<Repository>, session: Option<SessionRecord>) -> (r: Result<
    SessionRecord,
    ResolveError,
>)
    ensures
        repo is None ==> r == Err::<SessionRecord, ResolveError>(ResolveError::RepositoryNotFound),
        repo is Some && session is None ==> r == Err::<SessionRecord, ResolveError>(
            ResolveError::SessionNotFound,
        ),
        session matches Some(s) ==> (repo is Some ==> r == Ok::<SessionRecord, ResolveError>(s)),
{
    match repo {
        None => Err(ResolveError::RepositoryNotFound),
        Some(_) => match session {
            None => Err(ResolveError::SessionNotFound),
            Some(s) => Ok(s),
        },
    }
}

} // verus!
