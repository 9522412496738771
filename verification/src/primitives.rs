use vstd::prelude::*;

use crate::strutil::str_eq;

verus! {

/// How hard a challenge is.
#[derive(Clone, Copy, PartialEq, Eq, Structural, Debug)]
pub enum Difficulty {
    Easy,
    Medium,
    Hard,
}

/// The difficulty a string names, if any.
pub open spec fn difficulty_of(s: Seq<char>) -> Option<Difficulty> {
    if s == "easy"@ {
        Some(Difficulty::Easy)
    } else if s == "medium"@ {
        Some(Difficulty::Medium)
    } else if s == "hard"@ {
        Some(Difficulty::Hard)
    } else {
        None
    }
}

/// The canonical string of a difficulty.
pub open spec fn difficulty_str(d: Difficulty) -> Seq<char> {
    match d {
        Difficulty::Easy => "easy"@,
        Difficulty::Medium => "medium"@,
        Difficulty::Hard => "hard"@,
    }
}

impl Difficulty {
    pub fn from_str(difficulty: &str) -> (r: Result<Difficulty, &'static str>)
        ensures
            match difficulty_of(difficulty@) {
                Some(d) => r == Ok::<Difficulty, &'static str>(d),
                None => r matches Err(m) && m@ == "Invalid difficulty"@,
            },
    {
        if str_eq(difficulty, "easy") {
            Ok(Difficulty::Easy)
        } else if str_eq(difficulty, "medium") {
            Ok(Difficulty::Medium)
        } else if str_eq(difficulty, "hard") {
            Ok(Difficulty::Hard)
        } else {
            Err("Invalid difficulty")
        }
    }

    pub fn to_str(&self) -> (r: &'static str)
        ensures
            r@ == difficulty_str(*self),
    {
        match self {
            Difficulty::Easy => "easy",
            Difficulty::Medium => "medium",
            Difficulty::Hard => "hard",
        }
    }
}

/// How a challenge is assessed.
#[derive(Clone, Copy, PartialEq, Eq, Structural, Debug)]
pub enum ChallengeMode {
    FunctionalTest,
    Project,
}

/// The challenge mode a string names, if any.
pub open spec fn challenge_mode_of(s: Seq<char>) -> Option<ChallengeMode> {
    if s == "functional_test"@ {
        Some(ChallengeMode::FunctionalTest)
    } else if s == "project"@ {
        Some(ChallengeMode::Project)
    } else {
        None
    }
}

/// The canonical string of a challenge mode.
pub open spec fn challenge_mode_str(m: ChallengeMode) -> Seq<char> {
    match m {
        ChallengeMode::FunctionalTest => "functional_test"@,
        ChallengeMode::Project => "project"@,
    }
}

impl ChallengeMode {
    pub fn from_str(mode: &str) -> (r: Result<ChallengeMode, &'static str>)
        ensures
            match challenge_mode_of(mode@) {
                Some(m) => r == Ok::<ChallengeMode, &'static str>(m),
                None => r matches Err(e) && e@ == "Invalid challenge mode"@,
            },
    {
        if str_eq(mode, "functional_test") {
            Ok(ChallengeMode::FunctionalTest)
        } else if str_eq(mode, "project") {
            Ok(ChallengeMode::Project)
        } else {
            Err("Invalid challenge mode")
        }
    }

    pub fn to_str(&self) -> (r: &'static str)
        ensures
            r@ == challenge_mode_str(*self),
    {
        match self {
            ChallengeMode::FunctionalTest => "functional_test",
            ChallengeMode::Project => "project",
        }
    }
}

/// What a user may do.
#[derive(Clone, Copy, PartialEq, Eq, Structural, Debug)]
pub enum UserRole {
    Admin,
    User,
}

/// The role a string names, if any.
pub open spec fn user_role_of(s: Seq<char>) -> Option<UserRole> {
    if s == "admin"@ {
        Some(UserRole::Admin)
    } else if s == "user"@ {
        Some(UserRole::User)
    } else {
        None
    }
}

/// The canonical string of a role.
pub open spec fn user_role_str(r: UserRole) -> Seq<char> {
    match r {
        UserRole::Admin => "admin"@,
        UserRole::User => "user"@,
    }
}

impl UserRole {
    pub fn from_str(role: &str) -> (r: Result<UserRole, &'static str>)
        ensures
            match user_role_of(role@) {
                Some(x) => r == Ok::<UserRole, &'static str>(x),
                None => r matches Err(e) && e@ == "Invalid user role"@,
            },
    {
        if str_eq(role, "admin") {
            Ok(UserRole::Admin)
        } else if str_eq(role, "user") {
            Ok(UserRole::User)
        } else {
            Err("Invalid user role")
        }
    }

    pub fn to_str(&self) -> (r: &'static str)
        ensures
            r@ == user_role_str(*self),
    {
        match self {
            UserRole::Admin => "admin",
            UserRole::User => "user",
        }
    }
}

/// Where a user stands on a challenge.
#[derive(Clone, Copy, PartialEq, Eq, Structural, Debug)]
pub enum Status {
    Completed,
    InProgress,
    NotStarted,
}

/// The progress status a string names, if any.
pub open spec fn status_of(s: Seq<char>) -> Option<Status> {
    if s == "completed"@ {
        Some(Status::Completed)
    } else if s == "in_progress"@ {
        Some(Status::InProgress)
    } else if s == "not_started"@ {
        Some(Status::NotStarted)
    } else {
        None
    }
}

/// The canonical string of a progress status.
pub open spec fn status_str(s: Status) -> Seq<char> {
    match s {
        Status::Completed => "completed"@,
        Status::InProgress => "in_progress"@,
        Status::NotStarted => "not_started"@,
    }
}

impl Status {
    pub fn from_str(status: &str) -> (r: Result<Status, &'static str>)
        ensures
            match status_of(status@) {
                Some(x) => r == Ok::<Status, &'static str>(x),
                None => r matches Err(e) && e@ == "Invalid progress status"@,
            },
    {
        if str_eq(status, "completed") {
            Ok(Status::Completed)
        } else if str_eq(status, "in_progress") {
            Ok(Status::InProgress)
        } else if str_eq(status, "not_started") {
            Ok(Status::NotStarted)
        } else {
            Err("Invalid progress status")
        }
    }

    pub fn to_str(&self) -> (r: &'static str)
        ensures
            r@ == status_str(*self),
    {
        match self {
            Status::Completed => "completed",
            Status::InProgress => "in_progress",
            Status::NotStarted => "not_started",
        }
    }
}

/// Where a submission stands.
#[derive(Clone, Copy, PartialEq, Eq, Structural, Debug)]
pub enum SubmissionStatus {
    Pending,
    Failed,
    Passed,
}

/// The submission status a string names, if any.
pub open spec fn submission_status_of(s: Seq<char>) -> Option<SubmissionStatus> {
    if s == "pending"@ {
        Some(SubmissionStatus::Pending)
    } else if s == "failed"@ {
        Some(SubmissionStatus::Failed)
    } else if s == "passed"@ {
        Some(SubmissionStatus::Passed)
    } else {
        None
    }
}

/// The canonical string of a submission status.
pub open spec fn submission_status_str(s: SubmissionStatus) -> Seq<char> {
    match s {
        SubmissionStatus::Pending => "pending"@,
        SubmissionStatus::Failed => "failed"@,
        SubmissionStatus::Passed => "passed"@,
    }
}

impl SubmissionStatus {
    pub fn from_str(status: &str) -> (r: Result<SubmissionStatus, &'static str>)
        ensures
            match submission_status_of(status@) {
                Some(x) => r == Ok::<SubmissionStatus, &'static str>(x),
                None => r matches Err(e) && e@ == "Invalid submission status"@,
            },
    {
        if str_eq(status, "pending") {
            Ok(SubmissionStatus::Pending)
        } else if str_eq(status, "failed") {
            Ok(SubmissionStatus::Failed)
        } else if str_eq(status, "passed") {
            Ok(SubmissionStatus::Passed)
        } else {
            Err("Invalid submission status")
        }
    }

    pub fn to_str(&self) -> (r: &'static str)
        ensures
            r@ == submission_status_str(*self),
    {
        match self {
            SubmissionStatus::Pending => "pending",
            SubmissionStatus::Failed => "failed",
            SubmissionStatus::Passed => "passed",
        }
    }
}

/// The canonical string of every status names that status back: `from_str`
/// inverts `to_str`.
pub proof fn lemma_status_round_trip(s: Status)
    ensures
        status_of(status_str(s)) == Some(s),
{
    broadcast use vstd::string::group_string_axioms;

    reveal_strlit("completed");
    reveal_strlit("in_progress");
    reveal_strlit("not_started");
    assert("in_progress"@.len() == 11 && "completed"@.len() == 9 && "not_started"@.len() == 11);
    assert("in_progress"@[0] == 'i' && "not_started"@[0] == 'n');
}

} // verus!
