use vstd::prelude::*;

verus! {

/// The payload of a `push` webhook, as the sender posts it: every field may
/// be absent or empty, and the adapter decides what that means.
#[derive(Clone, Debug, PartialEq)]
pub struct PushEvent {
    pub repo_url: Option<String>,
    pub branch_url: Option<String>,
    pub commit_sha: Option<String>,
}

/// The payload of a `test` webhook.
#[derive(Clone, Debug, PartialEq)]
pub struct TestEvent {
    pub outcome: bool,
    pub error: Option<String>,
    pub message: String,
    pub test_name: String,
}

/// The fields of a push message from the broker's webhook-handler queue.
#[derive(Clone, Debug, PartialEq)]
pub struct BrokerPushFields {
    pub event_type: String,
    pub repo_url: Option<String>,
    pub branch: Option<String>,
    pub commit_sha: Option<String>,
}

/// The fields of a test-runner result, unwrapped from its `result` envelope.
#[derive(Clone, Debug, PartialEq)]
pub struct TestRunnerFields {
    pub repo_url: String,
    pub commit_sha: String,
    pub success: bool,
    pub output: String,
}

/// An externally-sourced event after normalization: a push to a repository,
/// a test-runner result, or a generic payload with no repository affinity.
/// Created by an adapter on receipt, consumed once.
#[allow(inconsistent_fields)]
#[derive(Clone, Debug, PartialEq)]
pub enum Event {
    Push { repo_url: String, branch: Option<String>, commit: Option<String> },
    TestResult { repo_url: String, commit: String, success: bool, output: String },
    Generic { event_type: String, payload: String },
}

impl Event {
    /// The repository identifier the event carries, where it has one.
    pub open spec fn repo_url_view(self) -> Option<Seq<char>> {
        match self {
            Event::Push { repo_url, .. } => Some(repo_url@),
            Event::TestResult { repo_url, .. } => Some(repo_url@),
            Event::Generic { .. } => None,
        }
    }

    /// Whether this is a test result that passed — the only events that
    /// advance progress.
    pub open spec fn is_successful_test(self) -> bool {
        match self {
            Event::TestResult { success, .. } => success,
            _ => false,
        }
    }
}

} // verus!
