use vstd::prelude::*;

use crate::event::Event;
use crate::parse;
use crate::resolver::{ProgressRecord, Repository, SessionRecord};
use crate::strutil::{ascii_lower_seq, eq_ignore_ascii_case};

verus! {

/// Where the shared ingestion pipeline of an adapter stands: waiting for one
/// of the persistence collaborator's answers, or done with an outcome.
#[derive(Debug, PartialEq)]
pub enum AdapterStage {
    AwaitRepository { event: Event },
    AwaitSession { event: Event },
    AwaitProgress { event: Event, token: String, user_id: u128 },
    Done { outcome: AdapterOutcome },
}

/// How the pipeline of one event ended.
#[derive(Clone, Copy, PartialEq, Eq, Structural, Debug)]
pub enum AdapterOutcome {
    /// The message was handed to the registry for fan-out.
    Delivered,
    /// The event was recognized and accepted, with no fan-out owed.
    AcceptedNoDelivery,
    /// The payload was undecodable or missing its repository identifier:
    /// non-retryable input error.
    MalformedInput,
    /// The event type is not one this platform routes.
    UnknownEventType,
    /// The repository or its owner's session was not found, or progress could
    /// not be advanced: non-retryable for this event.
    ResolutionFailed,
    /// The registry could not be reached for delivery.
    DeliveryFailed,
}

/// What the pipeline asks its surroundings to do next: one lookup or side
/// effect per step.
#[derive(Debug, PartialEq)]
pub enum AdapterAction {
    FindRepository { repo_url: String },
    FindSessionByUser { user_id: u128 },
    AdvanceProgress { user_id: u128 },
    Deliver { token: String, event: Event, progress: Option<ProgressRecord> },
}

/// The repository identifier an event carries, if any.
pub open spec fn event_repo_url(event: Event) -> Option<String> {
    match event {
        Event::Push { repo_url, .. } => Some(repo_url),
        Event::TestResult { repo_url, .. } => Some(repo_url),
        Event::Generic { .. } => None,
    }
}

/// The first step of the pipeline: an event without a repository identifier,
/// or with an empty one, is rejected outright; any other event waits for the
/// repository lookup.
pub open spec fn begin_spec(event: Event) -> (AdapterStage, Option<AdapterAction>) {
    match event_repo_url(event) {
        Some(url) => if url@.len() > 0 {
            (
                AdapterStage::AwaitRepository { event },
                Some(AdapterAction::FindRepository { repo_url: url }),
            )
        } else {
            (AdapterStage::Done { outcome: AdapterOutcome::MalformedInput }, None)
        },
        None => (AdapterStage::Done { outcome: AdapterOutcome::MalformedInput }, None),
    }
}

/// The second step: a missing repository fails resolution at once; a found
/// one waits for its owner's session.
pub open spec fn on_repository_spec(event: Event, reply: Option<Repository>) -> (
    AdapterStage,
    Option<AdapterAction>,
) {
    match reply {
        None => (AdapterStage::Done { outcome: AdapterOutcome::ResolutionFailed }, None),
        Some(repo) => (
            AdapterStage::AwaitSession { event },
            Some(AdapterAction::FindSessionByUser { user_id: repo.user_id }),
        ),
    }
}

/// The third step: a missing session fails resolution; with a session in
/// hand, a successful test result first advances the owner's progress, and
/// every other event is delivered to the session as it is.
pub open spec fn on_session_spec(event: Event, reply: Option<SessionRecord>) -> (
    AdapterStage,
    Option<AdapterAction>,
) {
    match reply {
        None => (AdapterStage::Done { outcome: AdapterOutcome::ResolutionFailed }, None),
        Some(sess) => if event.is_successful_test() {
            (
                AdapterStage::AwaitProgress { event, token: sess.token, user_id: sess.user_id },
                Some(AdapterAction::AdvanceProgress { user_id: sess.user_id }),
            )
        } else {
            (
                AdapterStage::Done { outcome: AdapterOutcome::Delivered },
                Some(AdapterAction::Deliver { token: sess.token, event, progress: None }),
            )
        },
    }
}

/// The last step, reached only for successful test results: a failed
/// progress update fails the event (a stale or partial update is never
/// delivered); a successful one is merged into the outbound message.
pub open spec fn on_progress_spec(
    event: Event,
    token: String,
    reply: Option<ProgressRecord>,
) -> (AdapterStage, Option<AdapterAction>) {
    match reply {
        None => (AdapterStage::Done { outcome: AdapterOutcome::ResolutionFailed }, None),
        Some(p) => (
            AdapterStage::Done { outcome: AdapterOutcome::Delivered },
            Some(AdapterAction::Deliver { token, event, progress: Some(p) }),
        ),
    }
}

/// Starts the pipeline on a normalized event.
pub fn begin(event: Event) -> (r: (AdapterStage, Option<AdapterAction>))
    ensures
        r == begin_spec(event),
{
    let url_opt: Option<String> = match &event {
        Event::Push { repo_url, .. } => Some(repo_url.clone()),
        Event::TestResult { repo_url, .. } => Some(repo_url.clone()),
        Event::Generic { .. } => None,
    };
    match url_opt {
        Some(url) => {
            if url.as_str().is_empty() {
                (AdapterStage::Done { outcome: AdapterOutcome::MalformedInput }, None)
            } else {
                (
                    AdapterStage::AwaitRepository { event },
                    Some(AdapterAction::FindRepository { repo_url: url }),
                )
            }
        },
        None => (AdapterStage::Done { outcome: AdapterOutcome::MalformedInput }, None),
    }
}

/// Feeds the repository lookup's answer to a waiting pipeline.
pub fn on_repository(stage: AdapterStage, reply: Option<Repository>) -> (r: (
    AdapterStage,
    Option<AdapterAction>,
))
    requires
        stage matches AdapterStage::AwaitRepository { .. },
    ensures
        stage matches AdapterStage::AwaitRepository { event } ==> r == on_repository_spec(
            event,
            reply,
        ),
{
    match stage {
        AdapterStage::AwaitRepository { event } => match reply {
            None => (AdapterStage::Done { outcome: AdapterOutcome::ResolutionFailed }, None),
            Some(repo) => (
                AdapterStage::AwaitSession { event },
                Some(AdapterAction::FindSessionByUser { user_id: repo.user_id }),
            ),
        },
        _ => {
            proof {
                assert(false);
            }
            (AdapterStage::Done { outcome: AdapterOutcome::ResolutionFailed }, None)
        },
    }
}

/// Feeds the session lookup's answer to a waiting pipeline.
pub fn on_session(stage: AdapterStage, reply: Option<SessionRecord>) -> (r: (
    AdapterStage,
    Option<AdapterAction>,
))
    requires
        stage matches AdapterStage::AwaitSession { .. },
    ensures
        stage matches AdapterStage::AwaitSession { event } ==> r == on_session_spec(event, reply),
{
    match stage {
        AdapterStage::AwaitSession { event } => match reply {
            None => (AdapterStage::Done { outcome: AdapterOutcome::ResolutionFailed }, None),
            Some(sess) => {
                let successful_test = match &event {
                    Event::TestResult { success, .. } => *success,
                    _ => false,
                };
                if successful_test {
                    let user_id = sess.user_id;
                    (
                        AdapterStage::AwaitProgress { event, token: sess.token, user_id },
                        Some(AdapterAction::AdvanceProgress { user_id }),
                    )
                } else {
                    (
                        AdapterStage::Done { outcome: AdapterOutcome::Delivered },
                        Some(
                            AdapterAction::Deliver { token: sess.token, event, progress: None },
                        ),
                    )
                }
            },
        },
        _ => {
            proof {
                assert(false);
            }
            (AdapterStage::Done { outcome: AdapterOutcome::ResolutionFailed }, None)
        },
    }
}

/// Feeds the progress updater's answer to a waiting pipeline.
pub fn on_progress(stage: AdapterStage, reply: Option<ProgressRecord>) -> (r: (
    AdapterStage,
    Option<AdapterAction>,
))
    requires
        stage matches AdapterStage::AwaitProgress { .. },
    ensures
        stage matches AdapterStage::AwaitProgress { event, token, user_id } ==> r
            == on_progress_spec(event, token, reply),
{
    match stage {
        AdapterStage::AwaitProgress { event, token, user_id: _ } => match reply {
            None => (AdapterStage::Done { outcome: AdapterOutcome::ResolutionFailed }, None),
            Some(p) => (
                AdapterStage::Done { outcome: AdapterOutcome::Delivered },
                Some(AdapterAction::Deliver { token, event, progress: Some(p) }),
            ),
        },
        _ => {
            proof {
                assert(false);
            }
            (AdapterStage::Done { outcome: AdapterOutcome::ResolutionFailed }, None)
        },
    }
}

/// How the webhook receiver starts the pipeline, given what the body parsed
/// to: an undecodable body is malformed; a `push` event (matched without
/// regard to ASCII case) with a repository url enters the pipeline; a `test`
/// event is accepted with no fan-out owed; anything else is unrecognized.
pub open spec fn webhook_begin_spec(
    et: Option<String>,
    push: Option<crate::event::PushEvent>,
) -> (AdapterStage, Option<AdapterAction>) {
    match et {
        None => (AdapterStage::Done { outcome: AdapterOutcome::MalformedInput }, None),
        Some(t) => if ascii_lower_seq(t@) == ascii_lower_seq("push"@) {
            match push {
                None => (AdapterStage::Done { outcome: AdapterOutcome::MalformedInput }, None),
                Some(p) => match p.repo_url {
                    Some(url) => begin_spec(
                        Event::Push { repo_url: url, branch: p.branch_url, commit: p.commit_sha },
                    ),
                    None => (
                        AdapterStage::Done { outcome: AdapterOutcome::MalformedInput },
                        None,
                    ),
                },
            }
        } else if ascii_lower_seq(t@) == ascii_lower_seq("test"@) {
            (AdapterStage::Done { outcome: AdapterOutcome::AcceptedNoDelivery }, None)
        } else {
            (AdapterStage::Done { outcome: AdapterOutcome::UnknownEventType }, None)
        },
    }
}

/// Normalizes a webhook request body and starts the pipeline on it.
pub fn handle_webhook(body: &str) -> (r: (AdapterStage, Option<AdapterAction>))
    ensures
        r == webhook_begin_spec(
            parse::webhook_event_type_of(body@),
            parse::webhook_push_of(body@),
        ),
{
    match parse::parse_webhook_event_type(body) {
        None => (AdapterStage::Done { outcome: AdapterOutcome::MalformedInput }, None),
        Some(t) => {
            if eq_ignore_ascii_case(t.as_str(), "push") {
                match parse::parse_webhook_push(body) {
                    None => (AdapterStage::Done { outcome: AdapterOutcome::MalformedInput }, None),
                    Some(p) => match p.repo_url {
                        Some(url) => begin(
                            Event::Push {
                                repo_url: url,
                                branch: p.branch_url,
                                commit: p.commit_sha,
                            },
                        ),
                        None => (
                            AdapterStage::Done { outcome: AdapterOutcome::MalformedInput },
                            None,
                        ),
                    },
                }
            } else if eq_ignore_ascii_case(t.as_str(), "test") {
                (AdapterStage::Done { outcome: AdapterOutcome::AcceptedNoDelivery }, None)
            } else {
                (AdapterStage::Done { outcome: AdapterOutcome::UnknownEventType }, None)
            }
        },
    }
}

/// How the broker's webhook-queue consumer starts the pipeline: undecodable
/// bytes are malformed; a `push` message with a repository url enters the
/// pipeline; other event types are not routed.
pub open spec fn broker_push_begin_spec(fields: Option<crate::event::BrokerPushFields>) -> (
    AdapterStage,
    Option<AdapterAction>,
) {
    match fields {
        None => (AdapterStage::Done { outcome: AdapterOutcome::MalformedInput }, None),
        Some(f) => if ascii_lower_seq(f.event_type@) == ascii_lower_seq("push"@) {
            match f.repo_url {
                Some(url) => begin_spec(
                    Event::Push { repo_url: url, branch: f.branch, commit: f.commit_sha },
                ),
                None => (AdapterStage::Done { outcome: AdapterOutcome::MalformedInput }, None),
            }
        } else {
            (AdapterStage::Done { outcome: AdapterOutcome::UnknownEventType }, None)
        },
    }
}

/// Normalizes one broker webhook-queue message and starts the pipeline.
pub fn handle_broker_push(bytes: &[u8]) -> (r: (AdapterStage, Option<AdapterAction>))
    ensures
        r == broker_push_begin_spec(parse::broker_push_of(bytes@)),
{
    match parse::parse_broker_push(bytes) {
        None => (AdapterStage::Done { outcome: AdapterOutcome::MalformedInput }, None),
        Some(f) => {
            if eq_ignore_ascii_case(f.event_type.as_str(), "push") {
                match f.repo_url {
                    Some(url) => begin(
                        Event::Push { repo_url: url, branch: f.branch, commit: f.commit_sha },
                    ),
                    None => (AdapterStage::Done { outcome: AdapterOutcome::MalformedInput }, None),
                }
            } else {
                (AdapterStage::Done { outcome: AdapterOutcome::UnknownEventType }, None)
            }
        },
    }
}

/// How the broker's test-runner-queue consumer starts the pipeline:
/// undecodable bytes (or a missing field) are malformed; anything else is a
/// test result entering the pipeline.
pub open spec fn broker_test_begin_spec(fields: Option<crate::event::TestRunnerFields>) -> (
    AdapterStage,
    Option<AdapterAction>,
) {
    match fields {
        None => (AdapterStage::Done { outcome: AdapterOutcome::MalformedInput }, None),
        Some(f) => begin_spec(
            Event::TestResult {
                repo_url: f.repo_url,
                commit: f.commit_sha,
                success: f.success,
                output: f.output,
            },
        ),
    }
}

/// Normalizes one broker test-runner message and starts the pipeline.
pub fn handle_broker_test(bytes: &[u8]) -> (r: (AdapterStage, Option<AdapterAction>))
    ensures
        r == broker_test_begin_spec(parse::broker_test_of(bytes@)),
{
    match parse::parse_broker_test(bytes) {
        None => (AdapterStage::Done { outcome: AdapterOutcome::MalformedInput }, None),
        Some(f) => begin(
            Event::TestResult {
                repo_url: f.repo_url,
                commit: f.commit_sha,
                success: f.success,
                output: f.output,
            },
        ),
    }
}

/// The singleton or empty sequence an optional action contributes to a
/// run's trace.
pub open spec fn opt_action_seq(a: Option<AdapterAction>) -> Seq<AdapterAction> {
    match a {
        Some(x) => seq![x],
        None => Seq::<AdapterAction>::empty(),
    }
}

/// The whole pipeline of one event as a function of the collaborator's
/// replies: every action requested, in the order requested, and the outcome
/// the run ends with.
pub open spec fn run_spec(
    event: Event,
    repo: Option<Repository>,
    session: Option<SessionRecord>,
    prog: Option<ProgressRecord>,
) -> (Seq<AdapterAction>, AdapterOutcome) {
    let b = begin_spec(event);
    match b.0 {
        AdapterStage::Done { outcome } => (opt_action_seq(b.1), outcome),
        _ => {
            let a1 = opt_action_seq(b.1);
            let r = on_repository_spec(event, repo);
            match r.0 {
                AdapterStage::Done { outcome } => (a1 + opt_action_seq(r.1), outcome),
                _ => {
                    let a2 = a1 + opt_action_seq(r.1);
                    let s = on_session_spec(event, session);
                    match s.0 {
                        AdapterStage::Done { outcome } => (a2 + opt_action_seq(s.1), outcome),
                        AdapterStage::AwaitProgress { event: e2, token, user_id } => {
                            let a3 = a2 + opt_action_seq(s.1);
                            let p = on_progress_spec(e2, token, prog);
                            match p.0 {
                                AdapterStage::Done { outcome } => (
                                    a3 + opt_action_seq(p.1),
                                    outcome,
                                ),
                                _ => (a3, AdapterOutcome::ResolutionFailed),
                            }
                        },
                        _ => (a2, AdapterOutcome::ResolutionFailed),
                    }
                },
            }
        },
    }
}

/// Law: an event whose repository identifier is unknown to the persistence
/// collaborator never advances progress and never delivers. Whatever the
/// other collaborators would have answered, the run asks at most for the
/// repository lookup, every action it requests is that lookup, and it never
/// ends delivered.
pub proof fn lemma_unresolved_repo_never_delivers(
    event: Event,
    session: Option<SessionRecord>,
    prog: Option<ProgressRecord>,
)
    ensures
        run_spec(event, None, session, prog).1 != AdapterOutcome::Delivered,
        forall|i: int|
            0 <= i < run_spec(event, None, session, prog).0.len() ==> (
            #[trigger] run_spec(event, None, session, prog).0[i]) matches
                AdapterAction::FindRepository { .. },
{
    let run = run_spec(event, None, session, prog);
    match begin_spec(event).0 {
        AdapterStage::Done { outcome } => {
            assert(begin_spec(event).1 is None);
            assert(run.0.len() == 0);
        },
        _ => {
            assert(on_repository_spec(event, None).0 == (AdapterStage::Done {
                outcome: AdapterOutcome::ResolutionFailed,
            }));
            assert(on_repository_spec(event, None).1 is None);
            assert(run.1 == AdapterOutcome::ResolutionFailed);
            assert(run.0.len() == 1);
            assert(run.0[0] matches AdapterAction::FindRepository { .. });
        },
    }
}

/// The status the webhook endpoint answers with for each outcome: 200 when
/// the event was delivered or accepted, 400 for malformed input or an
/// unrecognized event type, 404 for an unresolved repository, 500 for a
/// delivery failure.
pub fn webhook_status(outcome: AdapterOutcome) -> (r: u16)
    ensures
        outcome == AdapterOutcome::Delivered ==> r == 200,
        outcome == AdapterOutcome::AcceptedNoDelivery ==> r == 200,
        outcome == AdapterOutcome::MalformedInput ==> r == 400,
        outcome == AdapterOutcome::UnknownEventType ==> r == 400,
        outcome == AdapterOutcome::ResolutionFailed ==> r == 404,
        outcome == AdapterOutcome::DeliveryFailed ==> r == 500,
{
    match outcome {
        AdapterOutcome::Delivered => 200,
        AdapterOutcome::AcceptedNoDelivery => 200,
        AdapterOutcome::MalformedInput => 400,
        AdapterOutcome::UnknownEventType => 400,
        AdapterOutcome::ResolutionFailed => 404,
        AdapterOutcome::DeliveryFailed => 500,
    }
}

/// What the broker consumer does with the message for each outcome: a
/// delivered message is acknowledged, as is one the platform does not route;
/// a malformed payload is negatively acknowledged; resolution and delivery
/// failures are surfaced to the consumer's supervisor instead of being
/// silently dropped.
#[derive(Clone, Copy, PartialEq, Eq, Structural, Debug)]
pub enum BrokerDisposition {
    Ack,
    NackRequeue,
    SupervisorError,
}

/// Maps a pipeline outcome to the broker acknowledgment decision.
pub fn broker_disposition(outcome: AdapterOutcome) -> (r: BrokerDisposition)
    ensures
        outcome == AdapterOutcome::Delivered ==> r == BrokerDisposition::Ack,
        outcome == AdapterOutcome::AcceptedNoDelivery ==> r == BrokerDisposition::Ack,
        outcome == AdapterOutcome::UnknownEventType ==> r == BrokerDisposition::Ack,
        outcome == AdapterOutcome::MalformedInput ==> r == BrokerDisposition::NackRequeue,
        outcome == AdapterOutcome::ResolutionFailed ==> r == BrokerDisposition::SupervisorError,
        outcome == AdapterOutcome::DeliveryFailed ==> r == BrokerDisposition::SupervisorError,
{
    match outcome {
        AdapterOutcome::Delivered => BrokerDisposition::Ack,
        AdapterOutcome::AcceptedNoDelivery => BrokerDisposition::Ack,
        AdapterOutcome::UnknownEventType => BrokerDisposition::Ack,
        AdapterOutcome::MalformedInput => BrokerDisposition::NackRequeue,
        AdapterOutcome::ResolutionFailed => BrokerDisposition::SupervisorError,
        AdapterOutcome::DeliveryFailed => BrokerDisposition::SupervisorError,
    }
}

} // verus!
