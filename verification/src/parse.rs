use vstd::prelude::*;

use crate::event::{BrokerPushFields, PushEvent, TestRunnerFields};

verus! {

/// The `event_type` string field of a webhook request body, when the body is
/// a JSON object carrying one. Parsing is a function of the body text alone.
pub uninterp spec fn webhook_event_type_of(body: Seq<char>) -> Option<String>;

/// The push fields of a webhook request body's `payload` object, when the
/// body is a JSON object carrying one; fields the payload lacks are absent.
pub uninterp spec fn webhook_push_of(body: Seq<char>) -> Option<PushEvent>;

/// The fields of a broker webhook-queue message, when the bytes are a JSON
/// object with an `event_type` string; optional fields may be absent.
pub uninterp spec fn broker_push_of(bytes: Seq<u8>) -> Option<BrokerPushFields>;

/// The test-runner fields inside the broker message's `result` envelope,
/// when the bytes are a JSON object carrying all of them.
pub uninterp spec fn broker_test_of(bytes: Seq<u8>) -> Option<TestRunnerFields>;

/// Relies on serde_json: parses the webhook body and reads its `event_type`
/// string field.
#[verifier::external_body]
pub(crate) fn parse_webhook_event_type(body: &str) -> (r: Option<String>)
    ensures
        r == webhook_event_type_of(body@),
{
    let v: serde_json::Value = serde_json::from_str(body).ok()?;
    Some(v.get("event_type")?.as_str()?.to_string())
}

/// Relies on serde_json: parses the webhook body and reads the push fields
/// of its `payload` object.
#[verifier::external_body]
pub(crate) fn parse_webhook_push(body: &str) -> (r: Option<PushEvent>)
    ensures
        r == webhook_push_of(body@),
{
    let v: serde_json::Value = serde_json::from_str(body).ok()?;
    let p = v.get("payload")?;
    Some(PushEvent {
        repo_url: p.get("repoUrl").and_then(|x| x.as_str()).map(|s| s.to_string()),
        branch_url: p.get("branchUrl").and_then(|x| x.as_str()).map(|s| s.to_string()),
        commit_sha: p.get("commitSha").and_then(|x| x.as_str()).map(|s| s.to_string()),
    })
}

/// Relies on serde_json: parses a broker webhook-queue message into its
/// fields.
#[verifier::external_body]
pub(crate) fn parse_broker_push(bytes: &[u8]) -> (r: Option<BrokerPushFields>)
    ensures
        r == broker_push_of(bytes@),
{
    let v: serde_json::Value = serde_json::from_slice(bytes).ok()?;
    Some(BrokerPushFields {
        event_type: v.get("event_type")?.as_str()?.to_string(),
        repo_url: v.get("repoUrl").and_then(|x| x.as_str()).map(|s| s.to_string()),
        branch: v.get("branch").and_then(|x| x.as_str()).map(|s| s.to_string()),
        commit_sha: v.get("commitSha").and_then(|x| x.as_str()).map(|s| s.to_string()),
    })
}

/// Relies on serde_json: parses a broker test-runner message, unwrapping its
/// `result` envelope; every field is required.
#[verifier::external_body]
pub(crate) fn parse_broker_test(bytes: &[u8]) -> (r: Option<TestRunnerFields>)
    ensures
        r == broker_test_of(bytes@),
{
    let v: serde_json::Value = serde_json::from_slice(bytes).ok()?;
    let res = v.get("result")?;
    Some(TestRunnerFields {
        repo_url: res.get("repoUrl")?.as_str()?.to_string(),
        commit_sha: res.get("commitSha")?.as_str()?.to_string(),
        success: res.get("success")?.as_bool()?,
        output: res.get("output")?.as_str()?.to_string(),
    })
}

} // verus!
