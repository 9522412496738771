use hxckr_core::adapter::{
    begin, broker_disposition, handle_broker_push, handle_broker_test, handle_webhook,
    on_progress, on_repository, on_session, webhook_status, AdapterAction, AdapterOutcome,
    AdapterStage, BrokerDisposition,
};
use hxckr_core::event::Event;
use hxckr_core::message::Frame;
use hxckr_core::primitives::Status;
use hxckr_core::registry::WebSocketManager;
use hxckr_core::resolver::{resolve, ProgressRecord, Repository, ResolveError, SessionRecord};

fn session(token: &str, user_id: u128) -> SessionRecord {
    SessionRecord { token: token.to_string(), user_id, expires_at: i64::MAX }
}

#[test]
fn broker_test_message_with_progress_is_delivered_and_acked() {
    // a successful test result arrives from the broker
    let body =
        br#"{"result":{"repoUrl":"https://git.example/u/repo","commitSha":"abc123","success":true,"output":"ok"}}"#;
    let (stage, action) = handle_broker_test(body);
    assert_eq!(
        action,
        Some(AdapterAction::FindRepository { repo_url: "https://git.example/u/repo".to_string() })
    );

    // the repository resolves to user U, whose live session is tok-B
    let user_u: u128 = 77;
    let (stage, action) = on_repository(stage, Some(Repository { user_id: user_u }));
    assert_eq!(action, Some(AdapterAction::FindSessionByUser { user_id: user_u }));

    // a successful test result advances the user's progress first
    let (stage, action) = on_session(stage, Some(session("tok-B", user_u)));
    assert_eq!(action, Some(AdapterAction::AdvanceProgress { user_id: user_u }));

    // the updated progress is merged into the outbound message
    let prog = ProgressRecord { user_id: user_u, status: Status::InProgress, current_step: 2 };
    let (stage, action) = on_progress(stage, Some(prog.clone()));
    let expected_event = Event::TestResult {
        repo_url: "https://git.example/u/repo".to_string(),
        commit: "abc123".to_string(),
        success: true,
        output: "ok".to_string(),
    };
    assert_eq!(
        action,
        Some(AdapterAction::Deliver {
            token: "tok-B".to_string(),
            event: expected_event,
            progress: Some(prog),
        })
    );
    let outcome = match stage {
        AdapterStage::Done { outcome } => outcome,
        other => panic!("pipeline not done: {:?}", other),
    };
    assert_eq!(outcome, AdapterOutcome::Delivered);

    // every connection under tok-B receives the combined message
    let mut reg = WebSocketManager::new();
    let c1 = reg.register("tok-B", 0);
    let c2 = reg.register("tok-B", 0);
    let message = Frame::Text("combined result and progress".to_string());
    reg.broadcast_to_session("tok-B", &message);
    assert_eq!(reg.take_outgoing(c1).len(), 1);
    assert_eq!(reg.take_outgoing(c2).len(), 1);

    // and the broker message is acknowledged
    assert_eq!(broker_disposition(outcome), BrokerDisposition::Ack);
}

#[test]
fn failed_test_result_skips_the_progress_updater() {
    let body =
        br#"{"result":{"repoUrl":"https://git.example/u/repo","commitSha":"abc123","success":false,"output":"ok"}}"#;
    let (stage, _) = handle_broker_test(body);
    let (stage, _) = on_repository(stage, Some(Repository { user_id: 77 }));
    // with success:false the session step delivers the raw result directly
    let (stage, action) = on_session(stage, Some(session("tok-B", 77)));
    let expected_event = Event::TestResult {
        repo_url: "https://git.example/u/repo".to_string(),
        commit: "abc123".to_string(),
        success: false,
        output: "ok".to_string(),
    };
    assert_eq!(
        action,
        Some(AdapterAction::Deliver {
            token: "tok-B".to_string(),
            event: expected_event,
            progress: None,
        })
    );
    assert_eq!(stage, AdapterStage::Done { outcome: AdapterOutcome::Delivered });
}

#[test]
fn webhook_push_with_empty_repo_url_returns_400_and_delivers_nothing() {
    let body = r#"{"event_type":"push","payload":{"repoUrl":"","branchUrl":"b","commitSha":"c"}}"#;
    let (stage, action) = handle_webhook(body);
    assert_eq!(action, None);
    let outcome = match stage {
        AdapterStage::Done { outcome } => outcome,
        other => panic!("pipeline not done: {:?}", other),
    };
    assert_eq!(webhook_status(outcome), 400);
}

#[test]
fn webhook_push_with_missing_repo_url_returns_400() {
    let body = r#"{"event_type":"push","payload":{"branchUrl":"b"}}"#;
    let (stage, action) = handle_webhook(body);
    assert_eq!(action, None);
    assert_eq!(stage, AdapterStage::Done { outcome: AdapterOutcome::MalformedInput });
}

#[test]
fn webhook_event_type_is_matched_case_insensitively() {
    let body =
        r#"{"event_type":"PUSH","payload":{"repoUrl":"https://git.example/u/r","commitSha":"c"}}"#;
    let (_, action) = handle_webhook(body);
    assert_eq!(
        action,
        Some(AdapterAction::FindRepository { repo_url: "https://git.example/u/r".to_string() })
    );
}

#[test]
fn webhook_unknown_event_type_returns_400() {
    let body = r#"{"event_type":"release","payload":{}}"#;
    let (stage, action) = handle_webhook(body);
    assert_eq!(action, None);
    assert_eq!(stage, AdapterStage::Done { outcome: AdapterOutcome::UnknownEventType });
    assert_eq!(webhook_status(AdapterOutcome::UnknownEventType), 400);
}

#[test]
fn webhook_test_event_is_accepted_without_delivery() {
    let body = r#"{"event_type":"Test","payload":{"outcome":true,"message":"m","test_name":"t"}}"#;
    let (stage, action) = handle_webhook(body);
    assert_eq!(action, None);
    assert_eq!(stage, AdapterStage::Done { outcome: AdapterOutcome::AcceptedNoDelivery });
    assert_eq!(webhook_status(AdapterOutcome::AcceptedNoDelivery), 200);
}

#[test]
fn undecodable_webhook_body_is_malformed() {
    let (stage, action) = handle_webhook("this is not json");
    assert_eq!(action, None);
    assert_eq!(stage, AdapterStage::Done { outcome: AdapterOutcome::MalformedInput });
}

#[test]
fn unresolved_repository_fails_resolution_without_delivery() {
    let event = Event::Push {
        repo_url: "https://git.example/u/missing".to_string(),
        branch: None,
        commit: None,
    };
    let (stage, action) = begin(event);
    assert!(matches!(action, Some(AdapterAction::FindRepository { .. })));
    let (stage, action) = on_repository(stage, None);
    assert_eq!(action, None);
    assert_eq!(stage, AdapterStage::Done { outcome: AdapterOutcome::ResolutionFailed });
    assert_eq!(webhook_status(AdapterOutcome::ResolutionFailed), 404);
    assert_eq!(
        broker_disposition(AdapterOutcome::ResolutionFailed),
        BrokerDisposition::SupervisorError
    );
}

#[test]
fn missing_session_fails_resolution() {
    let event = Event::TestResult {
        repo_url: "https://git.example/u/r".to_string(),
        commit: "c".to_string(),
        success: true,
        output: "o".to_string(),
    };
    let (stage, _) = begin(event);
    let (stage, _) = on_repository(stage, Some(Repository { user_id: 3 }));
    let (stage, action) = on_session(stage, None);
    assert_eq!(action, None);
    assert_eq!(stage, AdapterStage::Done { outcome: AdapterOutcome::ResolutionFailed });
}

#[test]
fn failed_progress_update_is_not_delivered() {
    let event = Event::TestResult {
        repo_url: "https://git.example/u/r".to_string(),
        commit: "c".to_string(),
        success: true,
        output: "o".to_string(),
    };
    let (stage, _) = begin(event);
    let (stage, _) = on_repository(stage, Some(Repository { user_id: 3 }));
    let (stage, _) = on_session(stage, Some(session("tok-C", 3)));
    let (stage, action) = on_progress(stage, None);
    assert_eq!(action, None);
    assert_eq!(stage, AdapterStage::Done { outcome: AdapterOutcome::ResolutionFailed });
}

#[test]
fn broker_push_routes_like_the_webhook() {
    let body = br#"{"event_type":"push","repoUrl":"https://git.example/u/r","commitSha":"c"}"#;
    let (_, action) = handle_broker_push(body);
    assert_eq!(
        action,
        Some(AdapterAction::FindRepository { repo_url: "https://git.example/u/r".to_string() })
    );

    let empty = br#"{"event_type":"push","repoUrl":""}"#;
    let (stage, action) = handle_broker_push(empty);
    assert_eq!(action, None);
    assert_eq!(stage, AdapterStage::Done { outcome: AdapterOutcome::MalformedInput });

    let unknown = br#"{"event_type":"merge","repoUrl":"x"}"#;
    let (stage, _) = handle_broker_push(unknown);
    assert_eq!(stage, AdapterStage::Done { outcome: AdapterOutcome::UnknownEventType });
    assert_eq!(broker_disposition(AdapterOutcome::UnknownEventType), BrokerDisposition::Ack);
}

#[test]
fn malformed_broker_bytes_are_nacked() {
    let (stage, action) = handle_broker_test(b"not json at all");
    assert_eq!(action, None);
    assert_eq!(stage, AdapterStage::Done { outcome: AdapterOutcome::MalformedInput });
    assert_eq!(broker_disposition(AdapterOutcome::MalformedInput), BrokerDisposition::NackRequeue);

    // a missing required field is malformed too
    let (stage, _) = handle_broker_test(br#"{"result":{"repoUrl":"r","success":true}}"#);
    assert_eq!(stage, AdapterStage::Done { outcome: AdapterOutcome::MalformedInput });
}

#[test]
fn resolver_composition_fails_on_either_miss() {
    assert_eq!(resolve(None, None), Err(ResolveError::RepositoryNotFound));
    assert_eq!(
        resolve(Some(Repository { user_id: 1 }), None),
        Err(ResolveError::SessionNotFound)
    );
    let s = session("tok-A", 1);
    assert_eq!(resolve(Some(Repository { user_id: 1 }), Some(s.clone())), Ok(s));
}

#[test]
fn delivery_failure_maps_to_500() {
    assert_eq!(webhook_status(AdapterOutcome::DeliveryFailed), 500);
    assert_eq!(webhook_status(AdapterOutcome::Delivered), 200);
    assert_eq!(
        broker_disposition(AdapterOutcome::DeliveryFailed),
        BrokerDisposition::SupervisorError
    );
}
