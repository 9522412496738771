use hxckr_core::auth::{
    authenticate_session, extract_session_token, is_public_path, query_param, AuthError,
    SessionInfo,
};
use hxckr_core::handler::{
    ConnectionHandler, HandlerAction, HandlerConfig, HandlerEvent, HandlerState,
};
use hxckr_core::message::Frame;
use hxckr_core::primitives::{
    ChallengeMode, Difficulty, Status, SubmissionStatus, UserRole,
};
use hxckr_core::progress::{next_score, update_progress};
use hxckr_core::registry::WebSocketManager;
use hxckr_core::resolver::SessionRecord;
use hxckr_core::strutil::{eq_ignore_ascii_case, str_concat, str_eq};
use hxckr_core::token::generate_session_token;

fn open_handler(now: u64) -> ConnectionHandler {
    let mut h = ConnectionHandler::begin(HandlerConfig::default_config());
    h.open(1, "tok-A".to_string(), now);
    h
}

#[test]
fn two_browser_connections_relay_without_echo() {
    // two browser connections open under session token "tok-A"
    let mut reg = WebSocketManager::new();
    let c1 = reg.register("tok-A", 0);
    let c2 = reg.register("tok-A", 0);

    // the client on connection 1 sends the text "ping"
    let mut h1 = ConnectionHandler::begin(HandlerConfig::default_config());
    h1.open(c1, "tok-A".to_string(), 0);
    let actions = h1.step(HandlerEvent::Inbound { frame: Frame::Text("ping".to_string()), now: 3 });
    assert_eq!(actions.len(), 2);
    assert_eq!(actions[0], HandlerAction::RelayToSession(Frame::Text("ping".to_string())));
    assert_eq!(actions[1], HandlerAction::RefreshHeartbeat(3));

    // the task performs the relay: everyone under tok-A but the sender
    for a in actions {
        match a {
            HandlerAction::RelayToSession(frame) => {
                reg.send_message_to_session("tok-A", &frame, c1);
            }
            HandlerAction::RefreshHeartbeat(now) => reg.update_heartbeat(c1, now),
            other => panic!("unexpected action {:?}", other),
        }
    }

    // connection 2 receives "ping"; connection 1 does not get it back
    assert_eq!(reg.take_outgoing(c2), vec![Frame::Text("ping".to_string())]);
    assert_eq!(reg.take_outgoing(c1), Vec::<Frame>::new());
    assert_eq!(reg.heartbeat_of(c1), Some(3));
}

#[test]
fn silent_client_is_closed_after_the_timeout() {
    // heartbeat at 0; probes every 5000 ms; timeout 10000 ms
    let mut h = open_handler(0);
    let a = h.step(HandlerEvent::Tick { now: 5000 });
    assert_eq!(a, vec![HandlerAction::SendPing]);
    assert_eq!(h.state, HandlerState::Open);
    let a = h.step(HandlerEvent::Tick { now: 10000 });
    assert_eq!(a, vec![HandlerAction::SendPing]);
    assert_eq!(h.state, HandlerState::Open);
    // the first tick past the timeout closes: within 2 x probe_interval +
    // timeout_margin of the last heartbeat
    let a = h.step(HandlerEvent::Tick { now: 15000 });
    assert_eq!(a, vec![HandlerAction::CloseConnection]);
    assert_eq!(h.state, HandlerState::Closing);
    h.complete_close();
    assert_eq!(h.state, HandlerState::Closed);
}

#[test]
fn pong_refreshes_the_heartbeat_and_keeps_the_connection() {
    let mut h = open_handler(0);
    let a = h.step(HandlerEvent::Inbound { frame: Frame::Pong(vec![]), now: 9000 });
    assert_eq!(a, vec![HandlerAction::RefreshHeartbeat(9000)]);
    assert_eq!(h.last_heartbeat, 9000);
    // 10000 - 9000 is within the timeout: only a probe goes out
    let a = h.step(HandlerEvent::Tick { now: 10000 });
    assert_eq!(a, vec![HandlerAction::SendPing]);
    assert_eq!(h.state, HandlerState::Open);
}

#[test]
fn ping_is_answered_with_a_pong() {
    let mut h = open_handler(0);
    let a = h.step(HandlerEvent::Inbound { frame: Frame::Ping(vec![7, 8]), now: 4 });
    assert_eq!(a, vec![HandlerAction::SendPong(vec![7, 8])]);
    assert_eq!(h.state, HandlerState::Open);
}

#[test]
fn close_frame_and_errors_start_closing() {
    let mut h = open_handler(0);
    let a = h.step(HandlerEvent::Inbound { frame: Frame::Close(Some(1000)), now: 4 });
    assert_eq!(a, vec![HandlerAction::CloseConnection]);
    assert_eq!(h.state, HandlerState::Closing);

    let mut h = open_handler(0);
    let a = h.step(HandlerEvent::InboundError { now: 4 });
    assert_eq!(a, vec![HandlerAction::CloseConnection]);
    assert_eq!(h.state, HandlerState::Closing);

    let mut h = open_handler(0);
    let a = h.step(HandlerEvent::Shutdown);
    assert_eq!(a, vec![HandlerAction::CloseConnection]);
    assert_eq!(h.state, HandlerState::Closing);
}

#[test]
fn failed_handshake_never_opens() {
    let mut h = ConnectionHandler::begin(HandlerConfig::default_config());
    assert_eq!(h.state, HandlerState::Handshaking);
    h.fail_handshake();
    assert_eq!(h.state, HandlerState::Closed);
}

#[test]
fn token_comes_from_header_or_query_depending_on_upgrade() {
    // plain request: header
    let t = extract_session_token(false, Some("tok-H".to_string()), "");
    assert_eq!(t, Ok("tok-H".to_string()));
    // browser upgrade: query parameter
    let t = extract_session_token(true, None, "a=1&token=tok-Q&b=2");
    assert_eq!(t, Ok("tok-Q".to_string()));
    // the header is ignored on an upgrade
    let t = extract_session_token(true, Some("tok-H".to_string()), "a=1");
    assert_eq!(t, Err(AuthError::MissingToken));
    // empty tokens count as missing
    assert_eq!(extract_session_token(false, Some(String::new()), ""), Err(AuthError::MissingToken));
    assert_eq!(extract_session_token(true, None, "token="), Err(AuthError::MissingToken));
}

#[test]
fn query_parsing_takes_the_last_duplicate_and_defaults_missing_values() {
    assert_eq!(query_param("token=a&token=b", "token"), Some("b".to_string()));
    assert_eq!(query_param("token", "token"), Some(String::new()));
    assert_eq!(query_param("other=1", "token"), None);
    assert_eq!(query_param("", "token"), None);
    assert_eq!(query_param("token=with=equals", "token"), Some("with=equals".to_string()));
}

#[test]
fn session_expiry_is_enforced_at_the_handshake() {
    let rec = SessionRecord { token: "tok-A".to_string(), user_id: 9, expires_at: 1000 };
    assert_eq!(
        authenticate_session(Some(rec.clone()), 999),
        Ok(SessionInfo { token: "tok-A".to_string(), user_id: 9 })
    );
    assert_eq!(authenticate_session(Some(rec), 1001), Err(AuthError::SessionExpired));
    assert_eq!(authenticate_session(None, 0), Err(AuthError::UnknownToken));
}

#[test]
fn public_paths_skip_authentication() {
    assert!(is_public_path("/api/sign-in"));
    assert!(is_public_path("/api/sign-up"));
    assert!(is_public_path("/api/health"));
    assert!(!is_public_path("/api/challenges"));
}

#[test]
fn progress_advances_by_one_step_and_completes_at_the_module_count() {
    let u = update_progress(Status::InProgress, 1, 3);
    assert_eq!(u.new_status, Status::InProgress);
    assert_eq!(u.new_step, 2);
    assert!(u.bump_leaderboard);

    let u = update_progress(Status::InProgress, 2, 3);
    assert_eq!(u.new_status, Status::Completed);
    assert_eq!(u.new_step, 3);
    assert!(!u.bump_leaderboard);

    let u = update_progress(Status::Completed, 3, 3);
    assert_eq!(u.new_status, Status::Completed);
    assert_eq!(u.new_step, 3);
    assert!(!u.bump_leaderboard);

    assert_eq!(next_score(41), 42);
    assert_eq!(next_score(i64::MAX), i64::MAX);
}

#[test]
fn primitive_enums_round_trip_their_canonical_strings() {
    assert!(matches!(Difficulty::from_str("easy"), Ok(Difficulty::Easy)));
    assert!(matches!(Difficulty::from_str("medium"), Ok(Difficulty::Medium)));
    assert!(matches!(Difficulty::from_str("hard"), Ok(Difficulty::Hard)));
    assert_eq!(Difficulty::from_str("extreme"), Err("Invalid difficulty"));
    assert_eq!(Difficulty::Medium.to_str(), "medium");

    assert!(matches!(ChallengeMode::from_str("functional_test"), Ok(ChallengeMode::FunctionalTest)));
    assert!(matches!(ChallengeMode::from_str("project"), Ok(ChallengeMode::Project)));
    assert_eq!(ChallengeMode::from_str("other"), Err("Invalid challenge mode"));
    assert_eq!(ChallengeMode::Project.to_str(), "project");

    assert!(matches!(UserRole::from_str("admin"), Ok(UserRole::Admin)));
    assert!(matches!(UserRole::from_str("user"), Ok(UserRole::User)));
    assert_eq!(UserRole::from_str("root"), Err("Invalid user role"));
    assert_eq!(UserRole::Admin.to_str(), "admin");

    for s in ["completed", "in_progress", "not_started"] {
        assert_eq!(Status::from_str(s).unwrap().to_str(), s);
    }
    assert_eq!(Status::from_str("paused"), Err("Invalid progress status"));

    for s in ["pending", "failed", "passed"] {
        assert_eq!(SubmissionStatus::from_str(s).unwrap().to_str(), s);
    }
    assert_eq!(SubmissionStatus::from_str("queued"), Err("Invalid submission status"));
}

#[test]
fn string_helpers_compare_and_concatenate() {
    assert!(str_eq("abc", "abc"));
    assert!(!str_eq("abc", "abd"));
    assert!(eq_ignore_ascii_case("PuSh", "push"));
    assert!(eq_ignore_ascii_case("TEST", "test"));
    assert!(!eq_ignore_ascii_case("pusher", "push"));
    assert!(!eq_ignore_ascii_case("pull", "push"));
    assert_eq!(str_concat("hx_", "suffix"), "hx_suffix".to_string());
}

#[test]
fn generated_tokens_carry_the_prefix_and_thirty_random_characters() {
    let t1 = generate_session_token();
    let t2 = generate_session_token();
    assert_eq!(t1.len(), 36);
    assert!(t1.starts_with("hxckr_"));
    assert!(t1[6..].chars().all(|c| c.is_ascii_alphanumeric()));
    // two draws almost surely differ; equality would mean the sampler is stuck
    assert_ne!(t1, t2);
}
