use symfonia::api::{
    audit_log_clauses, check_guild_access, check_pin_limit, looks_up_vanity, vanity_reply,
    vanity_write, ApiError, AuditLogClause, VanityInvite, VanityReply, VanityWrite,
};
use symfonia::client::GatewayClient;
use symfonia::clock::{elapsed, is_at_least, is_longer_than};
use symfonia::config::GatewayConfig;
use symfonia::error::GatewayError;
use symfonia::handshake::{
    establish_connection, get_or_new_gateway_user, HandshakeEvent, HandshakeStep, Phase, Signal,
    HEARTBEAT_CHANNEL_CAPACITY, KILL_CHANNEL_CAPACITY, SESSION_ID_CHANNEL_CAPACITY,
};
use symfonia::store::GatewayUsersStore;
use symfonia::decimal::parse_decimal;
use symfonia::handshake::{farewell, Farewell};
use symfonia::task::{gateway_task, listen, route, topic, TaskAction, TaskEvent};
use symfonia::user::GatewayUser;
use symfonia::wire::{
    classify, hello_frame, parse_frame, scalar_at, text, unsigned, Event, Heartbeat, Identify,
    InboundFrame, JsonScalar, Resume, ServerFrame,
};

fn client(parent: u64, session: &str) -> GatewayClient {
    GatewayClient::new(parent, session.to_string(), "token".to_string(), 8)
}

#[test]
fn hello_frame_carries_the_interval() {
    assert_eq!(hello_frame(45_000), r#"{"op":10,"d":{"heartbeat_interval":45000}}"#);
    assert_eq!(hello_frame(1), r#"{"op":10,"d":{"heartbeat_interval":1}}"#);
}

#[test]
fn frames_are_sorted_by_shape() {
    assert_eq!(
        parse_frame(r#"{"op":1,"d":251}"#),
        InboundFrame::Heartbeat(Heartbeat { op: 1, d: Some(251) })
    );
    assert_eq!(
        parse_frame(r#"{"op":1,"d":null}"#),
        InboundFrame::Heartbeat(Heartbeat { op: 1, d: None })
    );
    assert_eq!(
        parse_frame(r#"{"op":2,"d":{"token":"VALID","intents":513}}"#),
        InboundFrame::Identify(Identify { token: "VALID".to_string() })
    );
    assert_eq!(
        parse_frame(r#"{"op":6,"d":{"session_id":"abc","token":"VALID","seq":5}}"#),
        InboundFrame::Resume(Resume {
            session_id: "abc".to_string(),
            token: "VALID".to_string(),
            seq: 5
        })
    );
    assert_eq!(
        parse_frame(r#"{"op":8,"d":{"guild_id":"1"}}"#),
        InboundFrame::Unrecognized { op: Some(8) }
    );
    assert_eq!(parse_frame("not json"), InboundFrame::Unrecognized { op: None });
    assert_eq!(parse_frame(r#"{"d":{"token":"VALID"}}"#), InboundFrame::Unrecognized { op: None });
}

#[test]
fn an_ambiguous_frame_is_a_heartbeat() {
    assert_eq!(
        parse_frame(r#"{"op":2,"d":null}"#),
        InboundFrame::Heartbeat(Heartbeat { op: 2, d: None })
    );
    assert_eq!(
        parse_frame(r#"{"op":6,"d":7}"#),
        InboundFrame::Heartbeat(Heartbeat { op: 6, d: Some(7) })
    );
}

#[test]
fn incomplete_identify_and_resume_are_not_recognized() {
    assert_eq!(parse_frame(r#"{"op":2,"d":{}}"#), InboundFrame::Unrecognized { op: Some(2) });
    assert_eq!(
        parse_frame(r#"{"op":2,"d":{"token":5}}"#),
        InboundFrame::Unrecognized { op: Some(2) }
    );
    assert_eq!(
        parse_frame(r#"{"op":6,"d":{"session_id":"abc","token":"VALID"}}"#),
        InboundFrame::Unrecognized { op: Some(6) }
    );
    assert_eq!(
        parse_frame(r#"{"op":6,"d":{"session_id":"abc","token":"VALID","seq":"5"}}"#),
        InboundFrame::Unrecognized { op: Some(6) }
    );
    assert_eq!(
        parse_frame(r#"{"op":3,"d":{"token":"VALID"}}"#),
        InboundFrame::Unrecognized { op: Some(3) }
    );
}

#[test]
fn classify_goes_by_precedence() {
    let beat = Heartbeat { op: 1, d: Some(3) };
    assert_eq!(
        classify(Some(beat), Some(2), Some("t".to_string()), Some("s".to_string()), Some(1)),
        InboundFrame::Heartbeat(beat)
    );
    assert_eq!(
        classify(None, Some(2), Some("t".to_string()), Some("s".to_string()), Some(1)),
        InboundFrame::Identify(Identify { token: "t".to_string() })
    );
    assert_eq!(
        classify(None, Some(6), Some("t".to_string()), Some("s".to_string()), Some(1)),
        InboundFrame::Resume(Resume { session_id: "s".to_string(), token: "t".to_string(), seq: 1 })
    );
    assert_eq!(
        classify(None, Some(6), Some("t".to_string()), None, Some(1)),
        InboundFrame::Unrecognized { op: Some(6) }
    );
    assert_eq!(classify(None, None, Some("t".to_string()), None, None), InboundFrame::Unrecognized { op: None });
    assert_eq!(classify(None, Some(7), None, None, None), InboundFrame::Unrecognized { op: Some(7) });
}

#[test]
fn server_frames_travel_under_their_opcodes() {
    let event = Event { name: "READY".to_string(), data: "{}".to_string() };
    let dispatch = ServerFrame::dispatch(3, &event);
    assert_eq!(dispatch, ServerFrame::Dispatch { seq: 3, name: "READY".to_string(), data: "{}".to_string() });
    assert_eq!(dispatch.opcode(), 0);
    assert_eq!(dispatch.sequence(), Some(3));
    assert_eq!(ServerFrame::HeartbeatAck { seq: 9 }.opcode(), 11);
    assert_eq!(ServerFrame::HeartbeatAck { seq: 9 }.sequence(), Some(9));
    assert_eq!(ServerFrame::HeartbeatAck { seq: 0 }.sequence(), None);
    assert_eq!(ServerFrame::Reconnect.opcode(), 7);
    assert_eq!(ServerFrame::Reconnect.sequence(), None);
    assert_eq!(ServerFrame::InvalidSession.opcode(), 9);
    assert_eq!(event.duplicate(), event);
}

#[test]
fn every_error_has_its_close_code() {
    assert_eq!(GatewayError::HandshakeFailed.close_code(), None);
    assert_eq!(GatewayError::Timeout.close_code(), Some(4009));
    assert_eq!(GatewayError::Closed.close_code(), None);
    assert_eq!(GatewayError::InvalidToken.close_code(), Some(4004));
    assert_eq!(GatewayError::UnexpectedMessage.close_code(), Some(4002));
    assert_eq!(GatewayError::CannotResume.close_code(), None);
    assert_eq!(GatewayError::Transport.close_code(), None);
    assert!(GatewayError::CannotResume.invites_reidentify());
    assert!(!GatewayError::InvalidToken.invites_reidentify());
}

#[test]
fn configuration_defaults() {
    let config = GatewayConfig::new("secret".to_string());
    assert_eq!(config.heartbeat_interval_ms, 45_000);
    assert_eq!(config.handshake_timeout_secs, 30);
    assert_eq!(config.resume_grace_secs, 90);
    assert_eq!(config.replay_buffer_size, 1024);
    assert_eq!(config.jwt_secret, "secret");
    assert_eq!(KILL_CHANNEL_CAPACITY, 1);
    assert_eq!(HEARTBEAT_CHANNEL_CAPACITY, 4);
    assert_eq!(SESSION_ID_CHANNEL_CAPACITY, 1);
}

#[test]
fn clock_readings() {
    assert_eq!(elapsed(10, 25), 15);
    assert_eq!(elapsed(25, 10), 0);
    assert!(is_at_least(0, 30_000, 30));
    assert!(!is_at_least(0, 29_999, 30));
    assert!(!is_longer_than(0, 90_000, 90));
    assert!(is_longer_than(0, 90_001, 90));
    assert!(!is_longer_than(0, u64::MAX, u64::MAX));
    assert!(is_at_least(5, 0, 0));
}

#[test]
fn a_failed_upgrade_is_a_failed_handshake() {
    let config = GatewayConfig::new("secret".to_string());
    match establish_connection(false, &config, 0) {
        Ok(_) => panic!("a handshake without a socket"),
        Err(error) => assert_eq!(error, GatewayError::HandshakeFailed),
    }
}

#[test]
fn handshake_ends_on_signals_and_unexpected_frames() {
    let config = GatewayConfig::new("secret".to_string());
    let open = || match establish_connection(true, &config, 0) {
        Ok((handshake, _)) => handshake,
        Err(error) => panic!("{:?}", error),
    };

    let mut handshake = open();
    assert_eq!(
        handshake.finish_connecting(HandshakeEvent::Signal(Signal::Kill), 40_000),
        HandshakeStep::Fail { error: GatewayError::Closed }
    );
    assert!(handshake.is_over());

    let mut handshake = open();
    assert_eq!(
        handshake.finish_connecting(HandshakeEvent::Signal(Signal::StreamEnded), 10),
        HandshakeStep::Fail { error: GatewayError::Timeout }
    );

    let mut handshake = open();
    assert_eq!(
        handshake.finish_connecting(HandshakeEvent::Signal(Signal::ReceiveFailed), 10),
        HandshakeStep::Fail { error: GatewayError::Transport }
    );

    let mut handshake = open();
    assert_eq!(
        handshake.finish_connecting(HandshakeEvent::Frame(r#"{"op":3,"d":{}}"#.to_string()), 10),
        HandshakeStep::Fail { error: GatewayError::UnexpectedMessage }
    );
    assert_eq!(handshake.phase(), Phase::Failed(GatewayError::UnexpectedMessage));
    assert_eq!(GatewayError::UnexpectedMessage.close_code(), Some(4002));

    let mut handshake = open();
    assert_eq!(
        handshake.finish_connecting(HandshakeEvent::Frame("garbage".to_string()), 10),
        HandshakeStep::Fail { error: GatewayError::UnexpectedMessage }
    );
}

#[test]
fn a_second_identify_while_verifying_is_unexpected() {
    let config = GatewayConfig::new("secret".to_string());
    let mut store = GatewayUsersStore::new();
    let (mut handshake, _) = match establish_connection(true, &config, 0) {
        Ok(opened) => opened,
        Err(error) => panic!("{:?}", error),
    };
    let identify = r#"{"op":2,"d":{"token":"VALID"}}"#;
    assert_eq!(
        handshake.finish_connecting(HandshakeEvent::Frame(identify.to_string()), 10),
        HandshakeStep::VerifyToken { token: "VALID".to_string() }
    );
    assert_eq!(
        handshake.finish_connecting(HandshakeEvent::Frame(identify.to_string()), 20),
        HandshakeStep::Fail { error: GatewayError::UnexpectedMessage }
    );
    assert_eq!(
        handshake.complete_identify(&mut store, Some(1), "abc".to_string(), &config),
        Err(GatewayError::UnexpectedMessage)
    );
    assert_eq!(store.user_count(), 0);
}

#[test]
fn completing_what_was_not_asked_for_is_unexpected() {
    let config = GatewayConfig::new("secret".to_string());
    let mut store = GatewayUsersStore::new();
    let (mut handshake, _) = match establish_connection(true, &config, 0) {
        Ok(opened) => opened,
        Err(error) => panic!("{:?}", error),
    };
    assert_eq!(
        handshake.complete_identify(&mut store, Some(1), "abc".to_string(), &config),
        Err(GatewayError::UnexpectedMessage)
    );
    assert_eq!(
        handshake.complete_resume(&mut store, true, &config, 5),
        Err(GatewayError::UnexpectedMessage)
    );
    assert_eq!(handshake.phase(), Phase::AwaitingIdentity);
    assert_eq!(store.user_count(), 0);
}

#[test]
fn get_or_create_is_idempotent() {
    let mut store = GatewayUsersStore::new();
    assert_eq!(store.get_or_create(11), 0);
    assert_eq!(store.get_or_create(12), 1);
    assert_eq!(store.get_or_create(11), 0);
    assert_eq!(get_or_new_gateway_user(12, &mut store), 1);
    assert_eq!(get_or_new_gateway_user(13, &mut store), 2);
    assert_eq!(store.user_count(), 3);
    assert_eq!(store.find_user(12), Some(1));
    assert_eq!(store.find_user(14), None);
    assert_eq!(store.user(2).id(), 13);
}

#[test]
fn remove_takes_only_a_user_without_sessions() {
    let mut store = GatewayUsersStore::new();
    let index = store.get_or_create(1);
    store.attach(index, client(1, "a"));
    let _ = store.get_or_create(2);
    assert!(!store.remove(1));
    assert!(store.contains(1));
    assert!(store.disconnect(&"a".to_string(), 5));
    assert!(!store.remove(1));
    assert!(store.remove(2));
    assert!(!store.contains(2));
    assert!(!store.remove(2));
    assert!(!store.remove(3));
    assert_eq!(store.user_count(), 1);
}

#[test]
fn subscriptions_are_a_set() {
    let mut user = GatewayUser::new(1);
    assert_eq!(user.subscription_count(), 0);
    user.subscribe(10);
    user.subscribe(20);
    user.subscribe(10);
    assert_eq!(user.subscription_count(), 2);
    assert!(user.is_subscribed(10));
    assert!(user.is_subscribed(20));
    assert!(!user.is_subscribed(30));
    user.unsubscribe(10);
    user.unsubscribe(30);
    assert!(!user.is_subscribed(10));
    assert!(user.is_subscribed(20));
    assert_eq!(user.subscription_count(), 1);
}

#[test]
fn publish_reaches_the_subscribed_users_only() {
    let mut store = GatewayUsersStore::new();
    let first = store.get_or_create(1);
    store.attach(first, client(1, "a"));
    assert!(!store.has_session(&"b".to_string()));
    store.attach(first, client(1, "b"));
    let second = store.get_or_create(2);
    assert!(!store.has_session(&"c".to_string()));
    store.attach(second, client(2, "c"));
    let third = store.get_or_create(3);
    assert!(!store.has_session(&"d".to_string()));
    store.attach(third, client(3, "d"));

    assert!(store.subscribe(1, 100));
    assert!(store.subscribe(3, 100));
    assert!(store.subscribe(2, 200));
    assert!(!store.subscribe(4, 100));
    assert!(store.disconnect(&"b".to_string(), 50));

    let event = Event { name: "GUILD_UPDATE".to_string(), data: "{}".to_string() };
    let deliveries = store.publish(100, &event);
    let sessions: Vec<&str> = deliveries.iter().map(|d| d.session_id.as_str()).collect();
    assert_eq!(sessions, vec!["a", "d"]);
    assert_eq!(store.client(0, 0).sequence(), 1);
    assert_eq!(store.client(0, 1).sequence(), 0);
    assert_eq!(store.client(1, 0).sequence(), 0);
    assert_eq!(store.client(2, 0).sequence(), 1);

    assert!(store.unsubscribe(3, 100));
    assert!(!store.unsubscribe(9, 100));
    assert_eq!(store.publish(100, &event).len(), 1);
    assert!(store.publish(300, &event).is_empty());
}

#[test]
fn a_session_without_transport_takes_no_event() {
    let mut session = client(1, "a");
    let event = Event { name: "E".to_string(), data: "1".to_string() };
    assert!(session.dispatch(event.duplicate()).is_ok());
    assert_eq!(session.sent(true, 10), Ok(()));
    assert!(session.is_live());
    assert_eq!(session.sent(false, 20), Err(GatewayError::Transport));
    assert_eq!(session.disconnect_info(), Some(20));
    assert_eq!(session.dispatch(event.duplicate()), Err(GatewayError::Transport));
    assert_eq!(session.sequence(), 1);
    session.into_disconnected(30);
    assert_eq!(session.disconnect_info(), Some(20));
    assert!(session.is_resumable(90_020, 90));
    assert!(!session.is_lapsed(90_020, 90));
    assert!(session.is_lapsed(90_021, 90));
    session.reattach();
    assert!(session.is_live());
    assert!(!session.is_resumable(40, 90));
    assert!(session.has_session_id(&"a".to_string()));
    let notice = session.close(GatewayError::UnexpectedMessage);
    assert_eq!(notice.session_id, "a");
    assert_eq!(notice.code, Some(4002));
}

#[test]
fn expire_drops_the_lapsed_sessions_in_order() {
    let mut user = GatewayUser::new(1);
    user.attach(client(1, "a"));
    user.attach(client(1, "b"));
    user.attach(client(1, "c"));
    user.attach(client(1, "d"));
    user.delivery_failed(0, 1_000);
    user.delivery_failed(2, 1_000);
    user.delivery_failed(3, 50_000);
    assert!(user.expire(91_000, 90).is_empty());
    let gone = user.expire(100_000, 90);
    assert_eq!(gone.len(), 2);
    assert_eq!(gone[0].session_id(), "a");
    assert_eq!(gone[1].session_id(), "c");
    assert_eq!(user.client_count(), 2);
    assert_eq!(user.client(0).session_id(), "b");
    assert_eq!(user.client(1).session_id(), "d");
    assert_eq!(user.find(&"d".to_string()), Some(1));
    assert_eq!(user.find(&"a".to_string()), None);
    assert!(user.has_session(&"b".to_string()));
    let closed = user.close(&"b".to_string());
    assert!(closed.is_some());
    assert!(user.close(&"b".to_string()).is_none());
    user.reattach(0);
    assert!(user.client(0).is_live());
}

#[test]
fn the_task_routes_frames_and_records_the_loss_of_the_transport() {
    let mut store = GatewayUsersStore::new();
    let index = store.get_or_create(1);
    store.attach(index, client(1, "a"));
    let session = "a".to_string();

    assert_eq!(
        gateway_task(&mut store, &session, TaskEvent::Frame(r#"{"op":1,"d":3}"#.to_string()), 10),
        TaskAction::ForwardHeartbeat(Heartbeat { op: 1, d: Some(3) })
    );
    assert_eq!(
        gateway_task(&mut store, &session, TaskEvent::Frame(r#"{"op":4,"d":{"guild_id":"1"}}"#.to_string()), 10),
        TaskAction::SubscriptionChange { op: 4 }
    );
    assert_eq!(
        gateway_task(&mut store, &session, TaskEvent::Frame(r#"{"op":3,"d":{"status":"idle"}}"#.to_string()), 10),
        TaskAction::SubscriptionChange { op: 3 }
    );
    assert_eq!(route(&InboundFrame::Unrecognized { op: Some(8) }), TaskAction::SubscriptionChange { op: 8 });
    assert_eq!(route(&InboundFrame::Unrecognized { op: Some(99) }), TaskAction::Ignore);
    assert_eq!(route(&InboundFrame::Unrecognized { op: None }), TaskAction::Ignore);
    assert_eq!(route(&InboundFrame::Identify(Identify { token: "t".to_string() })), TaskAction::Ignore);
    assert_eq!(
        gateway_task(&mut store, &session, TaskEvent::Frame("??".to_string()), 10),
        TaskAction::Ignore
    );
    assert!(store.client(0, 0).is_live());

    assert_eq!(gateway_task(&mut store, &session, TaskEvent::Kill, 20), TaskAction::Stop);
    assert!(store.client(0, 0).is_live());
    assert_eq!(gateway_task(&mut store, &session, TaskEvent::PeerClosed, 30), TaskAction::Disconnected);
    assert_eq!(store.client(0, 0).disconnect_info(), Some(30));
    assert_eq!(gateway_task(&mut store, &session, TaskEvent::ReceiveFailed, 40), TaskAction::Disconnected);
    assert_eq!(store.client(0, 0).disconnect_info(), Some(30));
}

#[test]
fn the_pin_limit_is_reached_at_the_limit() {
    assert_eq!(check_pin_limit(0, 50), Ok(()));
    assert_eq!(check_pin_limit(49, 50), Ok(()));
    assert_eq!(check_pin_limit(50, 50), Err(ApiError::MaxPinsReached));
    assert_eq!(check_pin_limit(51, 50), Err(ApiError::MaxPinsReached));
    assert_eq!(check_pin_limit(-1, 0), Ok(()));
    assert_eq!(check_pin_limit(0, 0), Err(ApiError::MaxPinsReached));
    assert_eq!(check_pin_limit(i32::MAX, u16::MAX), Err(ApiError::MaxPinsReached));
}

#[test]
fn guild_access_asks_for_the_guild_first() {
    assert_eq!(check_guild_access(false, false), Err(ApiError::InvalidGuild));
    assert_eq!(check_guild_access(false, true), Err(ApiError::InvalidGuild));
    assert_eq!(check_guild_access(true, false), Err(ApiError::MemberNotFound));
    assert_eq!(check_guild_access(true, true), Ok(()));
}

#[test]
fn the_vanity_invite_is_shown_where_names_are_not_aliasable() {
    let invite = VanityInvite { code: "rust".to_string(), uses: Some(12) };
    assert!(looks_up_vanity(false));
    assert!(!looks_up_vanity(true));
    assert_eq!(
        vanity_reply(false, Some(invite.clone())),
        VanityReply { status: 200, code: "rust".to_string(), uses: Some(12) }
    );
    let nothing = VanityReply { status: 404, code: String::new(), uses: None };
    assert_eq!(vanity_reply(true, Some(invite)), nothing);
    assert_eq!(vanity_reply(false, None), nothing);
    assert_eq!(vanity_reply(true, None), nothing);
    assert_eq!(vanity_write(true), VanityWrite::Update);
    assert_eq!(vanity_write(false), VanityWrite::Create);
}

#[test]
fn audit_log_conditions_keep_their_order() {
    assert!(audit_log_clauses(None, None, None, None).is_empty());
    assert_eq!(
        audit_log_clauses(Some(9), Some(1), Some(4), Some(10)),
        vec![
            AuditLogClause::Before(9),
            AuditLogClause::After(1),
            AuditLogClause::ByUser(4),
            AuditLogClause::OfAction(10)
        ]
    );
    assert_eq!(
        audit_log_clauses(None, Some(1), None, Some(10)),
        vec![AuditLogClause::After(1), AuditLogClause::OfAction(10)]
    );
    assert_eq!(audit_log_clauses(Some(3), None, None, None), vec![AuditLogClause::Before(3)]);
}

#[test]
fn a_peer_that_closes_ends_the_handshake_as_closed() {
    let config = GatewayConfig::new("secret".to_string());
    let (mut handshake, _) = match establish_connection(true, &config, 0) {
        Ok(opened) => opened,
        Err(error) => panic!("{:?}", error),
    };
    assert_eq!(
        handshake.finish_connecting(HandshakeEvent::Signal(Signal::PeerClosed), 31_000),
        HandshakeStep::Fail { error: GatewayError::Closed }
    );
    assert_eq!(handshake.phase(), Phase::Failed(GatewayError::Closed));
}

#[test]
fn scalars_are_read_at_json_pointers() {
    let frame = r#"{"op":4,"d":{"guild_id":"41771983423143937","channel_id":127,"self_mute":false,"n":-3,"x":1.5}}"#;
    assert_eq!(scalar_at(frame, "/op"), Some(JsonScalar::Unsigned(4)));
    assert_eq!(
        scalar_at(frame, "/d/guild_id"),
        Some(JsonScalar::Text("41771983423143937".to_string()))
    );
    assert_eq!(scalar_at(frame, "/d/channel_id"), Some(JsonScalar::Unsigned(127)));
    assert_eq!(scalar_at(frame, "/d/self_mute"), Some(JsonScalar::Other));
    assert_eq!(scalar_at(frame, "/d/n"), Some(JsonScalar::Other));
    assert_eq!(scalar_at(frame, "/d/x"), Some(JsonScalar::Other));
    assert_eq!(scalar_at(frame, "/d"), Some(JsonScalar::Other));
    assert_eq!(scalar_at(frame, "/d/missing"), None);
    assert_eq!(scalar_at(frame, "op"), None);
    assert_eq!(scalar_at("{", "/op"), None);
    assert_eq!(scalar_at(r#"[10,"b"]"#, "/1"), Some(JsonScalar::Text("b".to_string())));

    assert_eq!(unsigned(&Some(JsonScalar::Unsigned(8))), Some(8));
    assert_eq!(unsigned(&Some(JsonScalar::Text("8".to_string()))), None);
    assert_eq!(unsigned(&Some(JsonScalar::Other)), None);
    assert_eq!(unsigned(&None), None);
    assert_eq!(text(Some(JsonScalar::Text("t".to_string()))), Some("t".to_string()));
    assert_eq!(text(Some(JsonScalar::Unsigned(1))), None);
    assert_eq!(text(None), None);
}

#[test]
fn decimal_numbers_are_read_digit_by_digit() {
    assert_eq!(parse_decimal("0"), Some(0));
    assert_eq!(parse_decimal("7"), Some(7));
    assert_eq!(parse_decimal("007"), Some(7));
    assert_eq!(parse_decimal("41771983423143937"), Some(41_771_983_423_143_937));
    assert_eq!(parse_decimal("18446744073709551615"), Some(u64::MAX));
    assert_eq!(parse_decimal("18446744073709551616"), None);
    assert_eq!(parse_decimal("99999999999999999999999"), None);
    assert_eq!(parse_decimal(""), None);
    assert_eq!(parse_decimal("+5"), None);
    assert_eq!(parse_decimal("-5"), None);
    assert_eq!(parse_decimal("12a"), None);
    assert_eq!(parse_decimal(" 12"), None);
    assert_eq!(parse_decimal("١٢"), None);
}

#[test]
fn a_subscription_frame_makes_the_user_listen() {
    let mut store = GatewayUsersStore::new();
    let index = store.get_or_create(1);
    store.attach(index, client(1, "a"));
    let other = store.get_or_create(2);
    assert!(!store.has_session(&"b".to_string()));
    store.attach(other, client(2, "b"));
    let session = "a".to_string();

    let voice = r#"{"op":4,"d":{"guild_id":"500","channel_id":"600","self_mute":false}}"#;
    assert_eq!(
        gateway_task(&mut store, &session, TaskEvent::Frame(voice.to_string()), 10),
        TaskAction::SubscriptionChange { op: 4 }
    );
    assert!(store.user(0).is_subscribed(500));
    assert!(store.user(0).is_subscribed(600));
    assert_eq!(store.user(0).subscription_count(), 2);
    assert_eq!(store.user(1).subscription_count(), 0);

    let members = r#"{"op":8,"d":{"guild_id":700,"query":"","limit":0}}"#;
    assert_eq!(
        gateway_task(&mut store, &session, TaskEvent::Frame(members.to_string()), 10),
        TaskAction::SubscriptionChange { op: 8 }
    );
    assert!(store.user(0).is_subscribed(700));
    assert_eq!(store.user(0).subscription_count(), 3);

    let presence = r#"{"op":3,"d":{"status":"online","afk":false}}"#;
    assert_eq!(
        gateway_task(&mut store, &session, TaskEvent::Frame(presence.to_string()), 10),
        TaskAction::SubscriptionChange { op: 3 }
    );
    assert_eq!(store.user(0).subscription_count(), 3);

    let unknown = "nobody".to_string();
    assert_eq!(
        gateway_task(&mut store, &unknown, TaskEvent::Frame(voice.to_string()), 10),
        TaskAction::SubscriptionChange { op: 4 }
    );
    assert_eq!(store.user(1).subscription_count(), 0);

    listen(&mut store, &"b".to_string(), Some(9));
    listen(&mut store, &"b".to_string(), None);
    assert!(store.user(1).is_subscribed(9));
    assert_eq!(store.user(1).subscription_count(), 1);

    assert_eq!(topic(&Some(JsonScalar::Unsigned(5))), Some(5));
    assert_eq!(topic(&Some(JsonScalar::Text("55".to_string()))), Some(55));
    assert_eq!(topic(&Some(JsonScalar::Text("x".to_string()))), None);
    assert_eq!(topic(&Some(JsonScalar::Other)), None);
    assert_eq!(topic(&None), None);
}

#[test]
fn every_error_has_its_farewell() {
    assert_eq!(
        farewell(GatewayError::Timeout),
        Farewell { kill: false, frame: None, close_code: Some(4009) }
    );
    assert_eq!(
        farewell(GatewayError::InvalidToken),
        Farewell { kill: true, frame: None, close_code: Some(4004) }
    );
    assert_eq!(
        farewell(GatewayError::UnexpectedMessage),
        Farewell { kill: false, frame: None, close_code: Some(4002) }
    );
    assert_eq!(
        farewell(GatewayError::CannotResume),
        Farewell { kill: false, frame: Some(ServerFrame::InvalidSession), close_code: None }
    );
    for quiet in [GatewayError::Closed, GatewayError::Transport, GatewayError::HandshakeFailed] {
        assert_eq!(farewell(quiet), Farewell { kill: false, frame: None, close_code: None });
    }
}
