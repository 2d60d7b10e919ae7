use symfonia::client::GatewayClient;
use symfonia::config::GatewayConfig;
use symfonia::error::GatewayError;
use symfonia::handshake::{establish_connection, HandshakeEvent, HandshakeStep, Phase, Signal};
use symfonia::heartbeat::{
    end_silent_session, HeartbeatAction, HeartbeatEvent, HeartbeatHandler, HeartbeatState,
};
use symfonia::replay::ReplayBuffer;
use symfonia::resume::resume_connection;
use symfonia::store::GatewayUsersStore;
use symfonia::user::GatewayUser;
use symfonia::wire::{Event, Resume, ServerFrame};

fn numbered(n: u64) -> Event {
    Event { name: "E".to_string(), data: format!("{}", n) }
}

fn dispatch_frame(seq: u64, n: u64) -> ServerFrame {
    ServerFrame::Dispatch { seq, name: "E".to_string(), data: format!("{}", n) }
}

fn client(parent: u64, session: &str, capacity: usize) -> GatewayClient {
    GatewayClient::new(parent, session.to_string(), "token".to_string(), capacity)
}

fn resume(session: &str, seq: u64) -> Resume {
    Resume { session_id: session.to_string(), token: "token".to_string(), seq }
}

#[test]
fn handshake_deadline_holds_for_a_silent_connection() {
    let mut config = GatewayConfig::new("s".to_string());
    config.handshake_timeout_secs = 2;
    let (mut handshake, _) = match establish_connection(true, &config, 10_000) {
        Ok(opened) => opened,
        Err(error) => panic!("{:?}", error),
    };
    for now in [10_000u64, 10_500, 11_999, 9_000] {
        assert!(!handshake.is_overdue(now));
        assert_eq!(
            handshake.finish_connecting(HandshakeEvent::Signal(Signal::Tick), now),
            HandshakeStep::Wait
        );
    }
    assert!(handshake.is_overdue(12_000));
    assert_eq!(
        handshake.finish_connecting(HandshakeEvent::Signal(Signal::Tick), 12_000),
        HandshakeStep::Fail { error: GatewayError::Timeout }
    );
    assert_eq!(
        handshake.finish_connecting(HandshakeEvent::Signal(Signal::Tick), 13_000),
        HandshakeStep::Wait
    );
    assert_eq!(handshake.phase(), Phase::Failed(GatewayError::Timeout));
}

#[test]
fn a_frame_after_the_deadline_times_out() {
    let config = GatewayConfig::new("s".to_string());
    let (mut handshake, _) = match establish_connection(true, &config, 0) {
        Ok(opened) => opened,
        Err(error) => panic!("{:?}", error),
    };
    let step = handshake.finish_connecting(
        HandshakeEvent::Frame(r#"{"op":2,"d":{"token":"VALID"}}"#.to_string()),
        30_000,
    );
    assert_eq!(step, HandshakeStep::Fail { error: GatewayError::Timeout });
}

#[test]
fn sequence_numbers_form_a_contiguous_range_from_one() {
    let mut session = client(1, "s", 4);
    for n in 1..=20u64 {
        assert!(session.sequence() < u64::MAX);
        let frame = session.dispatch(numbered(n)).unwrap();
        assert_eq!(frame, dispatch_frame(n, n));
        assert_eq!(session.sequence(), n);
    }
}

#[test]
fn replay_delivers_every_missed_sequence_in_order() {
    let mut session = client(1, "s", 8);
    for n in 1..=10u64 {
        session.dispatch(numbered(n)).unwrap();
    }
    assert!(session.can_replay(6));
    let frames = session.frames_after(6);
    assert_eq!(
        frames,
        vec![dispatch_frame(7, 7), dispatch_frame(8, 8), dispatch_frame(9, 9), dispatch_frame(10, 10)]
    );
    assert!(session.can_replay(10));
    assert!(session.frames_after(10).is_empty());
    assert!(session.can_replay(11));
    assert!(session.frames_after(11).is_empty());
    assert!(session.can_replay(3));
    assert_eq!(session.frames_after(3).len(), 7);
    assert!(!session.can_replay(2));
    assert!(!session.can_replay(0));
}

#[test]
fn replay_buffer_keeps_the_most_recent_events() {
    let mut buffer = ReplayBuffer::new(3);
    assert_eq!(buffer.len(), 0);
    assert_eq!(buffer.oldest(), None);
    assert!(buffer.can_replay(0));
    for n in 1..=2u64 {
        assert_eq!(buffer.push(numbered(n)), n);
    }
    assert_eq!(buffer.len(), 2);
    assert_eq!(buffer.oldest(), Some(1));
    for n in 3..=7u64 {
        assert_eq!(buffer.push(numbered(n)), n);
    }
    assert_eq!(buffer.capacity(), 3);
    assert_eq!(buffer.len(), 3);
    assert_eq!(buffer.last_seq(), 7);
    assert_eq!(buffer.oldest(), Some(5));
    assert_eq!(
        buffer.frames_after(0),
        vec![dispatch_frame(5, 5), dispatch_frame(6, 6), dispatch_frame(7, 7)]
    );
    assert_eq!(buffer.frames_after(5), vec![dispatch_frame(6, 6), dispatch_frame(7, 7)]);
    assert!(buffer.can_replay(5));
    assert!(!buffer.can_replay(4));
}

#[test]
fn a_buffer_without_room_counts_but_keeps_nothing() {
    let mut buffer = ReplayBuffer::new(0);
    assert_eq!(buffer.push(numbered(1)), 1);
    assert_eq!(buffer.push(numbered(2)), 2);
    assert_eq!(buffer.len(), 0);
    assert_eq!(buffer.last_seq(), 2);
    assert_eq!(buffer.oldest(), None);
    assert!(buffer.frames_after(0).is_empty());
    assert!(!buffer.can_replay(1));
    assert!(buffer.can_replay(2));
}

#[test]
fn silence_for_twice_the_interval_kills() {
    let mut handler = HeartbeatHandler::new(1_000, 50_000);
    assert!(!handler.is_expired(51_999));
    assert!(handler.is_expired(52_000));
    assert_eq!(handler.on_event(HeartbeatEvent::Tick, 51_000), HeartbeatAction::Nothing);
    assert_eq!(handler.on_event(HeartbeatEvent::Beat { sequence: 4 }, 51_500), HeartbeatAction::Ack { seq: 4 });
    assert_eq!(handler.state, HeartbeatState::Live);
    assert_eq!(handler.last_ack, 51_500);
    assert_eq!(handler.on_event(HeartbeatEvent::Tick, 53_499), HeartbeatAction::Nothing);
    assert_eq!(handler.on_event(HeartbeatEvent::Tick, 53_500), HeartbeatAction::BroadcastKill);
    assert!(handler.is_dead());
    assert_eq!(handler.on_event(HeartbeatEvent::Beat { sequence: 5 }, 53_600), HeartbeatAction::Nothing);
    assert_eq!(handler.state, HeartbeatState::Dead);
}

#[test]
fn a_late_heartbeat_does_not_revive() {
    let mut handler = HeartbeatHandler::new(45_000, 0);
    assert_eq!(handler.on_event(HeartbeatEvent::Beat { sequence: 0 }, 90_000), HeartbeatAction::BroadcastKill);
    assert!(handler.is_dead());
}

#[test]
fn the_kill_signal_stops_the_heartbeat_handler_quietly() {
    let mut handler = HeartbeatHandler::new(45_000, 0);
    assert_eq!(handler.on_event(HeartbeatEvent::Kill, 10), HeartbeatAction::Stop);
    assert!(handler.is_dead());
    assert_eq!(HeartbeatAction::Stop.frame(), None);
}

fn store_with_disconnected(at: u64) -> GatewayUsersStore {
    let mut store = GatewayUsersStore::new();
    let index = store.get_or_create(9);
    let mut session = client(9, "abc", 16);
    for n in 1..=3u64 {
        session.dispatch(numbered(n)).unwrap();
    }
    assert!(!store.has_session(&"abc".to_string()));
    store.attach(index, session);
    assert!(store.disconnect(&"abc".to_string(), at));
    store
}

#[test]
fn resume_succeeds_within_the_grace_window_and_fails_after_it() {
    let config = GatewayConfig::new("s".to_string());
    assert_eq!(config.resume_grace_secs, 90);

    let mut store = store_with_disconnected(1_000);
    let inside = resume_connection(&mut store, &config, &resume("abc", 1), true, 91_000).unwrap();
    assert_eq!(inside.user_id, 9);
    assert_eq!(inside.session_id, "abc");
    assert_eq!(inside.replay, vec![dispatch_frame(2, 2), dispatch_frame(3, 3)]);
    assert!(store.client(0, 0).is_live());

    let mut store = store_with_disconnected(1_000);
    let outside = resume_connection(&mut store, &config, &resume("abc", 1), true, 91_001);
    assert_eq!(outside, Err(GatewayError::CannotResume));
    assert!(!store.client(0, 0).is_live());
}

#[test]
fn resume_is_refused_for_each_obstacle() {
    let config = GatewayConfig::new("s".to_string());

    let mut store = store_with_disconnected(1_000);
    assert_eq!(
        resume_connection(&mut store, &config, &resume("abc", 1), false, 2_000),
        Err(GatewayError::InvalidToken)
    );
    assert_eq!(
        resume_connection(&mut store, &config, &resume("nobody", 1), true, 2_000),
        Err(GatewayError::CannotResume)
    );
    assert_eq!(
        resume_connection(&mut store, &config, &resume("abc", 0), true, 2_000),
        Err(GatewayError::CannotResume)
    );
    assert_eq!(store.client(0, 0).disconnect_info(), Some(1_000));

    let mut live = GatewayUsersStore::new();
    let index = live.get_or_create(9);
    live.attach(index, client(9, "abc", 16));
    assert_eq!(
        resume_connection(&mut live, &config, &resume("abc", 0), true, 2_000),
        Err(GatewayError::CannotResume)
    );
}

#[test]
fn a_user_is_reclaimed_after_its_last_session_lapsed() {
    let mut store = store_with_disconnected(1_000);
    let other = store.get_or_create(10);
    store.attach(other, client(10, "live", 16));

    assert!(store.reap(91_000, 90).is_empty());
    assert!(store.contains(9));
    assert!(store.has_session(&"abc".to_string()));

    let gone = store.reap(91_001, 90);
    assert_eq!(gone.len(), 1);
    assert_eq!(gone[0].session_id(), "abc");
    assert!(!store.contains(9));
    assert!(!store.has_session(&"abc".to_string()));
    assert!(store.contains(10));
    assert_eq!(store.user_count(), 1);
}

#[test]
fn a_user_is_reclaimed_when_its_last_session_is_closed() {
    let mut store = GatewayUsersStore::new();
    let index = store.get_or_create(5);
    store.attach(index, client(5, "a", 4));
    assert!(!store.has_session(&"b".to_string()));
    store.attach(index, client(5, "b", 4));

    let notice = store.close_client(&"a".to_string(), GatewayError::Closed).unwrap();
    assert_eq!(notice.session_id, "a");
    assert_eq!(notice.parent, 5);
    assert_eq!(notice.code, None);
    assert!(store.contains(5));
    assert_eq!(store.user(0).client_count(), 1);

    let notice = store.close_client(&"b".to_string(), GatewayError::Timeout).unwrap();
    assert_eq!(notice.code, Some(4009));
    assert!(!store.contains(5));
    assert_eq!(store.user_count(), 0);
    assert_eq!(store.close_client(&"b".to_string(), GatewayError::Closed), None);
}

#[test]
fn a_failed_delivery_leaves_the_other_sessions_served() {
    let mut user = GatewayUser::new(1);
    user.attach(client(1, "a", 4));
    user.attach(client(1, "b", 4));
    user.attach(client(1, "c", 4));

    let deliveries = user.broadcast(&numbered(1));
    assert_eq!(deliveries.len(), 3);
    assert_eq!(deliveries[1].index, 1);
    assert_eq!(deliveries[1].session_id, "b");
    user.delivery_failed(1, 700);

    assert!(user.client(0).is_live());
    assert!(!user.client(1).is_live());
    assert_eq!(user.client(1).disconnect_info(), Some(700));
    assert!(user.client(2).is_live());
    for index in 0..3 {
        assert_eq!(user.client(index).sequence(), 1);
        assert_eq!(user.client(index).frames_after(0), vec![dispatch_frame(1, 1)]);
    }

    let deliveries = user.broadcast(&numbered(2));
    assert_eq!(deliveries.len(), 2);
    assert_eq!(deliveries[0].session_id, "a");
    assert_eq!(deliveries[0].frame, dispatch_frame(2, 2));
    assert_eq!(deliveries[1].session_id, "c");
    assert_eq!(deliveries[1].index, 2);
    assert_eq!(user.client_count(), 3);
    assert_eq!(user.client(1).sequence(), 1);
}

#[test]
fn a_session_whose_peer_fell_silent_is_ended() {
    let mut store = GatewayUsersStore::new();
    let index = store.get_or_create(4);
    store.attach(index, client(4, "quiet", 4));
    let mut handler = HeartbeatHandler::new(45_000, 0);
    assert_eq!(handler.on_event(HeartbeatEvent::Tick, 90_000), HeartbeatAction::BroadcastKill);

    let notice = end_silent_session(&mut store, &"quiet".to_string()).unwrap();
    assert_eq!(notice.session_id, "quiet");
    assert_eq!(notice.parent, 4);
    assert_eq!(notice.code, None);
    assert!(!store.has_session(&"quiet".to_string()));
    assert!(!store.contains(4));
    assert_eq!(end_silent_session(&mut store, &"quiet".to_string()), None);
}
