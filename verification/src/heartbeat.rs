use crate::client::CloseNotice;
use crate::clock::{elapsed, elapsed_ms};
use crate::error::GatewayError;
use crate::store::{session_owner, GatewayUsersStore};
use crate::wire::ServerFrame;
use vstd::prelude::*;

verus! {

/// Where a connection's heartbeat supervision stands.
#[derive(Clone, Copy, Debug, PartialEq, Eq, Structural)]
pub enum HeartbeatState {
    /// Started; no heartbeat has arrived yet.
    Idle,
    /// At least one heartbeat has arrived in time.
    Live,
    /// Ended, by silence of the peer or by the kill signal.
    Dead,
}

/// What the supervision is told.
#[derive(Clone, Copy, Debug, PartialEq, Eq, Structural)]
pub enum HeartbeatEvent {
    /// The peer sent a heartbeat; `sequence` is the last sequence number
    /// dispatched to it at that moment.
    Beat { sequence: u64 },
    /// Time has passed.
    Tick,
    /// Somebody else ended the session.
    Kill,
}

/// What is to be done after an event.
#[derive(Clone, Copy, Debug, PartialEq, Eq, Structural)]
pub enum HeartbeatAction {
    /// Nothing.
    Nothing,
    /// Send the acknowledgement that echoes `seq`.
    Ack { seq: u64 },
    /// The peer was silent for too long: signal kill to the session's tasks,
    /// end the session and stop.
    BroadcastKill,
    /// Stop without signalling.
    Stop,
}

/// Heartbeat supervision of one connection. Times are in milliseconds on a
/// clock of the caller's choice.
#[derive(Clone, Copy, Debug, PartialEq, Eq)]
pub struct HeartbeatHandler {
    pub state: HeartbeatState,
    /// The interval advertised in the hello frame.
    pub interval_ms: u64,
    /// When the last heartbeat was acknowledged; at first, when the
    /// supervision started.
    pub last_ack: u64,
}

impl HeartbeatHandler {
    /// Supervision that starts at `now`.
    pub open spec fn spec_new(interval_ms: u64, now: u64) -> HeartbeatHandler {
        HeartbeatHandler { state: HeartbeatState::Idle, interval_ms, last_ack: now }
    }

    /// Whether at `now` twice the interval has passed since the last
    /// acknowledgement.
    pub open spec fn expired(self, now: u64) -> bool {
        elapsed_ms(self.last_ack, now) >= 2 * self.interval_ms
    }

    /// The supervision after an event at `now`, and what is to be done.
    /// Once dead it stays dead. The kill signal ends it. An event that comes
    /// when twice the interval has passed without a heartbeat ends it too,
    /// and kill is signalled. Otherwise a heartbeat is acknowledged at once
    /// and the clock starts anew.
    pub open spec fn step(self, event: HeartbeatEvent, now: u64) -> (
        HeartbeatHandler,
        HeartbeatAction,
    ) {
        if self.state == HeartbeatState::Dead {
            (self, HeartbeatAction::Nothing)
        } else if event == HeartbeatEvent::Kill {
            (HeartbeatHandler { state: HeartbeatState::Dead, ..self }, HeartbeatAction::Stop)
        } else if self.expired(now) {
            (
                HeartbeatHandler { state: HeartbeatState::Dead, ..self },
                HeartbeatAction::BroadcastKill,
            )
        } else {
            match event {
                HeartbeatEvent::Beat { sequence } => (
                    HeartbeatHandler { state: HeartbeatState::Live, last_ack: now, ..self },
                    HeartbeatAction::Ack { seq: sequence },
                ),
                _ => (self, HeartbeatAction::Nothing),
            }
        }
    }

    /// The supervision after the events `events`, each with its time.
    pub open spec fn run(self, events: Seq<(HeartbeatEvent, u64)>) -> HeartbeatHandler
        decreases events.len(),
    {
        if events.len() == 0 {
            self
        } else {
            self.run(events.drop_last()).step(events.last().0, events.last().1).0
        }
    }

    /// Starts the supervision of a connection at `now`.
    pub fn new(interval_ms: u64, now: u64) -> (handler: HeartbeatHandler)
        ensures
            handler == Self::spec_new(interval_ms, now),
    {
        HeartbeatHandler { state: HeartbeatState::Idle, interval_ms, last_ack: now }
    }

    /// Whether at `now` twice the interval has passed since the last
    /// acknowledgement.
    pub fn is_expired(&self, now: u64) -> (late: bool)
        ensures
            late == self.expired(now),
    {
        let passed: u128 = elapsed(self.last_ack, now) as u128;
        let limit: u128 = 2 * (self.interval_ms as u128);
        passed >= limit
    }

    /// Takes one event at `now` and says what is to be done.
    pub fn on_event(&mut self, event: HeartbeatEvent, now: u64) -> (action: HeartbeatAction)
        ensures
            (*final(self), action) == old(self).step(event, now),
    {
        if self.state == HeartbeatState::Dead {
            return HeartbeatAction::Nothing;
        }
        if event == HeartbeatEvent::Kill {
            self.state = HeartbeatState::Dead;
            return HeartbeatAction::Stop;
        }
        if self.is_expired(now) {
            self.state = HeartbeatState::Dead;
            return HeartbeatAction::BroadcastKill;
        }
        match event {
            HeartbeatEvent::Beat { sequence } => {
                self.state = HeartbeatState::Live;
                self.last_ack = now;
                HeartbeatAction::Ack { seq: sequence }
            },
            _ => HeartbeatAction::Nothing,
        }
    }

    /// Whether the supervision has ended.
    pub fn is_dead(&self) -> (dead: bool)
        ensures
            dead == (self.state == HeartbeatState::Dead),
    {
        self.state == HeartbeatState::Dead
    }
}

impl HeartbeatAction {
    /// The frame to send for this action: the acknowledgement, for `Ack`.
    pub fn frame(&self) -> (frame: Option<ServerFrame>)
        ensures
            match *self {
                HeartbeatAction::Ack { seq } => frame == Some(ServerFrame::HeartbeatAck { seq }),
                _ => frame is None,
            },
    {
        match self {
            HeartbeatAction::Ack { seq } => Some(ServerFrame::HeartbeatAck { seq: *seq }),
            _ => None,
        }
    }
}

/// Ends the session `session_id` whose peer fell silent: the session is
/// detached as closed, and its user leaves the store where that was its last
/// session. The result says whose tasks are to be killed; `None` where there
/// is no such session.
pub fn end_silent_session(store: &mut GatewayUsersStore, session_id: &String) -> (notice: Option<
    CloseNotice,
>)
    requires
        old(store).wf(),
    ensures
        final(store).wf(),
        final(store)@ == old(store)@.without_session(session_id@),
        match notice {
            Some(n) => old(store)@.has_session(session_id@) && n.session_id@ == session_id@
                && n.parent == old(store)@.users[session_owner(
                old(store)@.users,
                session_id@,
            )].id && n.code is None,
            None => !old(store)@.has_session(session_id@),
        },
{
    store.close_client(session_id, GatewayError::Closed)
}

/// Whether none of the events is a heartbeat.
pub open spec fn no_beat(events: Seq<(HeartbeatEvent, u64)>) -> bool {
    forall|i: int| 0 <= i < events.len() ==> !((#[trigger] events[i]).0 is Beat)
}

/// Without a heartbeat the clock is never started anew, and a dead
/// supervision stays dead.
pub proof fn lemma_silence_keeps_clock(handler: HeartbeatHandler, events: Seq<(HeartbeatEvent, u64)>)
    requires
        no_beat(events),
    ensures
        handler.run(events).last_ack == handler.last_ack,
        handler.run(events).interval_ms == handler.interval_ms,
        handler.state == HeartbeatState::Dead ==> handler.run(events).state
            == HeartbeatState::Dead,
    decreases events.len(),
{
    if events.len() > 0 {
        assert(no_beat(events.drop_last())) by {
            assert forall|i: int| 0 <= i < events.drop_last().len() implies !((
            #[trigger] events.drop_last()[i]).0 is Beat) by {
                assert(events.drop_last()[i] == events[i]);
            }
        }
        lemma_silence_keeps_clock(handler, events.drop_last());
        assert(!(events[events.len() - 1].0 is Beat));
    }
}

/// Heartbeat liveness: where no heartbeat arrives and an event comes when
/// twice the interval has passed since the last acknowledgement, the
/// supervision is dead after that event; and unless it was ended before, that
/// event signals kill.
pub proof fn lemma_silence_is_fatal(handler: HeartbeatHandler, events: Seq<(HeartbeatEvent, u64)>)
    requires
        events.len() > 0,
        no_beat(events),
        handler.expired(events.last().1),
    ensures
        handler.run(events).state == HeartbeatState::Dead,
        handler.run(events.drop_last()).state != HeartbeatState::Dead && events.last().0
            != HeartbeatEvent::Kill ==> handler.run(events.drop_last()).step(
            events.last().0,
            events.last().1,
        ).1 == HeartbeatAction::BroadcastKill,
{
    assert(no_beat(events.drop_last())) by {
        assert forall|i: int| 0 <= i < events.drop_last().len() implies !((
        #[trigger] events.drop_last()[i]).0 is Beat) by {
            assert(events.drop_last()[i] == events[i]);
        }
    }
    lemma_silence_keeps_clock(handler, events.drop_last());
}

/// A heartbeat that comes in time is acknowledged with the sequence number
/// it was given, and keeps the supervision alive.
pub proof fn lemma_beat_in_time_is_acked(handler: HeartbeatHandler, sequence: u64, now: u64)
    requires
        handler.state != HeartbeatState::Dead,
        !handler.expired(now),
    ensures
        handler.step(HeartbeatEvent::Beat { sequence }, now).0.state == HeartbeatState::Live,
        handler.step(HeartbeatEvent::Beat { sequence }, now).0.last_ack == now,
        handler.step(HeartbeatEvent::Beat { sequence }, now).1 == (HeartbeatAction::Ack {
            seq: sequence,
        }),
{
}

} // verus!
