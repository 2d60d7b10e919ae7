use crate::decimal::{decimal_of, parse_decimal};
use crate::store::{GatewayUsersStore, StoreState};
use crate::wire::{
    frame_of, json_at, parse_frame, scalar_at, scalar_of, FrameView, Heartbeat, InboundFrame,
    JsonScalar, ScalarView,
};
use vstd::prelude::*;

verus! {

/// What the task that reads a session's connection is told.
#[derive(Clone, Debug, PartialEq, Eq)]
pub enum TaskEvent {
    /// A text frame arrived.
    Frame(String),
    /// The peer sent a close frame.
    PeerClosed,
    /// Receiving failed.
    ReceiveFailed,
    /// The kill signal was observed.
    Kill,
}

/// What the task is to do after an event.
#[derive(Clone, Copy, Debug, PartialEq, Eq)]
pub enum TaskAction {
    /// Hand the heartbeat to the heartbeat handler.
    ForwardHeartbeat(Heartbeat),
    /// The frame has changed what the user listens to. `op` is the frame's
    /// opcode.
    SubscriptionChange { op: u8 },
    /// The transport is lost and the session waits for a resume: give the
    /// kill signal and end.
    Disconnected,
    /// End.
    Stop,
    /// Nothing.
    Ignore,
}

/// Where a frame of a live session goes. A heartbeat goes to the heartbeat
/// handler. A presence update, a voice state update and a request for guild
/// members change the subscriptions. Everything else is passed over.
pub open spec fn route_of(frame: FrameView) -> TaskAction {
    match frame {
        FrameView::Heartbeat(beat) => TaskAction::ForwardHeartbeat(beat),
        FrameView::Unrecognized { op: Some(code) } => if code == 3 || code == 4 || code == 8 {
            TaskAction::SubscriptionChange { op: code as u8 }
        } else {
            TaskAction::Ignore
        },
        _ => TaskAction::Ignore,
    }
}

/// Where a decoded frame of a live session goes.
pub fn route(frame: &InboundFrame) -> (action: TaskAction)
    ensures
        action == route_of(frame@),
{
    match frame {
        InboundFrame::Heartbeat(beat) => TaskAction::ForwardHeartbeat(*beat),
        InboundFrame::Unrecognized { op: Some(code) } => {
            if *code == 3 {
                TaskAction::SubscriptionChange { op: crate::wire::OP_PRESENCE_UPDATE }
            } else if *code == 4 {
                TaskAction::SubscriptionChange { op: crate::wire::OP_VOICE_STATE_UPDATE }
            } else if *code == 8 {
                TaskAction::SubscriptionChange { op: crate::wire::OP_REQUEST_GUILD_MEMBERS }
            } else {
                TaskAction::Ignore
            }
        },
        _ => TaskAction::Ignore,
    }
}

/// The topic that `found` names: a number, or a string that writes one in
/// base ten.
pub open spec fn topic_in(found: Option<ScalarView>) -> Option<u64> {
    match found {
        Some(ScalarView::Unsigned(n)) => Some(n),
        Some(ScalarView::Text(t)) => decimal_of(t),
        _ => None,
    }
}

/// The guild that the payload of the frame `text` names, if it names one.
pub open spec fn guild_of(text: Seq<char>) -> Option<u64> {
    topic_in(json_at(text, "/d/guild_id"@))
}

/// The channel that the payload of the frame `text` names, if it names one.
pub open spec fn channel_of(text: Seq<char>) -> Option<u64> {
    topic_in(json_at(text, "/d/channel_id"@))
}

/// The topic that `found` names.
pub fn topic(found: &Option<JsonScalar>) -> (named: Option<u64>)
    ensures
        named == topic_in(scalar_of(*found)),
{
    match found {
        Some(JsonScalar::Unsigned(n)) => Some(*n),
        Some(JsonScalar::Text(t)) => parse_decimal(t.as_str()),
        _ => None,
    }
}

impl StoreState {
    /// The store after the user of the session `session_id` was subscribed to
    /// `topic`; as it was where there is no topic or no such session.
    pub open spec fn with_listener(self, session_id: Seq<char>, topic: Option<u64>) -> StoreState {
        if topic is Some && self.has_session(session_id) {
            self.with_subscription(self.session(session_id).parent, topic->0)
        } else {
            self
        }
    }

    /// The store after a frame of the session `session_id` that changes
    /// subscriptions: the session's user listens to the guild and to the
    /// channel that the frame names.
    pub open spec fn with_topics_of(self, session_id: Seq<char>, text: Seq<char>) -> StoreState {
        self.with_listener(session_id, guild_of(text)).with_listener(
            session_id,
            channel_of(text),
        )
    }
}

/// Subscribes the user of the session `session_id` to `topic`, where there
/// are both.
pub fn listen(store: &mut GatewayUsersStore, session_id: &String, topic: Option<u64>)
    requires
        old(store).wf(),
    ensures
        final(store).wf(),
        final(store)@ == old(store)@.with_listener(session_id@, topic),
{
    if let Some(named) = topic {
        if let Some((owner, index)) = store.find_session(session_id) {
            let user_id = store.client(owner, index).parent();
            let _ = store.subscribe(user_id, named);
        }
    }
}

/// Takes one event on the connection of the live session `session_id` at
/// `now` and says what the task is to do. A frame goes where `route_of`
/// says; one that changes subscriptions makes the session's user listen to
/// the guild and the channel it names, and every other frame leaves the
/// store as it is. A close frame or a failed receive makes the session wait
/// for a resume from `now` on. The kill signal ends the task.
pub fn gateway_task(
    store: &mut GatewayUsersStore,
    session_id: &String,
    event: TaskEvent,
    now: u64,
) -> (action: TaskAction)
    requires
        old(store).wf(),
    ensures
        final(store).wf(),
        match event {
            TaskEvent::Frame(text) => action == route_of(frame_of(text@)) && final(store)@
                == if action is SubscriptionChange {
                old(store)@.with_topics_of(session_id@, text@)
            } else {
                old(store)@
            },
            TaskEvent::Kill => action == TaskAction::Stop && final(store)@ == old(store)@,
            _ => action == TaskAction::Disconnected && final(store)@ == old(
                store,
            )@.with_disconnected(session_id@, now),
        },
{
    match event {
        TaskEvent::Frame(text) => {
            let frame = parse_frame(text.as_str());
            let action = route(&frame);
            match action {
                TaskAction::SubscriptionChange { .. } => {
                    let guild = topic(&scalar_at(text.as_str(), "/d/guild_id"));
                    let channel = topic(&scalar_at(text.as_str(), "/d/channel_id"));
                    listen(store, session_id, guild);
                    listen(store, session_id, channel);
                },
                _ => {},
            }
            action
        },
        TaskEvent::Kill => TaskAction::Stop,
        _ => {
            let _ = store.disconnect(session_id, now);
            TaskAction::Disconnected
        },
    }
}

} // verus!
