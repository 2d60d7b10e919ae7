use crate::clock::{is_longer_than, longer_than};
use crate::error::GatewayError;
use crate::replay::{empty_replay, frames_view, ReplayBuffer, ReplayView};
use crate::wire::{Event, EventView, ServerFrame, ServerFrameView};
use vstd::prelude::*;

verus! {

/// Mathematical value of a [`GatewayClient`].
pub struct ClientView {
    /// The id of the user that the session belongs to.
    pub parent: u64,
    pub session_id: Seq<char>,
    pub session_token: Seq<char>,
    pub replay: ReplayView,
    /// When the transport was lost, while the session waits for a resume.
    pub disconnect_info: Option<u64>,
}

impl ClientView {
    /// The invariant of a session: its buffer holds the most recent events,
    /// and its counters fit their types.
    pub open spec fn wf(self) -> bool {
        &&& self.replay.wf()
        &&& self.replay.capacity <= usize::MAX
        &&& self.replay.last_seq <= u64::MAX
    }

    /// Whether the session has a transport.
    pub open spec fn live(self) -> bool {
        self.disconnect_info is None
    }

    /// The sequence number of the last event dispatched to the session.
    pub open spec fn sequence(self) -> nat {
        self.replay.last_seq
    }

    /// The session after `event` was dispatched to it.
    pub open spec fn dispatched(self, event: EventView) -> ClientView {
        ClientView { replay: self.replay.push(event), ..self }
    }

    /// The frame that carries `event` to the session.
    pub open spec fn next_frame(self, event: EventView) -> ServerFrameView {
        ServerFrameView::Dispatch { seq: (self.replay.last_seq + 1) as u64, event }
    }

    /// The session after its transport was lost at `now`. A session that
    /// waits for a resume already keeps the time of its first loss.
    pub open spec fn disconnected(self, now: u64) -> ClientView {
        if self.live() {
            ClientView { disconnect_info: Some(now), ..self }
        } else {
            self
        }
    }

    /// The session after a new transport took the place of the lost one.
    pub open spec fn reattached(self) -> ClientView {
        ClientView { disconnect_info: None, ..self }
    }

    /// Whether the session waits for a resume and at `now` its grace window
    /// of `grace_secs` seconds is still open.
    pub open spec fn resumable(self, now: u64, grace_secs: u64) -> bool {
        self.disconnect_info matches Some(since) && !longer_than(since, now, grace_secs)
    }

    /// Whether the session waits for a resume and at `now` its grace window
    /// of `grace_secs` seconds has closed.
    pub open spec fn lapsed(self, now: u64, grace_secs: u64) -> bool {
        self.disconnect_info matches Some(since) && longer_than(since, now, grace_secs)
    }
}

/// One client session of a user. The transport and the tasks that serve it
/// belong to whoever runs them; the session is found again by its id.
pub struct GatewayClient {
    parent: u64,
    session_id: String,
    session_token: String,
    replay: ReplayBuffer,
    disconnect_info: Option<u64>,
}

impl View for GatewayClient {
    type V = ClientView;

    closed spec fn view(&self) -> ClientView {
        ClientView {
            parent: self.parent,
            session_id: self.session_id@,
            session_token: self.session_token@,
            replay: self.replay@,
            disconnect_info: self.disconnect_info,
        }
    }
}

impl GatewayClient {
    /// The invariant of the session.
    pub open spec fn wf(&self) -> bool {
        self@.wf()
    }

    /// A live session of user `parent` to which nothing has been dispatched.
    pub fn new(parent: u64, session_id: String, session_token: String, replay_buffer_size: usize) -> (client: GatewayClient)
        ensures
            client.wf(),
            client@ == (ClientView {
                parent,
                session_id: session_id@,
                session_token: session_token@,
                replay: empty_replay(replay_buffer_size as nat),
                disconnect_info: None,
            }),
    {
        GatewayClient {
            parent,
            session_id,
            session_token,
            replay: ReplayBuffer::new(replay_buffer_size),
            disconnect_info: None,
        }
    }

    /// The id of the user that the session belongs to.
    pub fn parent(&self) -> (id: u64)
        ensures
            id == self@.parent,
    {
        self.parent
    }

    /// The id of the session.
    pub fn session_id(&self) -> (id: &String)
        ensures
            id@ == self@.session_id,
    {
        &self.session_id
    }

    /// The token that was presented when the session was opened.
    pub fn session_token(&self) -> (token: &String)
        ensures
            token@ == self@.session_token,
    {
        &self.session_token
    }

    /// The sequence number of the last event dispatched to the session.
    pub fn sequence(&self) -> (seq: u64)
        requires
            self.wf(),
        ensures
            seq == self@.sequence(),
    {
        self.replay.last_seq()
    }

    /// When the transport was lost, while the session waits for a resume.
    pub fn disconnect_info(&self) -> (since: Option<u64>)
        ensures
            since == self@.disconnect_info,
    {
        self.disconnect_info
    }

    /// Whether the session has a transport.
    pub fn is_live(&self) -> (live: bool)
        ensures
            live == self@.live(),
    {
        self.disconnect_info.is_none()
    }

    /// Whether the session has the id `session_id`.
    pub fn has_session_id(&self, session_id: &String) -> (same: bool)
        ensures
            same == (self@.session_id == session_id@),
    {
        self.session_id == *session_id
    }

    /// Whether the session waits for a resume and its grace window is open.
    pub fn is_resumable(&self, now: u64, grace_secs: u64) -> (open: bool)
        ensures
            open == self@.resumable(now, grace_secs),
    {
        match self.disconnect_info {
            Some(since) => !is_longer_than(since, now, grace_secs),
            None => false,
        }
    }

    /// Whether the session waits for a resume and its grace window has closed.
    pub fn is_lapsed(&self, now: u64, grace_secs: u64) -> (closed: bool)
        ensures
            closed == self@.lapsed(now, grace_secs),
    {
        match self.disconnect_info {
            Some(since) => is_longer_than(since, now, grace_secs),
            None => false,
        }
    }

    /// Dispatches `event` to the session: gives it the next sequence number,
    /// keeps it for replay and returns the frame to send. A session without
    /// a transport takes no event: the result is `Transport` and nothing
    /// changes.
    pub fn dispatch(&mut self, event: Event) -> (result: Result<ServerFrame, GatewayError>)
        requires
            old(self).wf(),
            old(self)@.sequence() < u64::MAX,
        ensures
            final(self).wf(),
            old(self)@.live() ==> result is Ok && result->Ok_0@ == old(self)@.next_frame(event@)
                && final(self)@ == old(self)@.dispatched(event@),
            !old(self)@.live() ==> result == Err::<ServerFrame, GatewayError>(
                GatewayError::Transport,
            ) && final(self)@ == old(self)@,
    {
        if self.disconnect_info.is_some() {
            return Err(GatewayError::Transport);
        }
        let frame = ServerFrame::dispatch(self.replay.last_seq() + 1, &event);
        let _ = self.replay.push(event);
        Ok(frame)
    }

    /// Records how the sending of a dispatched frame ended. Where it failed
    /// the session loses its transport at `now` and waits for a resume; the
    /// result is `Transport`, and the session's tasks are to be killed.
    pub fn sent(&mut self, delivered: bool, now: u64) -> (result: Result<(), GatewayError>)
        requires
            old(self).wf(),
        ensures
            final(self).wf(),
            delivered ==> result is Ok && final(self)@ == old(self)@,
            !delivered ==> result == Err::<(), GatewayError>(GatewayError::Transport)
                && final(self)@ == old(self)@.disconnected(now),
    {
        if delivered {
            Ok(())
        } else {
            self.into_disconnected(now);
            Err(GatewayError::Transport)
        }
    }

    /// Puts the session into the state in which it waits for a resume: the
    /// transport is gone since `now`.
    pub fn into_disconnected(&mut self, now: u64)
        requires
            old(self).wf(),
        ensures
            final(self).wf(),
            final(self)@ == old(self)@.disconnected(now),
    {
        if self.disconnect_info.is_none() {
            self.disconnect_info = Some(now);
        }
    }

    /// Gives the session a new transport in place of the lost one.
    pub fn reattach(&mut self)
        requires
            old(self).wf(),
        ensures
            final(self).wf(),
            final(self)@ == old(self)@.reattached(),
    {
        self.disconnect_info = None;
    }

    /// Whether a peer that has seen everything up to `after` can be brought
    /// up to date from what the session keeps.
    pub fn can_replay(&self, after: u64) -> (ok: bool)
        requires
            self.wf(),
        ensures
            ok == self@.replay.can_replay(after as int),
    {
        self.replay.can_replay(after)
    }

    /// The frames of the events dispatched after `after` that are still
    /// kept, in the order of their sequence numbers.
    pub fn frames_after(&self, after: u64) -> (frames: Vec<ServerFrame>)
        requires
            self.wf(),
        ensures
            frames_view(frames@) == self@.replay.frames_after(after as int),
    {
        self.replay.frames_after(after)
    }

    /// Ends the session for the reason `reason`. The session's tasks are to
    /// be killed and awaited; the result says what the peer is told.
    pub fn close(self, reason: GatewayError) -> (notice: CloseNotice)
        ensures
            notice.session_id@ == self@.session_id,
            notice.parent == self@.parent,
            notice.code == reason.spec_close_code(),
    {
        CloseNotice { parent: self.parent, session_id: self.session_id, code: reason.close_code() }
    }
}

/// What is left of a session that was closed.
#[derive(Clone, Debug, PartialEq, Eq)]
pub struct CloseNotice {
    /// The id of the user that the session belonged to.
    pub parent: u64,
    /// The id of the session whose tasks are to be killed.
    pub session_id: String,
    /// The close code to send to the peer, if the reason has one.
    pub code: Option<u16>,
}

/// The session after `events` were dispatched to it in order.
pub open spec fn dispatch_all(start: ClientView, events: Seq<EventView>) -> ClientView
    decreases events.len(),
{
    if events.len() == 0 {
        start
    } else {
        dispatch_all(start, events.drop_last()).dispatched(events.last())
    }
}

/// Sequence numbers are gap-free: of the events dispatched to a session
/// since it was opened, the one at position `i` (from 0) travels under the
/// sequence number `i + 1`, and the session's counter stands at their number.
pub proof fn lemma_sequences_are_contiguous(start: ClientView, events: Seq<EventView>, i: int)
    requires
        start.sequence() == 0,
        0 <= i < events.len(),
        events.len() <= u64::MAX,
    ensures
        dispatch_all(start, events).sequence() == events.len(),
        dispatch_all(start, events.take(i)).next_frame(events[i]) == (ServerFrameView::Dispatch {
            seq: (i + 1) as u64,
            event: events[i],
        }),
{
    lemma_dispatch_counts(start, events);
    lemma_dispatch_counts(start, events.take(i));
}

/// Each dispatch moves the counter by one and touches nothing but the
/// replay buffer.
pub proof fn lemma_dispatch_counts(start: ClientView, events: Seq<EventView>)
    ensures
        dispatch_all(start, events).sequence() == start.sequence() + events.len(),
        dispatch_all(start, events).disconnect_info == start.disconnect_info,
        dispatch_all(start, events).session_id == start.session_id,
        dispatch_all(start, events).parent == start.parent,
    decreases events.len(),
{
    if events.len() > 0 {
        lemma_dispatch_counts(start, events.drop_last());
    }
}

} // verus!
