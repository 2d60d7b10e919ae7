use crate::client::{ClientView, GatewayClient};
use crate::clock::{at_least, is_at_least};
use crate::config::GatewayConfig;
use crate::error::GatewayError;
use crate::replay::{empty_replay, frames_view};
use crate::resume::resume_connection;
use crate::store::{
    lemma_session_owner, lemma_user_position, user_position, with_clients, GatewayUsersStore,
    StoreState,
};
use crate::wire::{
    frame_of, hello_frame, hello_text, parse_frame, FrameView, Heartbeat, InboundFrame, Resume,
    ServerFrame,
};
use vstd::prelude::*;

verus! {

/// Capacity of the channel that carries the kill signal of a session.
pub const KILL_CHANNEL_CAPACITY: usize = 1;

/// Capacity of the channel that carries heartbeats to the heartbeat handler.
pub const HEARTBEAT_CHANNEL_CAPACITY: usize = 4;

/// Capacity of the channel that carries the session id to the heartbeat
/// handler.
pub const SESSION_ID_CHANNEL_CAPACITY: usize = 1;

/// Where the handshake of a connection stands.
#[derive(Clone, Copy, Debug, PartialEq, Eq, Structural)]
pub enum Phase {
    /// The hello was sent; the peer has neither identified nor resumed.
    AwaitingIdentity,
    /// An identify arrived; its token is being verified.
    VerifyingIdentify,
    /// A resume arrived; its token is being verified.
    VerifyingResume,
    /// The peer was admitted.
    Established,
    /// The handshake ended with this error.
    Failed(GatewayError),
}

/// What happens on a connection besides frames.
#[derive(Clone, Copy, Debug, PartialEq, Eq, Structural)]
pub enum Signal {
    /// The peer's stream ended.
    StreamEnded,
    /// Receiving failed.
    ReceiveFailed,
    /// The peer closed the connection.
    PeerClosed,
    /// The kill signal was observed.
    Kill,
    /// Time has passed.
    Tick,
}

impl Signal {
    /// Whether the signal ends a connection in good order: the peer closed,
    /// or the kill signal fired.
    pub open spec fn closes(self) -> bool {
        self == Signal::Kill || self == Signal::PeerClosed
    }
}

/// What the handshake is told.
#[derive(Clone, Debug, PartialEq, Eq)]
pub enum HandshakeEvent {
    /// A text frame arrived.
    Frame(String),
    Signal(Signal),
}

/// An event of the handshake with its frame decoded.
pub enum HandshakeInput {
    Frame(FrameView),
    Signal(Signal),
}

impl View for HandshakeEvent {
    type V = HandshakeInput;

    open spec fn view(&self) -> HandshakeInput {
        match *self {
            HandshakeEvent::Frame(text) => HandshakeInput::Frame(frame_of(text@)),
            HandshakeEvent::Signal(signal) => HandshakeInput::Signal(signal),
        }
    }
}

/// What is to be done after an event of the handshake.
#[derive(Clone, Debug, PartialEq, Eq)]
pub enum HandshakeStep {
    /// Nothing; go on waiting.
    Wait,
    /// The first heartbeat of the connection: start the heartbeat handler
    /// and hand it this heartbeat.
    SpawnHeartbeat(Heartbeat),
    /// A later heartbeat: hand it to the heartbeat handler.
    ForwardHeartbeat(Heartbeat),
    /// Verify this token, then complete the identify or the resume with the
    /// outcome.
    VerifyToken { token: String },
    /// The handshake is over; the peer is turned away as `farewell` says.
    Fail { error: GatewayError },
}

/// Mathematical value of a [`HandshakeStep`].
pub enum StepView {
    Wait,
    SpawnHeartbeat(Heartbeat),
    ForwardHeartbeat(Heartbeat),
    VerifyToken { token: Seq<char> },
    Fail { error: GatewayError },
}

impl View for HandshakeStep {
    type V = StepView;

    open spec fn view(&self) -> StepView {
        match *self {
            HandshakeStep::Wait => StepView::Wait,
            HandshakeStep::SpawnHeartbeat(beat) => StepView::SpawnHeartbeat(beat),
            HandshakeStep::ForwardHeartbeat(beat) => StepView::ForwardHeartbeat(beat),
            HandshakeStep::VerifyToken { token } => StepView::VerifyToken { token: token@ },
            HandshakeStep::Fail { error } => StepView::Fail { error },
        }
    }
}

/// Mathematical value of a [`Handshake`].
pub struct HandshakeView {
    pub phase: Phase,
    /// When the handshake began, in milliseconds.
    pub started_at: u64,
    /// The deadline of the handshake, in seconds from its beginning.
    pub timeout_secs: u64,
    /// Whether the heartbeat handler of the connection was started.
    pub heartbeat_spawned: bool,
    /// The token of the identify or resume that is being verified.
    pub token: Seq<char>,
    /// The session id of the resume that is being verified.
    pub session_id: Seq<char>,
    /// The sequence number of the resume that is being verified.
    pub last_seq: u64,
}

impl HandshakeView {
    /// A handshake that begins at `now`.
    pub open spec fn begun(timeout_secs: u64, now: u64) -> HandshakeView {
        HandshakeView {
            phase: Phase::AwaitingIdentity,
            started_at: now,
            timeout_secs,
            heartbeat_spawned: false,
            token: Seq::empty(),
            session_id: Seq::empty(),
            last_seq: 0,
        }
    }

    /// Whether the handshake has ended, one way or the other.
    pub open spec fn over(self) -> bool {
        self.phase is Established || self.phase is Failed
    }

    /// Whether at `now` the deadline has passed.
    pub open spec fn overdue(self, now: u64) -> bool {
        at_least(self.started_at, now, self.timeout_secs)
    }

    /// The handshake ended with `error`, and what is to be done then.
    pub open spec fn fail(self, error: GatewayError) -> (HandshakeView, StepView) {
        (HandshakeView { phase: Phase::Failed(error), ..self }, StepView::Fail { error })
    }

    /// The handshake after the frame `frame`, and what is to be done. A
    /// heartbeat starts the heartbeat handler the first time and is handed to
    /// it from then on. An identify or a resume has its token verified, once:
    /// while one is being verified another is not expected. Any other frame is
    /// not expected either.
    pub open spec fn on_frame(self, frame: FrameView) -> (HandshakeView, StepView) {
        match frame {
            FrameView::Heartbeat(beat) => if self.heartbeat_spawned {
                (self, StepView::ForwardHeartbeat(beat))
            } else {
                (
                    HandshakeView { heartbeat_spawned: true, ..self },
                    StepView::SpawnHeartbeat(beat),
                )
            },
            FrameView::Identify { token } => if self.phase is AwaitingIdentity {
                (
                    HandshakeView { phase: Phase::VerifyingIdentify, token, ..self },
                    StepView::VerifyToken { token },
                )
            } else {
                self.fail(GatewayError::UnexpectedMessage)
            },
            FrameView::Resume { session_id, token, seq } => if self.phase is AwaitingIdentity {
                (
                    HandshakeView {
                        phase: Phase::VerifyingResume,
                        token,
                        session_id,
                        last_seq: seq,
                        ..self
                    },
                    StepView::VerifyToken { token },
                )
            } else {
                self.fail(GatewayError::UnexpectedMessage)
            },
            FrameView::Unrecognized { .. } => self.fail(GatewayError::UnexpectedMessage),
        }
    }

    /// The handshake after an event at `now`, and what is to be done. A
    /// handshake that is over takes nothing more. The kill signal ends it as
    /// `Closed`, and so does the peer by closing. Any other event that comes
    /// when the deadline has passed ends it as
    /// `Timeout`. Before the deadline the end of the stream counts as
    /// `Timeout` too, a failed receive as `Transport`, and a frame is taken
    /// as `on_frame` says.
    pub open spec fn step(self, input: HandshakeInput, now: u64) -> (HandshakeView, StepView) {
        if self.over() {
            (self, StepView::Wait)
        } else if input matches HandshakeInput::Signal(signal) && signal.closes() {
            self.fail(GatewayError::Closed)
        } else if self.overdue(now) {
            self.fail(GatewayError::Timeout)
        } else {
            match input {
                HandshakeInput::Frame(frame) => self.on_frame(frame),
                HandshakeInput::Signal(Signal::StreamEnded) => self.fail(GatewayError::Timeout),
                HandshakeInput::Signal(Signal::ReceiveFailed) => self.fail(
                    GatewayError::Transport,
                ),
                HandshakeInput::Signal(_) => (self, StepView::Wait),
            }
        }
    }

    /// The handshake after the events `inputs`, each with its time.
    pub open spec fn run(self, inputs: Seq<(HandshakeInput, u64)>) -> HandshakeView
        decreases inputs.len(),
    {
        if inputs.len() == 0 {
            self
        } else {
            self.run(inputs.drop_last()).step(inputs.last().0, inputs.last().1).0
        }
    }

    /// How often the events `inputs` were answered with the order to start
    /// the heartbeat handler.
    pub open spec fn spawns(self, inputs: Seq<(HandshakeInput, u64)>) -> nat
        decreases inputs.len(),
    {
        if inputs.len() == 0 {
            0
        } else if self.run(inputs.drop_last()).step(inputs.last().0, inputs.last().1).1
            is SpawnHeartbeat {
            self.spawns(inputs.drop_last()) + 1
        } else {
            self.spawns(inputs.drop_last())
        }
    }

}

/// Whether `inputs` are clock readings only, all of them before the deadline
/// of `handshake`.
pub open spec fn quiet_before_deadline(
    handshake: HandshakeView,
    inputs: Seq<(HandshakeInput, u64)>,
) -> bool {
    forall|i: int|
        0 <= i < inputs.len() ==> (#[trigger] inputs[i]).0 == HandshakeInput::Signal(Signal::Tick)
            && !handshake.overdue(inputs[i].1)
}

impl StoreState {
    /// The store after the user `user_id` was looked up or created and got
    /// the session `client`.
    pub open spec fn with_session(self, user_id: u64, client: ClientView) -> StoreState {
        let found = self.with_user(user_id);
        let place = user_position(found.users, user_id);
        StoreState {
            users: found.users.update(
                place,
                with_clients(found.users[place], found.users[place].clients.push(client)),
            ),
        }
    }
}

/// A connection whose peer was admitted.
#[derive(Debug, PartialEq, Eq)]
pub struct NewConnection {
    /// The id of the user.
    pub user_id: u64,
    /// The id of the session.
    pub session_id: String,
    /// Whether the heartbeat handler is still to be started: it is not where
    /// a heartbeat before the identify or resume has started it already.
    pub spawn_heartbeat: bool,
    /// The frames that a resumed peer has missed, to send in this order
    /// before anything else; none after an identify.
    pub replay: Vec<ServerFrame>,
}

/// The handshake of one connection: from the hello to the admission of the
/// peer, or to the error that ends it.
pub struct Handshake {
    phase: Phase,
    started_at: u64,
    timeout_secs: u64,
    heartbeat_spawned: bool,
    token: String,
    session_id: String,
    last_seq: u64,
}

impl View for Handshake {
    type V = HandshakeView;

    closed spec fn view(&self) -> HandshakeView {
        HandshakeView {
            phase: self.phase,
            started_at: self.started_at,
            timeout_secs: self.timeout_secs,
            heartbeat_spawned: self.heartbeat_spawned,
            token: self.token@,
            session_id: self.session_id@,
            last_seq: self.last_seq,
        }
    }
}

/// Begins the handshake of a connection at `now`. Where the upgrade to a
/// WebSocket failed there is none: the result is `HandshakeFailed`. Otherwise
/// the result holds the handshake, which awaits the peer's identity, and the
/// text of the hello frame to send, which advertises the configured heartbeat
/// interval.
pub fn establish_connection(upgraded: bool, config: &GatewayConfig, now: u64) -> (result: Result<
    (Handshake, String),
    GatewayError,
>)
    ensures
        upgraded ==> result is Ok && result->Ok_0.0@ == HandshakeView::begun(
            config.handshake_timeout_secs,
            now,
        ) && result->Ok_0.1@ == hello_text(config.heartbeat_interval_ms),
        !upgraded ==> result == Err::<(Handshake, String), GatewayError>(
            GatewayError::HandshakeFailed,
        ),
{
    if !upgraded {
        return Err(GatewayError::HandshakeFailed);
    }
    let handshake = Handshake {
        phase: Phase::AwaitingIdentity,
        started_at: now,
        timeout_secs: config.handshake_timeout_secs,
        heartbeat_spawned: false,
        token: String::new(),
        session_id: String::new(),
        last_seq: 0,
    };
    Ok((handshake, hello_frame(config.heartbeat_interval_ms)))
}

/// Looks the user `user_id` up in the store, creating it where the store
/// does not hold it, and gives its position.
pub fn get_or_new_gateway_user(user_id: u64, store: &mut GatewayUsersStore) -> (index: usize)
    requires
        old(store).wf(),
    ensures
        final(store).wf(),
        final(store)@ == old(store)@.with_user(user_id),
        index == user_position(final(store)@.users, user_id),
        index < final(store)@.users.len(),
        final(store)@.users[index as int].id == user_id,
{
    store.get_or_create(user_id)
}

impl Handshake {
    /// Where the handshake stands.
    pub fn phase(&self) -> (phase: Phase)
        ensures
            phase == self@.phase,
    {
        self.phase
    }

    /// Whether the heartbeat handler of the connection was started.
    pub fn heartbeat_spawned(&self) -> (spawned: bool)
        ensures
            spawned == self@.heartbeat_spawned,
    {
        self.heartbeat_spawned
    }

    /// Whether at `now` the deadline has passed.
    pub fn is_overdue(&self, now: u64) -> (late: bool)
        ensures
            late == self@.overdue(now),
    {
        is_at_least(self.started_at, now, self.timeout_secs)
    }

    /// Ends the handshake with `error`.
    fn fail(&mut self, error: GatewayError) -> (step: HandshakeStep)
        ensures
            (final(self)@, step@) == old(self)@.fail(error),
    {
        self.phase = Phase::Failed(error);
        HandshakeStep::Fail { error }
    }

    /// Whether the handshake has ended.
    pub fn is_over(&self) -> (over: bool)
        ensures
            over == self@.over(),
    {
        match self.phase {
            Phase::Established => true,
            Phase::Failed(_) => true,
            _ => false,
        }
    }

    /// Takes a decoded frame that arrived at `now` and says what is to be
    /// done.
    pub fn on_frame(&mut self, frame: InboundFrame, now: u64) -> (step: HandshakeStep)
        ensures
            (final(self)@, step@) == old(self)@.step(HandshakeInput::Frame(frame@), now),
    {
        if self.is_over() {
            return HandshakeStep::Wait;
        }
        if self.is_overdue(now) {
            return self.fail(GatewayError::Timeout);
        }
        let awaiting = match self.phase {
            Phase::AwaitingIdentity => true,
            _ => false,
        };
        match frame {
            InboundFrame::Heartbeat(beat) => {
                if self.heartbeat_spawned {
                    HandshakeStep::ForwardHeartbeat(beat)
                } else {
                    self.heartbeat_spawned = true;
                    HandshakeStep::SpawnHeartbeat(beat)
                }
            },
            InboundFrame::Identify(identify) => {
                if awaiting {
                    self.phase = Phase::VerifyingIdentify;
                    self.token = identify.token.clone();
                    HandshakeStep::VerifyToken { token: identify.token }
                } else {
                    self.fail(GatewayError::UnexpectedMessage)
                }
            },
            InboundFrame::Resume(resume) => {
                if awaiting {
                    self.phase = Phase::VerifyingResume;
                    self.token = resume.token.clone();
                    self.session_id = resume.session_id;
                    self.last_seq = resume.seq;
                    HandshakeStep::VerifyToken { token: resume.token }
                } else {
                    self.fail(GatewayError::UnexpectedMessage)
                }
            },
            InboundFrame::Unrecognized { .. } => self.fail(GatewayError::UnexpectedMessage),
        }
    }

    /// Takes a signal that came at `now` and says what is to be done.
    pub fn on_signal(&mut self, signal: Signal, now: u64) -> (step: HandshakeStep)
        ensures
            (final(self)@, step@) == old(self)@.step(HandshakeInput::Signal(signal), now),
    {
        if self.is_over() {
            return HandshakeStep::Wait;
        }
        match signal {
            Signal::Kill => {
                return self.fail(GatewayError::Closed);
            },
            Signal::PeerClosed => {
                return self.fail(GatewayError::Closed);
            },
            _ => {},
        }
        if self.is_overdue(now) {
            return self.fail(GatewayError::Timeout);
        }
        match signal {
            Signal::StreamEnded => self.fail(GatewayError::Timeout),
            Signal::ReceiveFailed => self.fail(GatewayError::Transport),
            _ => HandshakeStep::Wait,
        }
    }

    /// Takes one event of the handshake at `now`, decoding the frame where
    /// it is one, and says what is to be done.
    pub fn finish_connecting(&mut self, event: HandshakeEvent, now: u64) -> (step: HandshakeStep)
        ensures
            (final(self)@, step@) == old(self)@.step(event@, now),
    {
        match event {
            HandshakeEvent::Frame(text) => {
                let frame = parse_frame(text.as_str());
                self.on_frame(frame, now)
            },
            HandshakeEvent::Signal(signal) => self.on_signal(signal, now),
        }
    }

    /// Completes an identify once its token has been verified: `claims` is
    /// the id of the user that the token names, `None` for a token that did
    /// not verify. With a token that verified the user is looked up or
    /// created and gets a new live session with the id `session_id`; the
    /// handshake is established. With one that did not the handshake ends as
    /// `InvalidToken`, and the kill signal is to be given. A handshake that
    /// has failed meanwhile answers with its error. On a handshake that is
    /// not verifying an identify the call is not expected. Unless the peer is
    /// admitted the store stays as it is.
    pub fn complete_identify(
        &mut self,
        store: &mut GatewayUsersStore,
        claims: Option<u64>,
        session_id: String,
        config: &GatewayConfig,
    ) -> (result: Result<NewConnection, GatewayError>)
        requires
            old(store).wf(),
            !old(store)@.has_session(session_id@),
        ensures
            final(store).wf(),
            old(self)@.phase is VerifyingIdentify && claims is Some ==> {
                &&& result is Ok
                &&& result->Ok_0.user_id == claims->0
                &&& result->Ok_0.session_id@ == session_id@
                &&& result->Ok_0.spawn_heartbeat == !old(self)@.heartbeat_spawned
                &&& result->Ok_0.replay@.len() == 0
                &&& final(self)@ == (HandshakeView {
                    phase: Phase::Established,
                    heartbeat_spawned: true,
                    ..old(self)@
                })
                &&& final(store)@ == old(store)@.with_session(
                    claims->0,
                    ClientView {
                        parent: claims->0,
                        session_id: session_id@,
                        session_token: old(self)@.token,
                        replay: empty_replay(config.replay_buffer_size as nat),
                        disconnect_info: None,
                    },
                )
                &&& final(store)@.contains(claims->0)
                &&& final(store)@.has_session(session_id@)
                &&& final(store)@.session(session_id@) == (ClientView {
                    parent: claims->0,
                    session_id: session_id@,
                    session_token: old(self)@.token,
                    replay: empty_replay(config.replay_buffer_size as nat),
                    disconnect_info: None,
                })
            },
            old(self)@.phase is VerifyingIdentify && claims is None ==> {
                &&& result == Err::<NewConnection, GatewayError>(GatewayError::InvalidToken)
                &&& final(self)@ == (HandshakeView {
                    phase: Phase::Failed(GatewayError::InvalidToken),
                    ..old(self)@
                })
                &&& final(store)@ == old(store)@
            },
            old(self)@.phase is Failed ==> {
                &&& result == Err::<NewConnection, GatewayError>(old(self)@.phase->Failed_0)
                &&& final(self)@ == old(self)@
                &&& final(store)@ == old(store)@
            },
            !(old(self)@.phase is VerifyingIdentify) && !(old(self)@.phase is Failed) ==> {
                &&& result == Err::<NewConnection, GatewayError>(GatewayError::UnexpectedMessage)
                &&& final(self)@ == old(self)@
                &&& final(store)@ == old(store)@
            },
    {
        match self.phase {
            Phase::VerifyingIdentify => {},
            Phase::Failed(error) => {
                return Err(error);
            },
            _ => {
                return Err(GatewayError::UnexpectedMessage);
            },
        }
        let user_id: u64 = match claims {
            Some(id) => id,
            None => {
                self.phase = Phase::Failed(GatewayError::InvalidToken);
                return Err(GatewayError::InvalidToken);
            },
        };
        let ghost before = store@;
        let index = get_or_new_gateway_user(user_id, store);
        assert(!store@.has_session(session_id@)) by {
            lemma_session_owner(before.users, session_id@);
            lemma_session_owner(store@.users, session_id@);
            let owner = crate::store::session_owner(store@.users, session_id@);
            if owner < before.users.len() {
                assert(store@.users[owner] == before.users[owner]);
            } else if owner < store@.users.len() {
                assert(store@.users[owner].clients.len() == 0);
            }
        }
        let client = GatewayClient::new(
            user_id,
            session_id.clone(),
            self.token.clone(),
            config.replay_buffer_size,
        );
        store.attach(index, client);
        proof {
            lemma_user_position(store@.users, user_id);
            assert(store@.users[index as int].id == user_id);
        }
        let spawn_heartbeat = !self.heartbeat_spawned;
        self.heartbeat_spawned = true;
        self.phase = Phase::Established;
        Ok(NewConnection { user_id, session_id, spawn_heartbeat, replay: Vec::new() })
    }

    /// Completes a resume once its token has been verified. Where the resume
    /// goes ahead the session has the new transport, the handshake is
    /// established, and the result holds the frames that the peer has missed.
    /// Where it does not the handshake ends with the error: `InvalidToken`,
    /// for which the kill signal is to be given, or `CannotResume`, which is
    /// answered with an invalid session frame. A handshake that has failed
    /// meanwhile answers with its error. On a handshake that is not verifying
    /// a resume the call is not expected. Unless the resume goes ahead the
    /// store stays as it is.
    pub fn complete_resume(
        &mut self,
        store: &mut GatewayUsersStore,
        token_valid: bool,
        config: &GatewayConfig,
        now: u64,
    ) -> (result: Result<NewConnection, GatewayError>)
        requires
            old(store).wf(),
        ensures
            final(store).wf(),
            old(self)@.phase is VerifyingResume && old(store)@.resume_obstacle(
                old(self)@.session_id,
                old(self)@.last_seq,
                token_valid,
                now,
                config.resume_grace_secs,
            ) is None ==> {
                &&& result is Ok
                &&& result->Ok_0.user_id == old(store)@.session(old(self)@.session_id).parent
                &&& result->Ok_0.session_id@ == old(self)@.session_id
                &&& result->Ok_0.spawn_heartbeat == !old(self)@.heartbeat_spawned
                &&& frames_view(result->Ok_0.replay@) == old(store)@.session(
                    old(self)@.session_id,
                ).replay.frames_after(old(self)@.last_seq as int)
                &&& final(self)@ == (HandshakeView {
                    phase: Phase::Established,
                    heartbeat_spawned: true,
                    ..old(self)@
                })
                &&& final(store)@ == old(store)@.with_reattached(old(self)@.session_id)
                &&& final(store)@.has_session(old(self)@.session_id)
                &&& final(store)@.session(old(self)@.session_id) == old(store)@.session(
                    old(self)@.session_id,
                ).reattached()
            },
            old(self)@.phase is VerifyingResume && old(store)@.resume_obstacle(
                old(self)@.session_id,
                old(self)@.last_seq,
                token_valid,
                now,
                config.resume_grace_secs,
            ) is Some ==> {
                &&& result == Err::<NewConnection, GatewayError>(
                    old(store)@.resume_obstacle(
                        old(self)@.session_id,
                        old(self)@.last_seq,
                        token_valid,
                        now,
                        config.resume_grace_secs,
                    )->0,
                )
                &&& final(self)@ == (HandshakeView {
                    phase: Phase::Failed(result->Err_0),
                    ..old(self)@
                })
                &&& final(store)@ == old(store)@
            },
            old(self)@.phase is Failed ==> {
                &&& result == Err::<NewConnection, GatewayError>(old(self)@.phase->Failed_0)
                &&& final(self)@ == old(self)@
                &&& final(store)@ == old(store)@
            },
            !(old(self)@.phase is VerifyingResume) && !(old(self)@.phase is Failed) ==> {
                &&& result == Err::<NewConnection, GatewayError>(GatewayError::UnexpectedMessage)
                &&& final(self)@ == old(self)@
                &&& final(store)@ == old(store)@
            },
    {
        match self.phase {
            Phase::VerifyingResume => {},
            Phase::Failed(error) => {
                return Err(error);
            },
            _ => {
                return Err(GatewayError::UnexpectedMessage);
            },
        }
        let resume = Resume {
            session_id: self.session_id.clone(),
            token: self.token.clone(),
            seq: self.last_seq,
        };
        match resume_connection(store, config, &resume, token_valid, now) {
            Ok(resumed) => {
                let spawn_heartbeat = !self.heartbeat_spawned;
                self.heartbeat_spawned = true;
                self.phase = Phase::Established;
                Ok(
                    NewConnection {
                        user_id: resumed.user_id,
                        session_id: resumed.session_id,
                        spawn_heartbeat,
                        replay: resumed.replay,
                    },
                )
            },
            Err(error) => {
                self.phase = Phase::Failed(error);
                Err(error)
            },
        }
    }
}

/// How a peer whose handshake has failed is turned away.
#[derive(Clone, Debug, PartialEq, Eq)]
pub struct Farewell {
    /// Whether the kill signal is to be given first.
    pub kill: bool,
    /// The frame to send, if any.
    pub frame: Option<ServerFrame>,
    /// The code to close the connection with, if any.
    pub close_code: Option<u16>,
}

/// How a peer is turned away after a handshake that ended with `error`. A
/// token that did not verify has the kill signal given. A resume that cannot
/// go ahead is answered with an invalid session frame, so that the peer
/// identifies anew. The connection is closed with the code of the error, if
/// it has one.
pub fn farewell(error: GatewayError) -> (parting: Farewell)
    ensures
        parting.kill == spec_kill_after(error),
        parting.frame == if error.spec_invites_reidentify() {
            Some(ServerFrame::InvalidSession)
        } else {
            None
        },
        parting.close_code == error.spec_close_code(),
{
    let frame = if error.invites_reidentify() {
        Some(ServerFrame::InvalidSession)
    } else {
        None
    };
    Farewell { kill: kill_after(error), frame, close_code: error.close_code() }
}

/// Whether the kill signal is to be given for the error that a handshake
/// ended with: it is for a token that did not verify.
pub open spec fn spec_kill_after(error: GatewayError) -> bool {
    error == GatewayError::InvalidToken
}

/// Whether the kill signal is to be given for the error that a handshake
/// ended with.
pub fn kill_after(error: GatewayError) -> (kill: bool)
    ensures
        kill == spec_kill_after(error),
{
    match error {
        GatewayError::InvalidToken => true,
        _ => false,
    }
}

/// Handshake deadline: a connection on which nothing arrives stays in its
/// phase as long as the clock stands before the deadline, and is ended as
/// `Timeout`, to be closed with code 4009, by the first reading at or after
/// it.
pub proof fn lemma_handshake_deadline(
    handshake: HandshakeView,
    inputs: Seq<(HandshakeInput, u64)>,
    now: u64,
)
    requires
        !handshake.over(),
        quiet_before_deadline(handshake, inputs),
        handshake.overdue(now),
    ensures
        handshake.run(inputs) == handshake,
        handshake.run(inputs).step(HandshakeInput::Signal(Signal::Tick), now) == handshake.fail(
            GatewayError::Timeout,
        ),
        GatewayError::Timeout.spec_close_code() == Some(4009u16),
    decreases inputs.len(),
{
    if inputs.len() > 0 {
        assert(quiet_before_deadline(handshake, inputs.drop_last())) by {
            assert forall|i: int| 0 <= i < inputs.drop_last().len() implies (
            #[trigger] inputs.drop_last()[i]).0 == HandshakeInput::Signal(Signal::Tick)
                && !handshake.overdue(inputs.drop_last()[i].1) by {
                assert(inputs.drop_last()[i] == inputs[i]);
            }
        }
        lemma_handshake_deadline(handshake, inputs.drop_last(), now);
        assert(inputs[inputs.len() - 1].0 == HandshakeInput::Signal(Signal::Tick));
    }
}

/// The heartbeat handler is started at most once: whatever arrives on a
/// connection whose handler was not started, the order to start it is given
/// once at most, and it was given exactly where the handshake holds the
/// handler for started. The admission then asks for a handler only where
/// none was started.
pub proof fn lemma_heartbeat_is_spawned_once(
    handshake: HandshakeView,
    inputs: Seq<(HandshakeInput, u64)>,
)
    requires
        !handshake.heartbeat_spawned,
    ensures
        handshake.spawns(inputs) <= 1,
        handshake.spawns(inputs) == 1 <==> handshake.run(inputs).heartbeat_spawned,
    decreases inputs.len(),
{
    if inputs.len() > 0 {
        lemma_heartbeat_is_spawned_once(handshake, inputs.drop_last());
    }
}

/// The deadline is hard: whatever arrives when it has passed, short of the
/// kill signal and of the peer's closing, ends a handshake that was still
/// open as `Timeout`.
pub proof fn lemma_deadline_is_hard(handshake: HandshakeView, input: HandshakeInput, now: u64)
    requires
        !handshake.over(),
        handshake.overdue(now),
        !(input matches HandshakeInput::Signal(signal) && signal.closes()),
    ensures
        handshake.step(input, now) == handshake.fail(GatewayError::Timeout),
{
}

} // verus!
