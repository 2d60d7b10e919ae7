use vstd::prelude::*;

verus! {

/// Server to client: a named event with its sequence number.
pub const OP_DISPATCH: u8 = 0;

/// Client to server: keepalive that carries the last sequence the client saw.
pub const OP_HEARTBEAT: u8 = 1;

/// Client to server: first authentication of a new session.
pub const OP_IDENTIFY: u8 = 2;

/// Client to server: presence update.
pub const OP_PRESENCE_UPDATE: u8 = 3;

/// Client to server: voice state update.
pub const OP_VOICE_STATE_UPDATE: u8 = 4;

/// Client to server: reattach to an earlier session.
pub const OP_RESUME: u8 = 6;

/// Server to client: advice to reconnect.
pub const OP_RECONNECT: u8 = 7;

/// Client to server: request for the members of a guild.
pub const OP_REQUEST_GUILD_MEMBERS: u8 = 8;

/// Server to client: the resume failed or the session was invalidated.
pub const OP_INVALID_SESSION: u8 = 9;

/// Server to client: greeting that advertises the heartbeat interval.
pub const OP_HELLO: u8 = 10;

/// Server to client: answer to a heartbeat.
pub const OP_HEARTBEAT_ACK: u8 = 11;

/// A keepalive frame as the peer sent it: its opcode field and the last
/// sequence number the peer reports, if any.
#[derive(Clone, Copy, Debug, PartialEq, Eq)]
pub struct Heartbeat {
    pub op: u8,
    pub d: Option<u64>,
}

/// The payload of an identify frame.
#[derive(Clone, Debug, PartialEq, Eq)]
pub struct Identify {
    pub token: String,
}

/// The payload of a resume frame.
#[derive(Clone, Debug, PartialEq, Eq)]
pub struct Resume {
    pub session_id: String,
    pub token: String,
    pub seq: u64,
}

/// A frame received from the peer, sorted into the shapes the gateway knows.
#[derive(Clone, Debug, PartialEq, Eq)]
pub enum InboundFrame {
    Heartbeat(Heartbeat),
    Identify(Identify),
    Resume(Resume),
    /// None of the three shapes; `op` is the frame's opcode where it has one.
    Unrecognized { op: Option<u64> },
}

/// Mathematical value of an [`InboundFrame`].
pub enum FrameView {
    Heartbeat(Heartbeat),
    Identify { token: Seq<char> },
    Resume { session_id: Seq<char>, token: Seq<char>, seq: u64 },
    Unrecognized { op: Option<u64> },
}

impl View for InboundFrame {
    type V = FrameView;

    open spec fn view(&self) -> FrameView {
        match *self {
            InboundFrame::Heartbeat(hb) => FrameView::Heartbeat(hb),
            InboundFrame::Identify(id) => FrameView::Identify { token: id.token@ },
            InboundFrame::Resume(rs) => FrameView::Resume {
                session_id: rs.session_id@,
                token: rs.token@,
                seq: rs.seq,
            },
            InboundFrame::Unrecognized { op } => FrameView::Unrecognized { op },
        }
    }
}

/// The characters of an optional string.
pub open spec fn text_of(s: Option<String>) -> Option<Seq<char>> {
    match s {
        Some(t) => Some(t@),
        None => None,
    }
}

/// What decoding the JSON text `text` as a keepalive frame gives; `None`
/// where it cannot be decoded as one.
pub uninterp spec fn heartbeat_of(text: Seq<char>) -> Option<Heartbeat>;

/// A value found in a JSON document, as far as the gateway reads it.
#[derive(Clone, Debug, PartialEq, Eq)]
pub enum JsonScalar {
    /// An integer that is not negative and fits 64 bits.
    Unsigned(u64),
    /// A string.
    Text(String),
    /// Anything else.
    Other,
}

/// Mathematical value of a [`JsonScalar`].
pub enum ScalarView {
    Unsigned(u64),
    Text(Seq<char>),
    Other,
}

impl View for JsonScalar {
    type V = ScalarView;

    open spec fn view(&self) -> ScalarView {
        match *self {
            JsonScalar::Unsigned(n) => ScalarView::Unsigned(n),
            JsonScalar::Text(t) => ScalarView::Text(t@),
            JsonScalar::Other => ScalarView::Other,
        }
    }
}

/// The mathematical value of an optional scalar.
pub open spec fn scalar_of(found: Option<JsonScalar>) -> Option<ScalarView> {
    match found {
        Some(scalar) => Some(scalar@),
        None => None,
    }
}

/// The unsigned integer that `found` is, if it is one.
pub open spec fn unsigned_in(found: Option<ScalarView>) -> Option<u64> {
    match found {
        Some(ScalarView::Unsigned(n)) => Some(n),
        _ => None,
    }
}

/// The string that `found` is, if it is one.
pub open spec fn text_in(found: Option<ScalarView>) -> Option<Seq<char>> {
    match found {
        Some(ScalarView::Text(t)) => Some(t),
        _ => None,
    }
}

/// What is found in the JSON document `text` at the JSON pointer `pointer`;
/// `None` where the text is no JSON or the pointer leads nowhere.
pub uninterp spec fn json_at(text: Seq<char>, pointer: Seq<char>) -> Option<ScalarView>;

/// The JSON text of a hello frame that advertises `heartbeat_interval_ms`.
pub uninterp spec fn hello_text(heartbeat_interval_ms: u64) -> Seq<char>;

/// `serde_json::from_str` at `chorus::types::GatewayHeartbeat`: the decoded
/// keepalive, or `None` where decoding fails. The result depends on the text
/// alone; nothing else is claimed of it.
#[verifier::external_body]
fn parse_heartbeat(text: &str) -> (r: Option<Heartbeat>)
    ensures
        r == heartbeat_of(text@),
{
    match serde_json::from_str::<chorus::types::GatewayHeartbeat>(text) {
        Ok(hb) => Some(Heartbeat { op: hb.op, d: hb.d }),
        Err(_) => None,
    }
}

/// `serde_json::from_str` at `serde_json::Value`, then `Value::pointer`, and
/// `Number::as_u64` where a number is found: what stands at `pointer`. The
/// result depends on the two texts alone; nothing else is claimed of it.
#[verifier::external_body]
fn json_scalar(text: &str, pointer: &str) -> (r: Option<JsonScalar>)
    ensures
        scalar_of(r) == json_at(text@, pointer@),
{
    let value = serde_json::from_str::<serde_json::Value>(text).ok()?;
    Some(
        match value.pointer(pointer)? {
            serde_json::Value::String(found) => JsonScalar::Text(found.clone()),
            serde_json::Value::Number(number) => match number.as_u64() {
                Some(n) => JsonScalar::Unsigned(n),
                None => JsonScalar::Other,
            },
            _ => JsonScalar::Other,
        },
    )
}

/// What stands in the JSON document `text` at the JSON pointer `pointer`.
pub fn scalar_at(text: &str, pointer: &str) -> (found: Option<JsonScalar>)
    ensures
        scalar_of(found) == json_at(text@, pointer@),
{
    json_scalar(text, pointer)
}

/// The unsigned integer that `found` is, if it is one.
pub fn unsigned(found: &Option<JsonScalar>) -> (n: Option<u64>)
    ensures
        n == unsigned_in(scalar_of(*found)),
{
    match found {
        Some(JsonScalar::Unsigned(n)) => Some(*n),
        _ => None,
    }
}

/// The string that `found` is, if it is one.
pub fn text(found: Option<JsonScalar>) -> (t: Option<String>)
    ensures
        text_of(t) == text_in(scalar_of(found)),
{
    match found {
        Some(JsonScalar::Text(t)) => Some(t),
        _ => None,
    }
}

/// `serde_json::to_string` at `chorus::types::GatewayHello`, with the
/// opcode that chorus gives a hello and the given interval. The result depends
/// on the interval alone; nothing else is claimed of it.
#[verifier::external_body]
fn encode_hello(heartbeat_interval_ms: u64) -> (r: String)
    ensures
        r@ == hello_text(heartbeat_interval_ms),
{
    let hello = chorus::types::GatewayHello {
        d: chorus::types::HelloData { heartbeat_interval: heartbeat_interval_ms },
        ..chorus::types::GatewayHello::default()
    };
    serde_json::to_string(&hello).unwrap_or_default()
}

/// How a frame is sorted once its parts have been decoded. A frame that
/// decodes as a keepalive is one, whatever else it holds. Otherwise opcode 2
/// with a token is an identify, and opcode 6 with a session id, a token and a
/// sequence number is a resume. Anything else is unrecognized.
pub open spec fn frame_of_parts(
    heartbeat: Option<Heartbeat>,
    op: Option<u64>,
    token: Option<Seq<char>>,
    session_id: Option<Seq<char>>,
    seq: Option<u64>,
) -> FrameView {
    if heartbeat is Some {
        FrameView::Heartbeat(heartbeat->0)
    } else if op == Some(2u64) && token is Some {
        FrameView::Identify { token: token->0 }
    } else if op == Some(6u64) && token is Some && session_id is Some && seq is Some {
        FrameView::Resume { session_id: session_id->0, token: token->0, seq: seq->0 }
    } else {
        FrameView::Unrecognized { op }
    }
}

/// The frame that the text `text` stands for.
pub open spec fn frame_of(text: Seq<char>) -> FrameView {
    frame_of_parts(
        heartbeat_of(text),
        unsigned_in(json_at(text, "/op"@)),
        text_in(json_at(text, "/d/token"@)),
        text_in(json_at(text, "/d/session_id"@)),
        unsigned_in(json_at(text, "/d/seq"@)),
    )
}

/// Sorts a frame from its decoded parts.
pub fn classify(
    heartbeat: Option<Heartbeat>,
    op: Option<u64>,
    token: Option<String>,
    session_id: Option<String>,
    seq: Option<u64>,
) -> (frame: InboundFrame)
    ensures
        frame@ == frame_of_parts(heartbeat, op, text_of(token), text_of(session_id), seq),
{
    if let Some(hb) = heartbeat {
        return InboundFrame::Heartbeat(hb);
    }
    let opcode: u64 = match op {
        Some(code) => code,
        None => {
            return InboundFrame::Unrecognized { op };
        },
    };
    if opcode == 2 {
        match token {
            Some(t) => InboundFrame::Identify(Identify { token: t }),
            None => InboundFrame::Unrecognized { op },
        }
    } else if opcode == 6 {
        match (token, session_id, seq) {
            (Some(t), Some(sid), Some(last)) => InboundFrame::Resume(
                Resume { session_id: sid, token: t, seq: last },
            ),
            _ => InboundFrame::Unrecognized { op },
        }
    } else {
        InboundFrame::Unrecognized { op }
    }
}

/// Decodes one text frame received from the peer.
pub fn parse_frame(text: &str) -> (frame: InboundFrame)
    ensures
        frame@ == frame_of(text@),
{
    let heartbeat = parse_heartbeat(text);
    let op = unsigned(&json_scalar(text, "/op"));
    let token = self::text(json_scalar(text, "/d/token"));
    let session_id = self::text(json_scalar(text, "/d/session_id"));
    let seq = unsigned(&json_scalar(text, "/d/seq"));
    classify(heartbeat, op, token, session_id, seq)
}

/// The text of the hello frame that opens every connection.
pub fn hello_frame(heartbeat_interval_ms: u64) -> (text: String)
    ensures
        text@ == hello_text(heartbeat_interval_ms),
{
    encode_hello(heartbeat_interval_ms)
}

/// An event as it is published: its name and its payload, a JSON text.
#[derive(Clone, Debug, PartialEq, Eq)]
pub struct Event {
    pub name: String,
    pub data: String,
}

/// Mathematical value of an [`Event`].
pub struct EventView {
    pub name: Seq<char>,
    pub data: Seq<char>,
}

impl View for Event {
    type V = EventView;

    open spec fn view(&self) -> EventView {
        EventView { name: self.name@, data: self.data@ }
    }
}

impl Event {
    /// A copy of the event.
    pub fn duplicate(&self) -> (copy: Event)
        ensures
            copy@ == self@,
    {
        Event { name: self.name.clone(), data: self.data.clone() }
    }
}

/// A frame that the server sends, before it is put into text.
#[derive(Clone, Debug, PartialEq, Eq)]
pub enum ServerFrame {
    /// Opcode 0: the event `name` with payload `data` under sequence `seq`.
    Dispatch { seq: u64, name: String, data: String },
    /// Opcode 11: the answer to a heartbeat; `seq` is the last sequence
    /// dispatched to the client, 0 where nothing was dispatched yet.
    HeartbeatAck { seq: u64 },
    /// Opcode 7.
    Reconnect,
    /// Opcode 9.
    InvalidSession,
}

/// Mathematical value of a [`ServerFrame`].
pub enum ServerFrameView {
    Dispatch { seq: u64, event: EventView },
    HeartbeatAck { seq: u64 },
    Reconnect,
    InvalidSession,
}

impl View for ServerFrame {
    type V = ServerFrameView;

    open spec fn view(&self) -> ServerFrameView {
        match *self {
            ServerFrame::Dispatch { seq, name, data } => ServerFrameView::Dispatch {
                seq,
                event: EventView { name: name@, data: data@ },
            },
            ServerFrame::HeartbeatAck { seq } => ServerFrameView::HeartbeatAck { seq },
            ServerFrame::Reconnect => ServerFrameView::Reconnect,
            ServerFrame::InvalidSession => ServerFrameView::InvalidSession,
        }
    }
}

impl ServerFrameView {
    /// The opcode under which the frame travels.
    pub open spec fn opcode(self) -> u8 {
        match self {
            ServerFrameView::Dispatch { .. } => 0u8,
            ServerFrameView::HeartbeatAck { .. } => 11u8,
            ServerFrameView::Reconnect => 7u8,
            ServerFrameView::InvalidSession => 9u8,
        }
    }

    /// The sequence number in the frame's `s` field, if it has one.
    pub open spec fn sequence(self) -> Option<u64> {
        match self {
            ServerFrameView::Dispatch { seq, .. } => Some(seq),
            ServerFrameView::HeartbeatAck { seq } => if seq == 0 {
                None
            } else {
                Some(seq)
            },
            _ => None,
        }
    }
}

impl ServerFrame {
    /// The opcode under which the frame travels.
    pub fn opcode(&self) -> (op: u8)
        ensures
            op == self@.opcode(),
    {
        match self {
            ServerFrame::Dispatch { .. } => OP_DISPATCH,
            ServerFrame::HeartbeatAck { .. } => OP_HEARTBEAT_ACK,
            ServerFrame::Reconnect => OP_RECONNECT,
            ServerFrame::InvalidSession => OP_INVALID_SESSION,
        }
    }

    /// The sequence number that goes into the frame's `s` field: that of a
    /// dispatch, and in an acknowledgement the last one dispatched, left out
    /// while nothing has been dispatched.
    pub fn sequence(&self) -> (s: Option<u64>)
        ensures
            s == self@.sequence(),
    {
        match self {
            ServerFrame::Dispatch { seq, .. } => Some(*seq),
            ServerFrame::HeartbeatAck { seq } => if *seq == 0 {
                None
            } else {
                Some(*seq)
            },
            _ => None,
        }
    }

    /// The dispatch frame that carries `event` under sequence `seq`.
    pub fn dispatch(seq: u64, event: &Event) -> (frame: ServerFrame)
        ensures
            frame@ == (ServerFrameView::Dispatch { seq, event: event@ }),
    {
        ServerFrame::Dispatch { seq, name: event.name.clone(), data: event.data.clone() }
    }
}

} // verus!
