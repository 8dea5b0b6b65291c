//! Which requests the bridge serves, and the event stream of a turn.

use crate::text::{concat2, concat3, same_text};
use vstd::prelude::*;
use vstd::string::StringExecFns;

verus! {

/// What a request is for.
#[derive(Debug, Clone, Copy, PartialEq, Eq, Structural)]
pub enum BridgeRoute {
    Health,
    Messages,
    NotFound,
}

/// What a request is for, by its method and path.
pub open spec fn route_of(method: Seq<char>, path: Seq<char>) -> BridgeRoute {
    if method == "GET"@ && path == "/healthz"@ {
        BridgeRoute::Health
    } else if method == "POST"@ && path == "/v1/messages"@ {
        BridgeRoute::Messages
    } else {
        BridgeRoute::NotFound
    }
}

/// What a request is for, by its method and path.
pub fn bridge_route(method: &str, path: &str) -> (r: BridgeRoute)
    ensures
        r == route_of(method@, path@),
{
    if same_text(method, "GET") && same_text(path, "/healthz") {
        BridgeRoute::Health
    } else if same_text(method, "POST") && same_text(path, "/v1/messages") {
        BridgeRoute::Messages
    } else {
        BridgeRoute::NotFound
    }
}

/// Why a turn was not begun or not finished.
#[derive(Debug)]
pub enum BridgeFailure {
    BodyUnreadable,
    InvalidRequest { error: String },
    SpawnFailed { error: String },
    InvalidPayload { error: String },
    TurnNotSent { error: String },
    TurnFailed { error: String },
}

pub const BAD_REQUEST: u16 = 400;

pub const BAD_GATEWAY: u16 = 502;

impl BridgeFailure {
    /// The status of the answer.
    pub open spec fn code(&self) -> u16 {
        match *self {
            BridgeFailure::BodyUnreadable => BAD_REQUEST,
            BridgeFailure::InvalidRequest { .. } => BAD_REQUEST,
            BridgeFailure::InvalidPayload { .. } => BAD_REQUEST,
            _ => BAD_GATEWAY,
        }
    }

    /// The status of the answer: the client is to blame for what it sent, the
    /// child for the rest.
    pub fn status(&self) -> (r: u16)
        ensures
            r == self.code(),
    {
        match self {
            BridgeFailure::BodyUnreadable => BAD_REQUEST,
            BridgeFailure::InvalidRequest { .. } => BAD_REQUEST,
            BridgeFailure::InvalidPayload { .. } => BAD_REQUEST,
            _ => BAD_GATEWAY,
        }
    }

    /// The failure in words, of a provider.
    pub open spec fn text(&self, provider: Seq<char>) -> Seq<char> {
        match *self {
            BridgeFailure::BodyUnreadable => "failed to read body"@,
            BridgeFailure::InvalidRequest { error } => "invalid Anthropic MessagesRequest: "@
                + error@,
            BridgeFailure::SpawnFailed { error } => "failed to spawn "@ + provider + ": "@ + error@,
            BridgeFailure::InvalidPayload { error } => "failed to build "@ + provider
                + " stdin payload: "@ + error@,
            BridgeFailure::TurnNotSent { error } => "failed to send user turn: "@ + error@,
            BridgeFailure::TurnFailed { error } => error@,
        }
    }

    /// The failure in words, of a provider.
    pub fn message(&self, provider: &str) -> (r: String)
        ensures
            r@ == self.text(provider@),
    {
        match self {
            BridgeFailure::BodyUnreadable => "failed to read body".to_owned(),
            BridgeFailure::InvalidRequest { error } => concat2(
                "invalid Anthropic MessagesRequest: ",
                error.as_str(),
            ),
            BridgeFailure::SpawnFailed { error } => {
                let mut r: String = concat3("failed to spawn ", provider, ": ");
                r.append(error.as_str());
                r
            },
            BridgeFailure::InvalidPayload { error } => {
                let mut r: String = concat3("failed to build ", provider, " stdin payload: ");
                r.append(error.as_str());
                r
            },
            BridgeFailure::TurnNotSent { error } => concat2(
                "failed to send user turn: ",
                error.as_str(),
            ),
            BridgeFailure::TurnFailed { error } => error.clone(),
        }
    }
}

/// Whether a request asks for a stream; it does not where it does not say.
pub fn wants_stream(stream: Option<bool>) -> (b: bool)
    ensures
        b == (stream == Some(true)),
{
    match stream {
        Some(b) => b,
        None => false,
    }
}

/// The events of a message stream.
#[derive(Debug, Clone, Copy, PartialEq, Eq, Structural)]
pub enum StreamEventKind {
    MessageStart,
    ContentBlockStart,
    ContentBlockDelta,
    ContentBlockStop,
    MessageDelta,
    MessageStop,
    Ping,
}

impl StreamEventKind {
    /// The name of the event.
    pub open spec fn name(self) -> Seq<char> {
        match self {
            StreamEventKind::MessageStart => "message_start"@,
            StreamEventKind::ContentBlockStart => "content_block_start"@,
            StreamEventKind::ContentBlockDelta => "content_block_delta"@,
            StreamEventKind::ContentBlockStop => "content_block_stop"@,
            StreamEventKind::MessageDelta => "message_delta"@,
            StreamEventKind::MessageStop => "message_stop"@,
            StreamEventKind::Ping => "ping"@,
        }
    }

    /// The name of the event.
    pub fn as_str(&self) -> (r: &'static str)
        ensures
            r@ == self.name(),
    {
        match self {
            StreamEventKind::MessageStart => "message_start",
            StreamEventKind::ContentBlockStart => "content_block_start",
            StreamEventKind::ContentBlockDelta => "content_block_delta",
            StreamEventKind::ContentBlockStop => "content_block_stop",
            StreamEventKind::MessageDelta => "message_delta",
            StreamEventKind::MessageStop => "message_stop",
            StreamEventKind::Ping => "ping",
        }
    }
}

/// A server-sent event as it is written.
pub open spec fn sse_text(event: Seq<char>, data: Seq<char>) -> Seq<char> {
    "event: "@ + event + "\ndata: "@ + data + "\n\n"@
}

/// Writes a server-sent event.
pub fn format_sse(event: &str, data: &str) -> (r: String)
    ensures
        r@ == sse_text(event@, data@),
{
    let mut r: String = concat2("event: ", event);
    r.append("\ndata: ");
    r.append(data);
    r.append("\n\n");
    r
}

/// An event of the child, as far as the stream depends on it.
#[derive(Debug)]
pub struct CliEvent {
    /// What it is as an event of the message stream, with its JSON text.
    pub translated: Option<(StreamEventKind, String)>,
    /// Whether it starts a message.
    pub starts_message: bool,
    /// Whether it ends the turn, and how.
    pub result: Option<CliResult>,
}

/// How a turn ended.
#[derive(Debug)]
pub struct CliResult {
    pub is_error: bool,
    pub result: Option<String>,
}

/// A frame to send.
#[derive(Debug)]
pub enum StreamFrame {
    /// A message start that the child left out.
    SyntheticStart,
    /// An event with its JSON text.
    Event { kind: StreamEventKind, data: String },
    /// An error with its message.
    Error { message: String },
}

/// What a [`StreamFrame`] says.
pub enum FrameFacts {
    SyntheticStart,
    Event { kind: StreamEventKind, data: Seq<char> },
    Error { message: Seq<char> },
}

impl View for StreamFrame {
    type V = FrameFacts;

    open spec fn view(&self) -> FrameFacts {
        match *self {
            StreamFrame::SyntheticStart => FrameFacts::SyntheticStart,
            StreamFrame::Event { kind, data } => FrameFacts::Event { kind, data: data@ },
            StreamFrame::Error { message } => FrameFacts::Error { message: message@ },
        }
    }
}

/// What a list of frames says.
pub open spec fn frames_of(v: Seq<StreamFrame>) -> Seq<FrameFacts> {
    Seq::new(v.len(), |i: int| v[i]@)
}

/// The frames of an event of a provider, given whether a message start was sent.
pub open spec fn frames_for(started: bool, ev: CliEvent, provider: Seq<char>) -> Seq<FrameFacts> {
    let start = if !started && !ev.starts_message && ev.result is Some {
        seq![FrameFacts::SyntheticStart]
    } else {
        Seq::empty()
    };
    let body = match ev.translated {
        Some((kind, data)) => start.push(FrameFacts::Event { kind, data: data@ }),
        None => start,
    };
    match ev.result {
        Some(r) => if r.is_error {
            body.push(
                FrameFacts::Error {
                    message: match r.result {
                        Some(m) => m@,
                        None => provider + " returned an error"@,
                    },
                },
            )
        } else {
            body
        },
        None => body,
    }
}

/// The stream of one turn.
#[derive(Debug, Clone, Copy, PartialEq, Eq, Structural)]
pub struct TurnFrames {
    pub emitted_message_start: bool,
    pub closed: bool,
}

/// Whether `frames` are sent for an event, and the stream then is `after`.
pub open spec fn frames_follow(
    before: TurnFrames,
    ev: CliEvent,
    provider: Seq<char>,
    frames: Seq<FrameFacts>,
    after: TurnFrames,
) -> bool {
    &&& frames == frames_for(before.emitted_message_start, ev, provider)
    &&& after.emitted_message_start == (before.emitted_message_start || ev.starts_message
        || ev.result is Some)
    &&& after.closed == (ev.result is Some)
}

impl TurnFrames {
    /// A stream that begins.
    pub fn new() -> (r: Self)
        ensures
            !r.emitted_message_start,
            !r.closed,
    {
        TurnFrames { emitted_message_start: false, closed: false }
    }

    /// The frames for an event. Some short turns skip the message start; one
    /// is made up so that the client always sees a complete stream. A result
    /// ends the stream.
    pub fn on_event(&mut self, ev: CliEvent, provider: &str) -> (frames: Vec<StreamFrame>)
        requires
            !old(self).closed,
        ensures
            frames_follow(*old(self), ev, provider@, frames_of(frames@), *final(self)),
    {
        let mut frames: Vec<StreamFrame> = Vec::new();
        if !self.emitted_message_start {
            if ev.starts_message {
                self.emitted_message_start = true;
            } else if ev.result.is_some() {
                frames.push(StreamFrame::SyntheticStart);
                self.emitted_message_start = true;
            }
        }
        let ghost start = frames_of(frames@);
        assert(start =~= if !old(self).emitted_message_start && !ev.starts_message
            && ev.result is Some {
            seq![FrameFacts::SyntheticStart]
        } else {
            Seq::empty()
        });
        if let Some((kind, data)) = ev.translated {
            let frame: StreamFrame = StreamFrame::Event { kind, data };
            assert(frames_of(frames@.push(frame)) =~= start.push(frame@));
            frames.push(frame);
        }
        let ghost body = frames_of(frames@);
        if let Some(r) = ev.result {
            if r.is_error {
                let message: String = match r.result {
                    Some(m) => m,
                    None => concat2(provider, " returned an error"),
                };
                let frame: StreamFrame = StreamFrame::Error { message };
                assert(frames_of(frames@.push(frame)) =~= body.push(frame@));
                frames.push(frame);
            }
            self.closed = true;
        }
        frames
    }

    /// The frame for a turn that failed, which ends the stream.
    pub fn on_failure(&mut self, error: String) -> (frame: StreamFrame)
        requires
            !old(self).closed,
        ensures
            frame == (StreamFrame::Error { message: error }),
            final(self).closed,
            final(self).emitted_message_start == old(self).emitted_message_start,
    {
        self.closed = true;
        StreamFrame::Error { message: error }
    }
}

/// A result before which no message was started is preceded by a message
/// start that was made up.
pub proof fn result_is_preceded_by_a_start(started: bool, ev: CliEvent, provider: Seq<char>)
    requires
        ev.result is Some,
        !started,
    ensures
        ev.starts_message || frames_for(started, ev, provider)[0] == FrameFacts::SyntheticStart,
{
}

/// Whether a message start was sent after these events.
pub open spec fn started_after(events: Seq<CliEvent>) -> bool
    decreases events.len(),
{
    if events.len() == 0 {
        false
    } else {
        let ev = events.last();
        started_after(events.drop_last()) || ev.starts_message || ev.result is Some
    }
}

/// The frames of a stream of events.
pub open spec fn stream_frames(events: Seq<CliEvent>, provider: Seq<char>) -> Seq<FrameFacts>
    decreases events.len(),
{
    if events.len() == 0 {
        Seq::empty()
    } else {
        stream_frames(events.drop_last(), provider) + frames_for(
            started_after(events.drop_last()),
            events.last(),
            provider,
        )
    }
}

/// Whether an event that starts a message is sent on as one.
pub open spec fn is_coherent(ev: CliEvent) -> bool {
    ev.starts_message ==> ev.translated is Some && (ev.translated->0).0
        == StreamEventKind::MessageStart
}

/// Whether a frame starts a message.
pub open spec fn is_start(f: FrameFacts) -> bool {
    match f {
        FrameFacts::SyntheticStart => true,
        FrameFacts::Event { kind, .. } => kind == StreamEventKind::MessageStart,
        FrameFacts::Error { .. } => false,
    }
}

proof fn lemma_started_stream(events: Seq<CliEvent>, provider: Seq<char>) -> (at: int)
    requires
        forall|i: int| 0 <= i < events.len() ==> is_coherent(#[trigger] events[i]),
        started_after(events),
    ensures
        0 <= at < stream_frames(events, provider).len(),
        is_start(stream_frames(events, provider)[at]),
    decreases events.len(),
{
    let before = events.drop_last();
    let ev = events[events.len() - 1];
    let earlier = stream_frames(before, provider);
    let last = frames_for(started_after(before), ev, provider);
    assert forall|i: int| 0 <= i < before.len() implies is_coherent(#[trigger] before[i]) by {
        assert(before[i] == events[i]);
    }
    if started_after(before) {
        let at = lemma_started_stream(before, provider);
        assert((earlier + last)[at] == earlier[at]);
        at
    } else {
        assert(is_coherent(ev));
        assert(is_start(last[0]));
        assert((earlier + last)[earlier.len() as int] == last[0]);
        earlier.len() as int
    }
}

/// A client always sees a complete stream: one that has come to its result
/// holds a message start, the child's or one that was made up.
pub proof fn finished_stream_has_a_start(events: Seq<CliEvent>, provider: Seq<char>)
    requires
        forall|i: int| 0 <= i < events.len() ==> is_coherent(#[trigger] events[i]),
        events.len() > 0,
        events.last().result is Some,
    ensures
        exists|at: int|
            0 <= at < stream_frames(events, provider).len() && is_start(
                #[trigger] stream_frames(events, provider)[at],
            ),
{
    let at = lemma_started_stream(events, provider);
    assert(is_start(stream_frames(events, provider)[at]));
}

/// The bridge answers two requests and no other: one for its health and one
/// for a message.
pub proof fn two_requests_are_served(method: Seq<char>, path: Seq<char>)
    ensures
        route_of("GET"@, "/healthz"@) == BridgeRoute::Health,
        route_of("POST"@, "/v1/messages"@) == BridgeRoute::Messages,
        method != "GET"@ && method != "POST"@ ==> route_of(method, path) == BridgeRoute::NotFound,
        path != "/healthz"@ && path != "/v1/messages"@ ==> route_of(method, path)
            == BridgeRoute::NotFound,
        route_of("POST"@, "/healthz"@) == BridgeRoute::NotFound,
        route_of("GET"@, "/v1/messages"@) == BridgeRoute::NotFound,
{
    reveal_strlit("GET");
    reveal_strlit("POST");
    reveal_strlit("/healthz");
    reveal_strlit("/v1/messages");
    assert("GET"@.len() != "POST"@.len());
    assert("/healthz"@.len() != "/v1/messages"@.len());
}

/// What the client sent is the client's fault; what the child did is not.
pub proof fn failures_have_their_status(f: BridgeFailure)
    ensures
        f is BodyUnreadable || f is InvalidRequest || f is InvalidPayload ==> f.code() == 400,
        f is SpawnFailed || f is TurnNotSent || f is TurnFailed ==> f.code() == 502,
{
}

/// Every event is sent on once, in order. An error is told last, in the
/// child's own words where it has some. A result closes the stream, and
/// nothing else does.
pub proof fn events_are_sent_on(
    before: TurnFrames,
    ev: CliEvent,
    provider: Seq<char>,
    frames: Seq<FrameFacts>,
    after: TurnFrames,
)
    requires
        frames_follow(before, ev, provider, frames, after),
    ensures
        after.closed <==> ev.result is Some,
        ev.result is None && ev.translated is Some ==> frames == seq![
            FrameFacts::Event { kind: (ev.translated->0).0, data: (ev.translated->0).1@ },
        ],
        ev.result is None && ev.translated is None ==> frames.len() == 0,
        ev.result is Some && !ev.result->0.is_error && before.emitted_message_start
            && ev.translated is Some ==> frames == seq![
            FrameFacts::Event { kind: (ev.translated->0).0, data: (ev.translated->0).1@ },
        ],
        ev.result is Some && ev.result->0.is_error && ev.result->0.result is Some ==> frames.len()
            > 0 && frames.last() == (FrameFacts::Error { message: ev.result->0.result->0@ }),
        ev.result is Some && ev.result->0.is_error && ev.result->0.result is None ==> frames.len()
            > 0 && frames.last() == (FrameFacts::Error {
            message: provider + " returned an error"@,
        }),
        ev.result is Some && !ev.result->0.is_error && ev.translated is None
            && before.emitted_message_start ==> frames.len() == 0,
        before.emitted_message_start ==> !frames.contains(FrameFacts::SyntheticStart),
        ev.result is Some || ev.starts_message || before.emitted_message_start
            <==> after.emitted_message_start,
{
    if ev.translated is Some {
        let e = FrameFacts::Event { kind: (ev.translated->0).0, data: (ev.translated->0).1@ };
        assert(Seq::<FrameFacts>::empty().push(e) =~= seq![e]);
    }
}

/// The events of a stream are named by what they are, no two alike, and
/// written with their data on a line of its own and an empty line behind.
pub proof fn events_are_written_line_by_line(event: Seq<char>, data: Seq<char>)
    ensures
        ({
            let t = sse_text(event, data);
            &&& t.take("event: "@.len() as int) == "event: "@
            &&& t.subrange("event: "@.len() as int, ("event: "@.len() + event.len()) as int) == event
            &&& t.skip(("event: "@.len() + event.len()) as int) == "\ndata: "@ + data + "\n\n"@
        }),
        StreamEventKind::MessageStart.name() == "message_start"@,
        StreamEventKind::ContentBlockStart.name() == "content_block_start"@,
        StreamEventKind::ContentBlockDelta.name() == "content_block_delta"@,
        StreamEventKind::ContentBlockStop.name() == "content_block_stop"@,
        StreamEventKind::MessageDelta.name() == "message_delta"@,
        StreamEventKind::MessageStop.name() == "message_stop"@,
        StreamEventKind::Ping.name() == "ping"@,
{
    let t = sse_text(event, data);
    assert(t.take("event: "@.len() as int) =~= "event: "@);
    assert(t.subrange("event: "@.len() as int, ("event: "@.len() + event.len()) as int) =~= event);
    assert(t.skip(("event: "@.len() + event.len()) as int) =~= "\ndata: "@ + data + "\n\n"@);
}

} // verus!
