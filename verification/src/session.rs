//! One analysis session: four messages out, in a fixed order, and then the
//! wait for the reply to the last of them.
//!
//! The session does no I/O. It is told what the transport did, and answers
//! with what the transport is to do next.

use vstd::prelude::*;
use crate::frame::cut_frame;
use crate::frame::first_delimiter;
use crate::frame::lemma_delimiter_from;
use crate::frame::Cut;
use crate::frame::FrameError;
use crate::lsp::analyze;
use crate::lsp::analyze_body;
use crate::lsp::cursor;
use crate::lsp::cursor_body;
use crate::lsp::did_open;
use crate::lsp::did_open_body;
use crate::lsp::framed;
use crate::lsp::init;
use crate::lsp::init_body;
use crate::lsp::BuildError;
use crate::message::decode;
use crate::message::decoded;
use crate::message::lemma_decoded_stable;
use crate::message::Decoded;
use crate::message::Message;
use crate::message::MessageView;
use crate::message::Reading;

verus! {

/// The identifier of the handshake request.
pub const HANDSHAKE_ID: i32 = 10;

/// The identifier of the analysis trigger.
pub const ANALYSIS_ID: i32 = 30;

/// The identifier of the position query, whose reply ends the session.
pub const CURSOR_ID: i32 = 40;

/// The identifier of the position query as replies carry it.
pub const CURSOR_REPLY_ID: u64 = 40;

/// How long the peer is left alone after each of the first three messages,
/// in milliseconds.
pub const PAUSE_MS: u64 = 300;

/// What one message means to one who waits for the reply to a request.
#[derive(Debug, PartialEq, Eq)]
pub enum Verdict {
    /// The message does not carry the identifier waited for: it is passed over.
    Pass,
    /// The message is the reply, and this is its result, as JSON text.
    Found(String),
    /// The message carries the identifier waited for, and no result.
    Missing,
}

/// A `Verdict` as a mathematical value.
pub enum VerdictView {
    Pass,
    Found(Seq<char>),
    Missing,
}

impl View for Verdict {
    type V = VerdictView;

    open spec fn view(&self) -> VerdictView {
        match *self {
            Verdict::Pass => VerdictView::Pass,
            Verdict::Found(result) => VerdictView::Found(result@),
            Verdict::Missing => VerdictView::Missing,
        }
    }
}

/// What `message` means to one who waits for the reply to request `target`.
/// Only a message whose `id` is the number `target` concerns them; of such a
/// message the result is taken, and to have none is a failure.
pub open spec fn verdict(message: MessageView, target: u64) -> VerdictView {
    if message.id == Some(target) {
        match message.result {
            Some(result) => VerdictView::Found(result),
            None => VerdictView::Missing,
        }
    } else {
        VerdictView::Pass
    }
}

/// Decides what `message` means to one who waits for the reply to request
/// `target`.
pub fn correlate(message: Message, target: u64) -> (r: Verdict)
    ensures
        r@ == verdict(message@, target),
{
    let hit = match message.id {
        Some(id) => id == target,
        None => false,
    };
    if hit {
        match message.result {
            Some(result) => Verdict::Found(result),
            None => Verdict::Missing,
        }
    } else {
        Verdict::Pass
    }
}

/// What the bytes at hand give to one who waits for a reply.
pub enum Drained {
    /// No message at hand is the reply; `carry` is the unfinished frame that
    /// is left.
    Wanting { carry: Seq<u8> },
    /// The reply is at hand, and this is its result.
    Found { result: Seq<char> },
    /// A message with the identifier waited for is at hand, without a result.
    Missing,
    /// The bytes at hand cannot be decoded.
    Failed(FrameError),
}

/// What follows the first frame of a buffer is shorter than the buffer.
pub proof fn lemma_rest_shorter(buffer: Seq<u8>)
    ensures
        cut_frame(buffer) matches Cut::Frame { body, rest } ==> rest.len() + 4 <= buffer.len(),
        decoded(buffer) matches Decoded::Message { message, rest } ==> rest.len() + 4
            <= buffer.len(),
{
    if first_delimiter(buffer) is Some {
        lemma_delimiter_from(buffer, 0);
    }
}

/// What the buffer `carry` gives to one who waits for the reply to request
/// `target`: the frames at hand are decoded one after the other, and every
/// message that does not carry the identifier is passed over, until one does,
/// or decoding fails, or the bytes run out.
pub open spec fn drained(carry: Seq<u8>, target: u64) -> Drained
    decreases carry.len(),
{
    match decoded(carry) {
        Decoded::Wanting => Drained::Wanting { carry },
        Decoded::Failed(e) => Drained::Failed(e),
        Decoded::Message { message, rest } => match verdict(message, target) {
            VerdictView::Found(result) => Drained::Found { result },
            VerdictView::Missing => Drained::Missing,
            VerdictView::Pass => {
                proof {
                    lemma_rest_shorter(carry);
                }
                drained(rest, target)
            },
        },
    }
}

/// What draining a buffer gave.
#[derive(Debug)]
pub enum Drain {
    /// No message at hand is the reply; `carry` is the unfinished frame.
    Wanting { carry: Vec<u8> },
    /// The reply is at hand, and this is its result.
    Found { result: String },
    /// A message with the identifier waited for is at hand, without a result.
    Missing,
    /// The bytes at hand cannot be decoded.
    Failed(FrameError),
}

impl View for Drain {
    type V = Drained;

    open spec fn view(&self) -> Drained {
        match *self {
            Drain::Wanting { carry } => Drained::Wanting { carry: carry@ },
            Drain::Found { result } => Drained::Found { result: result@ },
            Drain::Missing => Drained::Missing,
            Drain::Failed(e) => Drained::Failed(e),
        }
    }
}

/// Looks through the frames at hand for the reply to request `target`.
pub fn drain(carry: Vec<u8>, target: u64) -> (r: Drain)
    ensures
        r@ == drained(carry@, target),
{
    let mut buffer = carry;
    loop
        invariant
            drained(buffer@, target) == drained(carry@, target),
        decreases buffer.len(),
    {
        proof {
            lemma_rest_shorter(buffer@);
        }
        match decode(buffer.as_slice()) {
            Reading::Wanting => {
                return Drain::Wanting { carry: buffer };
            },
            Reading::Failed(e) => {
                return Drain::Failed(e);
            },
            Reading::Message { message, carry: rest } => {
                match correlate(message, target) {
                    Verdict::Found(result) => {
                        return Drain::Found { result };
                    },
                    Verdict::Missing => {
                        return Drain::Missing;
                    },
                    Verdict::Pass => {
                        buffer = rest;
                    },
                }
            },
        }
    }
}

/// A message that does not carry the identifier waited for is passed over
/// in silence: the outcome is that of the bytes which follow it.
pub proof fn lemma_drain_passes(carry: Seq<u8>, target: u64)
    ensures
        decoded(carry) matches Decoded::Message { message, rest } ==> (message.id != Some(target)
            ==> drained(carry, target) == drained(rest, target)),
{
}

/// The first message that carries the identifier waited for decides: its
/// result is the outcome, and to have none is a failure, whatever follows.
pub proof fn lemma_drain_selects(carry: Seq<u8>, target: u64)
    ensures
        decoded(carry) matches Decoded::Message { message, rest } ==> (message.id == Some(target)
            ==> drained(carry, target) == (match message.result {
            Some(result) => Drained::Found { result },
            None => Drained::Missing,
        })),
{
}

/// Draining can be taken up where it stopped. Once the bytes at hand have
/// decided the outcome, bytes that arrive later change nothing; and while they
/// have not, what is left of them, followed by the new bytes, gives what the
/// whole gives.
pub proof fn lemma_drain_resumes(carry: Seq<u8>, more: Seq<u8>, target: u64)
    ensures
        match drained(carry, target) {
            Drained::Wanting { carry: left } => drained(carry + more, target) == drained(
                left + more,
                target,
            ),
            decided => drained(carry + more, target) == decided,
        },
    decreases carry.len(),
{
    lemma_decoded_stable(carry, more);
    if let Decoded::Message { message, rest } = decoded(carry) {
        if verdict(message, target) is Pass {
            lemma_rest_shorter(carry);
            lemma_drain_resumes(rest, more, target);
        }
    }
}

/// How far a session has come.
#[derive(Clone, Copy, Debug, PartialEq, Eq, Structural)]
pub enum Phase {
    /// Nothing has been sent.
    Start,
    /// The handshake request is on its way.
    HandshakeSent,
    /// The document has been registered.
    DocumentRegistered,
    /// The analysis has been asked for.
    AnalysisTriggered,
    /// The position query is on its way, and its reply is waited for.
    AwaitingCursorResult,
    /// The session is over.
    Done,
}

/// Why a session ended without a result.
#[derive(Clone, Copy, Debug, PartialEq, Eq, Structural)]
pub enum SessionError {
    /// A message could not be built.
    Build(BuildError),
    /// The bytes from the peer could not be decoded, or ended too early.
    Frame(FrameError),
    /// The reply to the position query holds no result.
    Result,
    /// The session was told of something that cannot happen in its phase.
    OutOfTurn,
}

/// What the transport did.
#[derive(Debug)]
pub enum Event {
    /// The transport is ready for the next message: nothing has been sent
    /// yet, or the last frame has been written and its pause is over.
    Ready,
    /// One read of the stream from the peer gave these bytes. A read that
    /// gave none is the end of the stream.
    Received(Vec<u8>),
}

/// An `Event` as a mathematical value.
pub enum EventView {
    Ready,
    Received(Seq<u8>),
}

impl View for Event {
    type V = EventView;

    open spec fn view(&self) -> EventView {
        match *self {
            Event::Ready => EventView::Ready,
            Event::Received(bytes) => EventView::Received(bytes@),
        }
    }
}

/// What the transport is to do next.
#[derive(Debug)]
pub enum Action {
    /// Write `frame` to the peer, leave it alone for `pause_ms` milliseconds,
    /// and report `Ready`.
    Send { frame: String, pause_ms: u64 },
    /// Read from the peer once, and report what came as `Received`.
    Receive,
    /// Stop: the session is over, with the result of the position query as
    /// JSON text, or without one.
    Finish(Result<String, SessionError>),
}

/// An `Action` as a mathematical value.
pub enum ActionView {
    Send { frame: Seq<char>, pause_ms: u64 },
    Receive,
    Finish(Result<Seq<char>, SessionError>),
}

impl View for Action {
    type V = ActionView;

    open spec fn view(&self) -> ActionView {
        match *self {
            Action::Send { frame, pause_ms } => ActionView::Send { frame: frame@, pause_ms },
            Action::Receive => ActionView::Receive,
            Action::Finish(Ok(result)) => ActionView::Finish(Ok(result@)),
            Action::Finish(Err(e)) => ActionView::Finish(Err(e)),
        }
    }
}

/// One analysis of a document at a cursor position, from the first message
/// to the result.
pub struct Session {
    phase: Phase,
    cwd: String,
    path: String,
    source: String,
    line: u32,
    character: u32,
    carry: Vec<u8>,
}

/// A `Session` as a mathematical value.
pub struct SessionView {
    /// How far the session has come.
    pub phase: Phase,
    /// The directory in which the analysis works.
    pub cwd: Seq<char>,
    /// The absolute path of the document.
    pub path: Seq<char>,
    /// The full text of the document.
    pub source: Seq<char>,
    /// The zero-based line of the cursor.
    pub line: u32,
    /// The zero-based character offset of the cursor.
    pub character: u32,
    /// The bytes from the peer that belong to no decoded frame yet.
    pub carry: Seq<u8>,
}

impl View for Session {
    type V = SessionView;

    closed spec fn view(&self) -> SessionView {
        SessionView {
            phase: self.phase,
            cwd: self.cwd@,
            path: self.path@,
            source: self.source@,
            line: self.line,
            character: self.character,
            carry: self.carry@,
        }
    }
}

/// The session `s` at its end: nothing is carried over.
pub open spec fn ended(s: SessionView) -> SessionView {
    SessionView { phase: Phase::Done, carry: Seq::empty(), ..s }
}

/// The step that sends the frame of `body` and moves on to `next`, or ends
/// the session where there is no such message.
pub open spec fn sending(
    s: SessionView,
    next: Phase,
    body: Result<Seq<char>, BuildError>,
    pause_ms: u64,
) -> (SessionView, ActionView) {
    match body {
        Ok(text) => (
            SessionView { phase: next, ..s },
            ActionView::Send { frame: framed(text), pause_ms },
        ),
        Err(e) => (ended(s), ActionView::Finish(Err(SessionError::Build(e)))),
    }
}

/// The step of a session that waits for the reply and has `buffer` at hand.
pub open spec fn awaiting(s: SessionView, buffer: Seq<u8>) -> (SessionView, ActionView) {
    match drained(buffer, CURSOR_REPLY_ID) {
        Drained::Wanting { carry } => (SessionView { carry, ..s }, ActionView::Receive),
        Drained::Found { result } => (ended(s), ActionView::Finish(Ok(result))),
        Drained::Missing => (ended(s), ActionView::Finish(Err(SessionError::Result))),
        Drained::Failed(e) => (ended(s), ActionView::Finish(Err(SessionError::Frame(e)))),
    }
}

/// A body that may be missing, as the outcome of building it.
pub open spec fn written(body: Option<Seq<char>>) -> Result<Seq<char>, BuildError> {
    match body {
        Some(text) => Ok(text),
        None => Err(BuildError::Encoding),
    }
}

/// The session after `event`, and what the transport is to do next.
///
/// The four messages go out one after the other, each when the transport is
/// ready: the handshake, the registration of the document, the analysis
/// trigger, each followed by a pause, and the position query. From then on
/// every read is decoded, and the session ends with the first message that
/// carries the identifier of the position query, with a failure to decode, or
/// with the end of the stream. An event that does not fit the phase ends the
/// session.
pub open spec fn step(s: SessionView, event: EventView) -> (SessionView, ActionView) {
    match (s.phase, event) {
        (Phase::Start, EventView::Ready) => sending(
            s,
            Phase::HandshakeSent,
            written(init_body(HANDSHAKE_ID)),
            PAUSE_MS,
        ),
        (Phase::HandshakeSent, EventView::Ready) => sending(
            s,
            Phase::DocumentRegistered,
            did_open_body(s.path, s.source),
            PAUSE_MS,
        ),
        (Phase::DocumentRegistered, EventView::Ready) => sending(
            s,
            Phase::AnalysisTriggered,
            written(analyze_body(ANALYSIS_ID)),
            PAUSE_MS,
        ),
        (Phase::AnalysisTriggered, EventView::Ready) => sending(
            s,
            Phase::AwaitingCursorResult,
            cursor_body(CURSOR_ID, s.path, s.line, s.character),
            0,
        ),
        (Phase::AwaitingCursorResult, EventView::Ready) => awaiting(s, s.carry),
        (Phase::AwaitingCursorResult, EventView::Received(bytes)) => {
            if bytes.len() == 0 {
                (ended(s), ActionView::Finish(Err(SessionError::Frame(FrameError::Truncated))))
            } else {
                awaiting(s, s.carry + bytes)
            }
        },
        _ => (ended(s), ActionView::Finish(Err(SessionError::OutOfTurn))),
    }
}

impl Session {
    /// A session that has yet to start: an analysis that works in the
    /// directory `cwd`, about the document at the absolute path `path` with the
    /// text `source`, and the cursor at a zero-based line and character.
    pub fn new(cwd: String, path: String, source: String, line: u32, character: u32) -> (r:
        Session)
        ensures
            r@ == (SessionView {
                phase: Phase::Start,
                cwd: cwd@,
                path: path@,
                source: source@,
                line,
                character,
                carry: Seq::empty(),
            }),
    {
        Session { phase: Phase::Start, cwd, path, source, line, character, carry: Vec::new() }
    }

    /// How far the session has come.
    pub fn phase(&self) -> (r: Phase)
        ensures
            r == self@.phase,
    {
        self.phase
    }

    /// Ends the session with `outcome`.
    fn finish(&mut self, outcome: Result<String, SessionError>) -> (r: Action)
        ensures
            final(self)@ == ended(old(self)@),
            r == Action::Finish(outcome),
    {
        self.phase = Phase::Done;
        self.carry = Vec::new();
        Action::Finish(outcome)
    }

    /// Sends what was built and moves on to `next`, or ends the session
    /// where nothing was built.
    fn send(&mut self, next: Phase, built: Result<String, BuildError>, pause_ms: u64) -> (r: Action)
        ensures
            forall|body: Result<Seq<char>, BuildError>|
                (match built {
                    Ok(frame) => body matches Ok(text) && frame@ == framed(text),
                    Err(e) => body == Err::<Seq<char>, BuildError>(e),
                }) ==> (final(self)@, r@) == #[trigger] sending(old(self)@, next, body, pause_ms),
    {
        match built {
            Ok(frame) => {
                self.phase = next;
                Action::Send { frame, pause_ms }
            },
            Err(e) => self.finish(Err(SessionError::Build(e))),
        }
    }

    /// Looks for the reply in `buffer`, the bytes at hand.
    fn await_reply(&mut self, buffer: Vec<u8>) -> (r: Action)
        ensures
            (final(self)@, r@) == awaiting(old(self)@, buffer@),
    {
        match drain(buffer, CURSOR_REPLY_ID) {
            Drain::Wanting { carry } => {
                self.carry = carry;
                Action::Receive
            },
            Drain::Found { result } => self.finish(Ok(result)),
            Drain::Missing => self.finish(Err(SessionError::Result)),
            Drain::Failed(e) => self.finish(Err(SessionError::Frame(e))),
        }
    }

    /// Takes note of what the transport did, and says what it is to do next.
    pub fn advance(&mut self, event: Event) -> (r: Action)
        ensures
            (final(self)@, r@) == step(old(self)@, event@),
    {
        match event {
            Event::Ready => match self.phase {
                Phase::Start => {
                    let built = init(HANDSHAKE_ID, self.cwd.as_str());
                    let r = self.send(Phase::HandshakeSent, built, PAUSE_MS);
                    assert((self@, r@) == sending(
                        old(self)@,
                        Phase::HandshakeSent,
                        written(init_body(HANDSHAKE_ID)),
                        PAUSE_MS,
                    ));
                    r
                },
                Phase::HandshakeSent => {
                    let built = did_open(self.path.as_str(), self.source.clone());
                    let r = self.send(Phase::DocumentRegistered, built, PAUSE_MS);
                    assert((self@, r@) == sending(
                        old(self)@,
                        Phase::DocumentRegistered,
                        did_open_body(self.path@, self.source@),
                        PAUSE_MS,
                    ));
                    r
                },
                Phase::DocumentRegistered => {
                    let built = analyze(ANALYSIS_ID);
                    let r = self.send(Phase::AnalysisTriggered, built, PAUSE_MS);
                    assert((self@, r@) == sending(
                        old(self)@,
                        Phase::AnalysisTriggered,
                        written(analyze_body(ANALYSIS_ID)),
                        PAUSE_MS,
                    ));
                    r
                },
                Phase::AnalysisTriggered => {
                    let built = cursor(CURSOR_ID, self.path.as_str(), self.line, self.character);
                    let r = self.send(Phase::AwaitingCursorResult, built, 0);
                    assert((self@, r@) == sending(
                        old(self)@,
                        Phase::AwaitingCursorResult,
                        cursor_body(CURSOR_ID, self.path@, self.line, self.character),
                        0,
                    ));
                    r
                },
                Phase::AwaitingCursorResult => {
                    let mut buffer = Vec::new();
                    buffer.append(&mut self.carry);
                    assert(buffer@ =~= old(self)@.carry);
                    self.await_reply(buffer)
                },
                Phase::Done => self.finish(Err(SessionError::OutOfTurn)),
            },
            Event::Received(bytes) => match self.phase {
                Phase::AwaitingCursorResult => {
                    if bytes.len() == 0 {
                        self.finish(Err(SessionError::Frame(FrameError::Truncated)))
                    } else {
                        let mut buffer = Vec::new();
                        buffer.append(&mut self.carry);
                        buffer.extend_from_slice(bytes.as_slice());
                        assert(buffer@ =~= old(self)@.carry + bytes@);
                        self.await_reply(buffer)
                    }
                },
                _ => self.finish(Err(SessionError::OutOfTurn)),
            },
        }
    }
}

} // verus!
