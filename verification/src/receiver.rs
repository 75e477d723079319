//! The receiver's work on what arrives from the adapter.
//!
//! The bytes read from the transport are fed into a buffer, from which frames
//! are taken one by one. A frame's body is read as UTF-8 text and then as a
//! message; a body that is neither is skipped, and the receiver goes on. Each
//! message is applied to the session state, answered with the reactions that
//! are due, and dispatched into the client's tables.

use vstd::prelude::*;
use vstd::string::StringSliceAdditionalSpecFns;
use vstd::utf8::{decode_utf8, encode_utf8, valid_utf8};
use crate::client::{DAPClient, Dispatch, dispatch_kind, dispatched};
use crate::debug_state::{
    DebugSessionState,
    StatusUpdate,
    happening,
    next_state,
    stamp_given,
    status_view,
    stamped,
    status_due,
    thread_after,
    visit,
};
use crate::frame::{
    Decoded,
    DecodedModel,
    decode,
    decode_frame,
    encode_frame,
    frame_bytes,
    lemma_decode_encoded,
};
use crate::json::Json;
use crate::message::{
    DAPMessage,
    DAPMessageModel,
    MessageError,
    MessageType,
    decode_message,
    alike_message,
    lemma_alike_message_is_read,
    lemma_message_json_is_plain,
    plain_message,
    message_json,
    readable,
};
use crate::wire::{alike, json_parse, json_text, json_to_text, parse_json, written};
use crate::text::str_eq;

verus! {

/// Why a frame could not be delivered.
#[derive(Debug, Clone, Copy, PartialEq, Eq, Structural)]
pub enum FrameError {
    /// The connection closed in the middle of a frame. The receiver ends.
    UnexpectedEof,
    /// The header states no usable body length. The header is skipped.
    MalformedHeader,
    /// The body is no UTF-8 text. The frame is skipped.
    BadUtf8,
    /// The body is no JSON, or the JSON is no message. The frame is skipped.
    BadJson,
}

/// The number of bytes that a decoding consumes.
pub open spec fn consumed(d: DecodedModel) -> int {
    match d {
        DecodedModel::Incomplete => 0,
        DecodedModel::Malformed { consumed } => consumed,
        DecodedModel::Frame { body, consumed } => consumed,
    }
}

/// The bytes that have arrived and belong to no frame taken so far.
pub struct Receiver {
    buffer: Vec<u8>,
}

impl Receiver {
    /// The buffered bytes.
    pub closed spec fn pending(&self) -> Seq<u8> {
        self.buffer@
    }

    /// A receiver with nothing buffered.
    pub fn new() -> (r: Self)
        ensures
            r.pending() == Seq::<u8>::empty(),
    {
        Receiver { buffer: Vec::new() }
    }

    /// Adds bytes that were read from the transport.
    pub fn feed(&mut self, bytes: &[u8])
        ensures
            final(self).pending() == old(self).pending() + bytes@,
    {
        self.buffer.extend_from_slice(bytes);
    }

    /// Takes what stands at the start of the buffer: a frame, a header that
    /// is skipped, or nothing where more bytes are needed.
    pub fn next_frame(&mut self) -> (r: Decoded)
        ensures
            r@ == decode(old(self).pending()),
            0 <= consumed(r@) <= old(self).pending().len(),
            final(self).pending() == old(self).pending().skip(consumed(r@)),
    {
        let r = decode_frame(self.buffer.as_slice());
        let used: usize = match &r {
            Decoded::Incomplete => 0,
            Decoded::Malformed { consumed } => *consumed,
            Decoded::Frame { body, consumed } => *consumed,
        };
        proof {
            crate::frame::lemma_terminator_from(self.buffer@, 0);
            if let Some(i) = crate::frame::first_terminator(self.buffer@) {
                assert(crate::frame::terminator_at(self.buffer@, i));
            }
        }
        if used > 0 {
            let rest = self.buffer.split_off(used);
            self.buffer = rest;
        }
        assert(self.buffer@ =~= old(self).buffer@.skip(used as int));
        r
    }

    /// Tells, once the connection has closed, whether it closed in the middle
    /// of a frame.
    pub fn at_end(&self) -> (r: Result<(), FrameError>)
        ensures
            r == if self.pending().len() == 0 {
                Ok::<(), FrameError>(())
            } else {
                Err::<(), FrameError>(FrameError::UnexpectedEof)
            },
    {
        if self.buffer.len() == 0 {
            Ok(())
        } else {
            Err(FrameError::UnexpectedEof)
        }
    }
}

/// Two frames that stand in the buffer together are taken one after the
/// other, each with its own body, and nothing is left.
pub proof fn lemma_frames_one_by_one(first: Seq<u8>, second: Seq<u8>)
    requires
        first.len() <= usize::MAX,
        second.len() <= usize::MAX,
    ensures
        ({
            let buf = frame_bytes(first) + frame_bytes(second);
            let one = decode(buf);
            let two = decode(buf.skip(consumed(one)));
            &&& one == DecodedModel::Frame { body: first, consumed: frame_bytes(first).len() as int }
            &&& two == DecodedModel::Frame {
                body: second,
                consumed: frame_bytes(second).len() as int,
            }
            &&& buf.skip(consumed(one)).skip(consumed(two)) == Seq::<u8>::empty()
        }),
{
    let buf = frame_bytes(first) + frame_bytes(second);
    lemma_decode_encoded(first, frame_bytes(second));
    let rest = buf.skip(frame_bytes(first).len() as int);
    assert(rest =~= frame_bytes(second));
    lemma_decode_encoded(second, Seq::empty());
    assert(frame_bytes(second) + Seq::<u8>::empty() =~= frame_bytes(second));
    assert(rest.skip(frame_bytes(second).len() as int) =~= Seq::<u8>::empty());
}

/// `String::from_utf8` of std: the text that the bytes encode, where they are
/// valid UTF-8, and `None` where it reports an error, which it does where
/// they are not.
#[verifier::external_body]
fn utf8_text(bytes: Vec<u8>) -> (r: Option<String>)
    ensures
        r is Some <==> valid_utf8(bytes@),
        r matches Some(s) ==> s@ == decode_utf8(bytes@),
{
    String::from_utf8(bytes).ok()
}

/// Reads a frame's body as text.
pub fn body_text(body: Vec<u8>) -> (r: Result<String, FrameError>)
    ensures
        match r {
            Ok(s) => valid_utf8(body@) && s@ == decode_utf8(body@),
            Err(e) => !valid_utf8(body@) && e == FrameError::BadUtf8,
        },
{
    match utf8_text(body) {
        Some(s) => Ok(s),
        None => Err(FrameError::BadUtf8),
    }
}

/// Reads a message from what the JSON reader made of a body: `None` stands
/// for a body that is no JSON.
pub fn read_message(parsed: Option<Json>) -> (r: Result<DAPMessage, FrameError>)
    ensures
        match r {
            Ok(m) => parsed matches Some(j) && decode_message(j@) == Ok::<
                DAPMessageModel,
                MessageError,
            >(m@),
            Err(e) => e == FrameError::BadJson && (parsed matches Some(j) ==> decode_message(j@)
                is Err),
        },
{
    match parsed {
        Some(j) => match DAPMessage::from_json(&j) {
            Ok(m) => Ok(m),
            Err(_) => Err(FrameError::BadJson),
        },
        None => Err(FrameError::BadJson),
    }
}

/// The message that a frame's body holds, or why it holds none: the body
/// must be UTF-8 text, the text must be JSON, and the JSON must be a message.
pub open spec fn body_message(body: Seq<u8>) -> Result<DAPMessageModel, FrameError> {
    if !valid_utf8(body) {
        Err(FrameError::BadUtf8)
    } else {
        match json_parse(decode_utf8(body)) {
            None => Err(FrameError::BadJson),
            Some(j) => match decode_message(j) {
                Ok(m) => Ok(m),
                Err(_) => Err(FrameError::BadJson),
            },
        }
    }
}

/// Reads the message that a frame's body holds.
pub fn decode_body(body: Vec<u8>) -> (r: Result<DAPMessage, FrameError>)
    ensures
        match r {
            Ok(m) => body_message(body@) == Ok::<DAPMessageModel, FrameError>(m@),
            Err(e) => body_message(body@) == Err::<DAPMessageModel, FrameError>(e),
        },
{
    let text = match body_text(body) {
        Ok(t) => t,
        Err(e) => {
            return Err(e);
        },
    };
    read_message(parse_json(text.as_str()))
}

/// The frame that carries the message `m`: the header with the exact length,
/// then the message's JSON text in UTF-8.
pub open spec fn message_bytes(m: DAPMessageModel) -> Seq<u8> {
    frame_bytes(encode_utf8(json_text(written(message_json(m)))))
}

/// Writes the frame that carries a message. What is written for a message
/// that carries plain values is the JSON form of the message but for the
/// order of its members.
pub fn encode_message(m: &DAPMessage) -> (r: Vec<u8>)
    ensures
        r@ == message_bytes(m@),
        plain_message(m@) ==> alike(written(message_json(m@)), message_json(m@)),
{
    proof {
        if plain_message(m@) {
            lemma_message_json_is_plain(m@);
        }
    }
    let text = json_to_text(&m.to_json());
    encode_frame(text.as_str().as_bytes())
}

/// What the receiver takes from the transport in one step.
#[derive(Debug, PartialEq, Eq)]
pub enum Received {
    /// No whole frame yet: more bytes are needed.
    NeedMore,
    /// A frame or header that was skipped, and why. The receiver goes on.
    Skipped(FrameError),
    /// A message.
    Message(DAPMessage),
}

/// The mathematical value of a [`Received`].
pub enum ReceivedModel {
    NeedMore,
    Skipped(FrameError),
    Message(DAPMessageModel),
}

impl View for Received {
    type V = ReceivedModel;

    open spec fn view(&self) -> ReceivedModel {
        match self {
            Received::NeedMore => ReceivedModel::NeedMore,
            Received::Skipped(e) => ReceivedModel::Skipped(*e),
            Received::Message(m) => ReceivedModel::Message(m@),
        }
    }
}

/// What the receiver takes from the start of `buf`: a header without a
/// usable length is skipped, and so is a frame whose body is no message.
pub open spec fn received(buf: Seq<u8>) -> ReceivedModel {
    match decode(buf) {
        DecodedModel::Incomplete => ReceivedModel::NeedMore,
        DecodedModel::Malformed { consumed } => ReceivedModel::Skipped(FrameError::MalformedHeader),
        DecodedModel::Frame { body, consumed } => match body_message(body) {
            Ok(m) => ReceivedModel::Message(m),
            Err(e) => ReceivedModel::Skipped(e),
        },
    }
}

impl Receiver {
    /// Takes the next message from the buffer. What is skipped is taken out
    /// of the buffer too, so that the next step begins behind it.
    pub fn next_message(&mut self) -> (r: Received)
        ensures
            r@ == received(old(self).pending()),
            final(self).pending() == old(self).pending().skip(consumed(decode(old(self).pending()))),
    {
        match self.next_frame() {
            Decoded::Incomplete => Received::NeedMore,
            Decoded::Malformed { consumed } => Received::Skipped(FrameError::MalformedHeader),
            Decoded::Frame { body, consumed } => match decode_body(body) {
                Ok(m) => Received::Message(m),
                Err(e) => Received::Skipped(e),
            },
        }
    }
}

/// A message that was written as a frame is received as it was, but for
/// the order of the members of the objects it carries, whatever follows the
/// frame in the buffer. This holds of a message whose written form is like
/// its JSON form, which [`encode_message`] states of every message that
/// carries plain values, and provided that serde_json reads from the text
/// that it wrote the value that it wrote.
pub proof fn lemma_written_message_is_received(m: DAPMessageModel, rest: Seq<u8>)
    requires
        readable(m),
    ensures
        ({
            let x = written(message_json(m));
            let text = json_text(x);
            encode_utf8(text).len() <= usize::MAX && json_parse(text) == Some(x) && alike(
                x,
                message_json(m),
            ) ==> (received(message_bytes(m) + rest) matches ReceivedModel::Message(got)
                && alike_message(got, m)) && consumed(decode(message_bytes(m) + rest))
                == message_bytes(m).len()
        }),
{
    let x = written(message_json(m));
    let text = json_text(x);
    let body = encode_utf8(text);
    if body.len() <= usize::MAX && json_parse(text) == Some(x) && alike(x, message_json(m)) {
        lemma_decode_encoded(body, rest);
        vstd::utf8::encode_utf8_valid_utf8(text);
        vstd::utf8::encode_utf8_decode_utf8(text);
        lemma_alike_message_is_read(x, m);
    }
}

/// The stream that a line of the debuggee's output belongs to.
#[derive(Debug, Clone, Copy, PartialEq, Eq, Structural)]
pub enum Stream {
    Stdout,
    Stderr,
}

/// The name of the interface event that carries a stream's lines.
pub open spec fn stream_event(s: Stream) -> Seq<char> {
    match s {
        Stream::Stdout => "program-output"@,
        Stream::Stderr => "program-error"@,
    }
}

impl Stream {
    /// The name of the interface event that carries this stream's lines.
    pub fn event_name(&self) -> (r: &'static str)
        ensures
            r@ == stream_event(*self),
    {
        match self {
            Stream::Stdout => "program-output",
            Stream::Stderr => "program-error",
        }
    }
}

/// Output of the debuggee for the interface.
#[derive(Debug, PartialEq, Eq)]
pub struct ProgramOutput {
    pub stream: Stream,
    pub text: String,
}

/// The output that the message `m` carries for the interface: that of an
/// `output` event whose category is `stdout` or `stderr`.
pub open spec fn output_of(m: DAPMessageModel) -> Option<(Stream, Seq<char>)> {
    if m.message_type == MessageType::Event && m.event == Some("output"@) {
        match m.body {
            Some(b) => match (b.text_member("category"@), b.text_member("output"@)) {
                (Some(c), Some(o)) => if c == "stderr"@ {
                    Some((Stream::Stderr, o))
                } else if c == "stdout"@ {
                    Some((Stream::Stdout, o))
                } else {
                    None
                },
                _ => None,
            },
            None => None,
        }
    } else {
        None
    }
}

/// The output that a message carries for the interface.
pub fn program_output(msg: &DAPMessage) -> (r: Option<ProgramOutput>)
    ensures
        match r {
            Some(o) => output_of(msg@) == Some((o.stream, o.text@)),
            None => output_of(msg@) is None,
        },
{
    if msg.message_type != MessageType::Event {
        return None;
    }
    let is_output = match &msg.event {
        Some(n) => str_eq(n.as_str(), "output"),
        None => false,
    };
    if !is_output {
        return None;
    }
    let body = match &msg.body {
        Some(b) => b,
        None => {
            return None;
        },
    };
    let category = match body.get_str("category") {
        Some(c) => c,
        None => {
            return None;
        },
    };
    let stream = if str_eq(category, "stderr") {
        Stream::Stderr
    } else if str_eq(category, "stdout") {
        Stream::Stdout
    } else {
        return None;
    };
    match body.get_str("output") {
        Some(o) => Some(ProgramOutput { stream, text: String::from_str(o) }),
        None => None,
    }
}

/// What the receiver does about one message.
#[derive(Debug, PartialEq, Eq)]
pub struct Reactions {
    /// The status to report to the interface, stamped.
    pub status: Option<StatusUpdate>,
    /// The debuggee's output to pass on to the interface.
    pub output: Option<ProgramOutput>,
    /// What became of the message in the client's tables.
    pub dispatch: Dispatch,
    /// The message itself, for whoever observes the raw feed.
    pub forward: DAPMessage,
}

/// Processes one inbound message: applies it to the session state, works out
/// the status and the output that are due, dispatches it into the client's
/// tables, and hands it on for the observers.
pub fn process_message(
    session: &mut DebugSessionState,
    client: &mut DAPClient,
    msg: DAPMessage,
) -> (r: Reactions)
    requires
        old(session).wf(),
        old(client).wf(),
    ensures
        final(session).wf(),
        final(client).wf(),
        final(session).state() == next_state(old(session).state(), happening(msg@)),
        final(session).current_thread() == thread_after(
            old(session).current_thread(),
            happening(msg@),
        ),
        final(session).kind() == old(session).kind(),
        final(session).trace() == visit(old(session).trace(), final(session).state()),
        status_view(r.status) == stamp_given(
            old(session).status_seq(),
            status_due(old(session).state(), happening(msg@)),
        ),
        final(session).status_seq() == old(session).status_seq() + (if r.status is Some {
            1int
        } else {
            0int
        }),
        final(session).stamps() == stamped(old(session).stamps(), status_view(r.status)),
        match r.output {
            Some(o) => output_of(msg@) == Some((o.stream, o.text@)),
            None => output_of(msg@) is None,
        },
        r.dispatch == dispatch_kind(old(client).tables(), msg@),
        final(client).tables() == dispatched(old(client).tables(), msg@),
        final(client).upcoming() == old(client).upcoming(),
        final(client).sent() == old(client).sent(),
        r.forward@ == msg@,
{
    let status = session.handle_dap_event(&msg);
    let output = program_output(&msg);
    let forward = msg.clone();
    let dispatch = client.dispatch(msg);
    Reactions { status, output, dispatch, forward }
}

} // verus!
