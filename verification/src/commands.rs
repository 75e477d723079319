//! What the supervisor computes for the commands of the interface.
//!
//! A command sends a request, awaits the response, and makes its result of
//! it. The sending and the result are here; the waiting is the caller's.

use vstd::prelude::*;
use crate::client::{ClientError, DAPClient, Poll, sent_as};
use crate::debug_state::{AdapterKind, DebugSessionState, StatusUpdate, enriched, wide_view};
use crate::json::{Json, JsonModel, MemberModel, item_models};
use crate::lldb::{
    full_pattern,
    lldb_value,
    parse_lldb_result,
    regex_capture,
    short_pattern,
};
use crate::message::{DAPMessage, DAPMessageModel};
use crate::requests::{Command, command_name, optional_chars, request_model, thread_arguments};
use vstd::string::StringExecFns;
use crate::text::{is_prefix, join, starts_with, text_view};

verus! {

/// Why a command failed.
#[derive(Debug, Clone, Copy, PartialEq, Eq, Structural)]
pub enum CommandError {
    /// No session is active.
    NoSession,
    /// A step was asked for without a thread, and none is current.
    NoCurrentThread,
    /// Every sequence number has been used.
    SequenceExhausted,
    /// No response to this command arrived in time.
    Timeout(Command),
    /// The response to `evaluate` has no body.
    NoResult,
    /// The response to `stackTrace` has no body.
    NoStackFrames,
    /// The response to `setBreakpoints` has no body.
    NoBreakpoints,
}

/// The words in which a timeout is reported: they name the command whose
/// response did not arrive.
pub open spec fn timeout_words(command: Seq<char>) -> Seq<char> {
    "Timeout waiting for "@ + command + " response"@
}

/// The words in which a failure is reported to the interface.
pub open spec fn error_text(e: CommandError) -> Seq<char> {
    match e {
        CommandError::NoSession => "No active debug session"@,
        CommandError::NoCurrentThread =>
            "No current thread id available; debugger is not paused."@,
        CommandError::SequenceExhausted => "No sequence number is left"@,
        CommandError::Timeout(c) => timeout_words(command_name(c)),
        CommandError::NoResult => "No result returned from evaluate"@,
        CommandError::NoStackFrames => "No stackFrames in the response"@,
        CommandError::NoBreakpoints => "No breakpoints information in response."@,
    }
}

/// The words in which the timeout of the command named `command` is
/// reported.
pub fn timeout_text(command: &str) -> (r: String)
    ensures
        r@ == timeout_words(command@),
{
    let r = join("Timeout waiting for ", command).concat(" response");
    assert(r@ =~= timeout_words(command@));
    r
}

impl CommandError {
    /// The words in which this failure is reported to the interface.
    pub fn message(&self) -> (r: String)
        ensures
            r@ == error_text(*self),
    {
        match self {
            CommandError::NoSession => String::from_str("No active debug session"),
            CommandError::NoCurrentThread => String::from_str(
                "No current thread id available; debugger is not paused.",
            ),
            CommandError::SequenceExhausted => String::from_str("No sequence number is left"),
            CommandError::Timeout(c) => timeout_text(c.name()),
            CommandError::NoResult => String::from_str("No result returned from evaluate"),
            CommandError::NoStackFrames => String::from_str("No stackFrames in the response"),
            CommandError::NoBreakpoints => String::from_str(
                "No breakpoints information in response.",
            ),
        }
    }
}

/// The three ways to step.
#[derive(Debug, Clone, Copy, PartialEq, Eq, Structural)]
pub enum StepKind {
    In,
    Over,
    Out,
}

/// The command that a way of stepping sends.
pub open spec fn step_command(kind: StepKind) -> Command {
    match kind {
        StepKind::In => Command::StepIn,
        StepKind::Over => Command::Next,
        StepKind::Out => Command::StepOut,
    }
}

impl StepKind {
    /// The command that this way of stepping sends.
    pub fn command(&self) -> (r: Command)
        ensures
            r == step_command(*self),
    {
        match self {
            StepKind::In => Command::StepIn,
            StepKind::Over => Command::Next,
            StepKind::Out => Command::StepOut,
        }
    }
}

/// Sends a step command. The thread is the one the command names, else the
/// session's current thread. Without either the command fails before
/// anything is sent: no sequence number is used and the tables stay as they
/// are.
pub fn step(
    session: &DebugSessionState,
    client: &mut DAPClient,
    kind: StepKind,
    thread_id: Option<i64>,
    granularity: Option<&str>,
) -> (r: Result<DAPMessage, CommandError>)
    requires
        old(client).wf(),
    ensures
        final(client).wf(),
        match (thread_id, session.current_thread()) {
            (None, None) => {
                &&& r == Err::<DAPMessage, CommandError>(CommandError::NoCurrentThread)
                &&& final(client).upcoming() == old(client).upcoming()
                &&& final(client).sent() == old(client).sent()
                &&& final(client).tables() == old(client).tables()
            },
            (explicit, current) => {
                let thread = match explicit {
                    Some(t) => t as int,
                    None => current->Some_0,
                };
                match r {
                    Ok(m) => sent_as(
                        *old(client),
                        *final(client),
                        Ok::<DAPMessage, ClientError>(m),
                        request_model(
                            command_name(step_command(kind)),
                            thread_arguments(thread, optional_chars(granularity)),
                        ),
                        true,
                    ),
                    Err(e) => e == CommandError::SequenceExhausted && sent_as(
                        *old(client),
                        *final(client),
                        Err::<DAPMessage, ClientError>(ClientError::SequenceExhausted),
                        request_model(
                            command_name(step_command(kind)),
                            thread_arguments(thread, optional_chars(granularity)),
                        ),
                        true,
                    ),
                }
            },
        },
{
    let thread = match session.resolve_thread(thread_id) {
        Ok(t) => t,
        Err(_) => {
            return Err(CommandError::NoCurrentThread);
        },
    };
    let sent = match kind {
        StepKind::In => client.step_in(thread, granularity),
        StepKind::Over => client.next(thread, granularity),
        StepKind::Out => client.step_out(thread, granularity),
    };
    match sent {
        Ok(m) => Ok(m),
        Err(_) => Err(CommandError::SequenceExhausted),
    }
}

/// What a command makes of its wait: the response once it is there, the
/// timeout of that command once the time is up, and nothing yet while the
/// wait goes on.
pub fn command_outcome(command: Command, poll: Poll) -> (r: Option<Result<DAPMessage, CommandError>>)
    ensures
        match poll {
            Poll::Ready(m) => r matches Some(Ok(got)) && got@ == m@,
            Poll::TimedOut => r == Some(
                Err::<DAPMessage, CommandError>(CommandError::Timeout(command)),
            ),
            Poll::Pending => r is None,
        },
{
    match poll {
        Poll::Ready(m) => Some(Ok(m)),
        Poll::TimedOut => Some(Err(CommandError::Timeout(command))),
        Poll::Pending => None,
    }
}

/// Whether a response reports that the adapter could not do what was asked.
pub fn adapter_failed(response: &DAPMessage) -> (r: bool)
    ensures
        r == (response@.success == Some(false)),
{
    match response.success {
        Some(ok) => !ok,
        None => false,
    }
}

/// The thread in whose top frame an expression is evaluated.
pub const EVALUATION_THREAD_ID: i64 = 1;

/// The expression as it is sent for evaluation: the native adapter takes
/// commands, so for it an expression that does not already begin with `expr `
/// or `expression ` is sent as `expr -- ` and the expression.
pub open spec fn rewritten(kind: Option<AdapterKind>, expression: Seq<char>) -> Seq<char> {
    if kind == Some(AdapterKind::Launch) && !is_prefix("expr "@, expression) && !is_prefix(
        "expression "@,
        expression,
    ) {
        "expr -- "@ + expression
    } else {
        expression
    }
}

/// The expression as it is sent for evaluation.
pub fn rewrite_expression(kind: Option<AdapterKind>, expression: &str) -> (r: String)
    ensures
        r@ == rewritten(kind, expression@),
{
    let launches = match kind {
        Some(AdapterKind::Launch) => true,
        _ => false,
    };
    if launches && !starts_with(expression, "expr ") && !starts_with(expression, "expression ") {
        join("expr -- ", expression)
    } else {
        String::from_str(expression)
    }
}

/// The frames in the body of a response to `stackTrace`.
pub open spec fn stack_frames(body: Option<JsonModel>) -> Option<Seq<JsonModel>> {
    match body {
        Some(b) => match b.member("stackFrames"@) {
            Some(v) => v.as_items(),
            None => None,
        },
        None => None,
    }
}

/// The top frame in the body of a response to `stackTrace`.
pub open spec fn top_frame(body: Option<JsonModel>) -> Option<JsonModel> {
    match stack_frames(body) {
        Some(frames) => if frames.len() > 0 {
            Some(frames[0])
        } else {
            None
        },
        None => None,
    }
}

/// The frames in the body of a response to `stackTrace`.
fn frames_of(response: &DAPMessage) -> (r: Option<&Vec<Json>>)
    ensures
        match r {
            Some(frames) => stack_frames(response@.body) == Some(item_models(frames@)),
            None => stack_frames(response@.body) is None,
        },
{
    match &response.body {
        Some(b) => match b.get("stackFrames") {
            Some(v) => v.as_array(),
            None => None,
        },
        None => None,
    }
}

/// The top frame in the body of a response to `stackTrace`.
fn first_frame(response: &DAPMessage) -> (r: Option<&Json>)
    ensures
        match r {
            Some(f) => top_frame(response@.body) == Some(f@),
            None => top_frame(response@.body) is None,
        },
{
    match frames_of(response) {
        Some(frames) => if frames.len() > 0 {
            Some(&frames[0])
        } else {
            None
        },
        None => None,
    }
}

/// The frame in which an expression is evaluated: the top frame's `id`, cut
/// to 32 bits.
pub open spec fn frame_id_of(m: DAPMessageModel) -> Option<i32> {
    match top_frame(m.body) {
        Some(f) => match f.int_member("id"@) {
            Some(id) => Some(id as i32),
            None => None,
        },
        None => None,
    }
}

/// The frame in which an expression is evaluated, from the response to
/// `stackTrace`.
pub fn top_frame_id(response: &DAPMessage) -> (r: Option<i32>)
    ensures
        r == frame_id_of(response@),
{
    match first_frame(response) {
        Some(f) => match f.get_i64("id") {
            Some(id) => Some(#[verifier::truncate] (id as i32)),
            None => None,
        },
        None => None,
    }
}

/// The place of the top frame: the path of its source and its line, where the
/// frame has both.
pub open spec fn location_of(m: DAPMessageModel) -> Option<(Seq<char>, int)> {
    match top_frame(m.body) {
        Some(f) => match (f.member("source"@), f.int_member("line"@)) {
            (Some(source), Some(line)) => match source.text_member("path"@) {
                Some(path) => Some((path, line)),
                None => None,
            },
            _ => None,
        },
        None => None,
    }
}

/// The place where the debuggee is paused, from the response to `stackTrace`.
pub fn paused_location(response: &DAPMessage) -> (r: Option<(String, i64)>)
    ensures
        match r {
            Some((file, line)) => location_of(response@) == Some((file@, line as int)),
            None => location_of(response@) is None,
        },
{
    let frame = match first_frame(response) {
        Some(f) => f,
        None => {
            return None;
        },
    };
    let source = match frame.get("source") {
        Some(s) => s,
        None => {
            return None;
        },
    };
    let line = match frame.get_i64("line") {
        Some(l) => l,
        None => {
            return None;
        },
    };
    match source.get_str("path") {
        Some(p) => Some((String::from_str(p), line)),
        None => None,
    }
}

/// The report of a pause once the wait for its location has ended: with
/// the place of the top frame where the adapter answered in time and named
/// one, and without it otherwise. The stamp and the thread are those of the
/// pause.
pub fn pause_report(status: StatusUpdate, answer: Option<&DAPMessage>) -> (r: StatusUpdate)
    ensures
        r@ == enriched(
            status@,
            match answer {
                Some(m) => location_of(m@),
                None => None,
            },
        ),
        r@.seq == status@.seq,
        r@.thread_id == status@.thread_id,
        r@.status == status@.status,
{
    let location = match answer {
        Some(m) => paused_location(m),
        None => None,
    };
    status.with_location(location)
}

/// The name of the interface event that carries the place of a pause.
pub const LOCATION_EVENT: &'static str = "debug-location";

/// The place of a pause as the interface gets it.
pub open spec fn location_payload(file: Seq<char>, line: int) -> JsonModel {
    JsonModel::Object(
        seq![
            MemberModel { key: "file"@, value: JsonModel::Str(file) },
            MemberModel { key: "line"@, value: JsonModel::Int(line) },
        ],
    )
}

/// What the interface is told of the place of a pause, from the response to
/// `stackTrace`: nothing where the response names no place.
pub fn location_event(response: &DAPMessage) -> (r: Option<Json>)
    ensures
        match r {
            Some(j) => location_of(response@) matches Some((file, line)) && j@
                == location_payload(file, line),
            None => location_of(response@) is None,
        },
{
    match paused_location(response) {
        Some((file, line)) => {
            let j = Json::object().with("file", Json::text(file.as_str())).with(
                "line",
                Json::Int(line),
            );
            assert(j@->Object_0 =~= location_payload(file@, line as int)->Object_0);
            Some(j)
        },
        None => None,
    }
}

/// One frame of the call stack, as the interface shows it.
#[derive(Debug, PartialEq, Eq)]
pub struct FrameInfo {
    pub id: i64,
    pub name: String,
    pub line: i64,
    pub column: Option<i64>,
    pub file: Option<String>,
}

/// The mathematical value of a [`FrameInfo`].
pub struct FrameModel {
    pub id: int,
    pub name: Seq<char>,
    pub line: int,
    pub column: Option<int>,
    pub file: Option<Seq<char>>,
}

impl View for FrameInfo {
    type V = FrameModel;

    open spec fn view(&self) -> FrameModel {
        FrameModel {
            id: self.id as int,
            name: self.name@,
            line: self.line as int,
            column: wide_view(self.column),
            file: text_view(self.file),
        }
    }
}

/// What the interface shows of the frame `f`: `id` and `line` are 0 and the
/// name is `<unknown>` where the frame does not give them.
pub open spec fn frame_info(f: JsonModel) -> FrameModel {
    FrameModel {
        id: match f.int_member("id"@) {
            Some(n) => n,
            None => 0,
        },
        name: match f.text_member("name"@) {
            Some(t) => t,
            None => "<unknown>"@,
        },
        line: match f.int_member("line"@) {
            Some(n) => n,
            None => 0,
        },
        column: f.int_member("column"@),
        file: match f.member("source"@) {
            Some(source) => source.text_member("path"@),
            None => None,
        },
    }
}

/// The call stack in the response `m`: one entry for each frame, in order;
/// none where the body names no frames.
pub open spec fn call_stack_of(m: DAPMessageModel) -> Seq<FrameModel> {
    match stack_frames(m.body) {
        Some(frames) => Seq::new(frames.len(), |i: int| frame_info(frames[i])),
        None => Seq::empty(),
    }
}

/// The models of `frames`, in order.
pub open spec fn frame_models(frames: Seq<FrameInfo>) -> Seq<FrameModel> {
    Seq::new(frames.len(), |i: int| frames[i]@)
}

/// What the interface shows of one frame.
fn describe_frame(f: &Json) -> (r: FrameInfo)
    ensures
        r@ == frame_info(f@),
{
    let id = match f.get_i64("id") {
        Some(n) => n,
        None => 0,
    };
    let name = match f.get_str("name") {
        Some(t) => String::from_str(t),
        None => String::from_str("<unknown>"),
    };
    let line = match f.get_i64("line") {
        Some(n) => n,
        None => 0,
    };
    let column = f.get_i64("column");
    let file = match f.get("source") {
        Some(source) => match source.get_str("path") {
            Some(p) => Some(String::from_str(p)),
            None => None,
        },
        None => None,
    };
    FrameInfo { id, name, line, column, file }
}

/// The call stack for the interface, from the response to `stackTrace`. A
/// response without a body is a failure.
pub fn call_stack(response: &DAPMessage) -> (r: Result<Vec<FrameInfo>, CommandError>)
    ensures
        match r {
            Ok(frames) => response@.body is Some && frame_models(frames@) == call_stack_of(
                response@,
            ),
            Err(e) => response@.body is None && e == CommandError::NoStackFrames,
        },
{
    if response.body.is_none() {
        return Err(CommandError::NoStackFrames);
    }
    let mut out: Vec<FrameInfo> = Vec::new();
    match frames_of(response) {
        Some(frames) => {
            let mut i: usize = 0;
            while i < frames.len()
                invariant
                    i <= frames.len(),
                    out.len() == i,
                    forall|k: int| 0 <= k < i ==> out@[k]@ == frame_info(frames@[k]@),
                decreases frames.len() - i,
            {
                out.push(describe_frame(&frames[i]));
                i = i + 1;
            }
            assert(frame_models(out@) =~= call_stack_of(response@));
        },
        None => {
            assert(frame_models(out@) =~= call_stack_of(response@));
        },
    }
    Ok(out)
}

/// The result of an evaluation by the native adapter, tidied: the value, the
/// type that the body names, and its reference to the variables; `null` and 0
/// where the body names none.
pub open spec fn tidied(body: JsonModel, value: Seq<char>) -> JsonModel {
    JsonModel::Object(
        seq![
            MemberModel { key: "result"@, value: JsonModel::Str(value) },
            MemberModel {
                key: "type"@,
                value: match body.member("type"@) {
                    Some(t) => t,
                    None => JsonModel::Null,
                },
            },
            MemberModel {
                key: "variablesReference"@,
                value: match body.member("variablesReference"@) {
                    Some(v) => v,
                    None => JsonModel::Int(0),
                },
            },
        ],
    )
}

/// Tidies the result of an evaluation, given the value.
pub fn tidy_result(body: &Json, value: &str) -> (r: Json)
    ensures
        r@ == tidied(body@, value@),
{
    let kind = match body.get("type") {
        Some(t) => t.clone(),
        None => Json::Null,
    };
    let reference = match body.get("variablesReference") {
        Some(v) => v.clone(),
        None => Json::Int(0),
    };
    let r = Json::object().with("result", Json::text(value)).with("type", kind).with(
        "variablesReference",
        reference,
    );
    assert(r@->Object_0 =~= tidied(body@, value@)->Object_0);
    r
}

/// What an evaluation returns to the interface, given the value that was
/// picked out of the adapter's answer: for the native adapter a body with a
/// `result` string is tidied; any other body is returned as it is.
pub open spec fn evaluation_of(kind: Option<AdapterKind>, body: JsonModel, value: Seq<char>) -> JsonModel {
    if kind == Some(AdapterKind::Launch) && body.text_member("result"@) is Some {
        tidied(body, value)
    } else {
        body
    }
}

/// What an evaluation returns to the interface. A response without a body is
/// a failure.
pub fn evaluation_result(kind: Option<AdapterKind>, response: DAPMessage) -> (r: Result<
    Json,
    CommandError,
>)
    ensures
        match r {
            Ok(j) => response@.body matches Some(b) && j@ == evaluation_of(
                kind,
                b,
                match b.text_member("result"@) {
                    Some(t) => lldb_value(
                        t,
                        regex_capture(full_pattern(), t, 1),
                        regex_capture(short_pattern(), t, 1),
                    ),
                    None => Seq::empty(),
                },
            ),
            Err(e) => response@.body is None && e == CommandError::NoResult,
        },
{
    let body = match response.body {
        Some(b) => b,
        None => {
            return Err(CommandError::NoResult);
        },
    };
    let launches = match kind {
        Some(AdapterKind::Launch) => true,
        _ => false,
    };
    if launches {
        let tidy = match body.get_str("result") {
            Some(t) => {
                let value = parse_lldb_result(t);
                Some(tidy_result(&body, value.as_str()))
            },
            None => None,
        };
        match tidy {
            Some(j) => Ok(j),
            None => Ok(body),
        }
    } else {
        Ok(body)
    }
}

/// What `set_breakpoints` returns to the interface: the body of the response.
pub fn breakpoints_result(response: DAPMessage) -> (r: Result<Json, CommandError>)
    ensures
        match r {
            Ok(j) => response@.body == Some(j@),
            Err(e) => response@.body is None && e == CommandError::NoBreakpoints,
        },
{
    match response.body {
        Some(b) => Ok(b),
        None => Err(CommandError::NoBreakpoints),
    }
}

} // verus!
