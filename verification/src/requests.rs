//! The requests that the engine sends, one builder for each command.
//!
//! A builder returns the request without a sequence number (`seq` is -1); the
//! client stamps it when it is sent.

use vstd::prelude::*;
use vstd::string::StrSliceExecFns;
use crate::json::{Json, JsonModel, MemberModel, lemma_array_view, item_models};
use crate::message::{DAPMessage, DAPMessageModel, MessageType};
use crate::text::chars_of;

verus! {

/// One breakpoint that the interface asks for.
#[derive(Debug, Clone, Copy, PartialEq, Eq, Structural)]
pub struct BreakpointInput {
    pub line: u32,
}

/// The commands that the engine sends.
#[derive(Debug, Clone, Copy, PartialEq, Eq, Structural)]
pub enum Command {
    Initialize,
    Attach,
    Launch,
    SetBreakpoints,
    ConfigurationDone,
    StackTrace,
    Continue,
    Next,
    StepIn,
    StepOut,
    Evaluate,
    Terminate,
}

/// The name by which a command goes on the wire.
pub open spec fn command_name(c: Command) -> Seq<char> {
    match c {
        Command::Initialize => "initialize"@,
        Command::Attach => "attach"@,
        Command::Launch => "launch"@,
        Command::SetBreakpoints => "setBreakpoints"@,
        Command::ConfigurationDone => "configurationDone"@,
        Command::StackTrace => "stackTrace"@,
        Command::Continue => "continue"@,
        Command::Next => "next"@,
        Command::StepIn => "stepIn"@,
        Command::StepOut => "stepOut"@,
        Command::Evaluate => "evaluate"@,
        Command::Terminate => "terminate"@,
    }
}

impl Command {
    /// The name by which this command goes on the wire.
    pub fn name(&self) -> (r: &'static str)
        ensures
            r@ == command_name(*self),
    {
        match self {
            Command::Initialize => "initialize",
            Command::Attach => "attach",
            Command::Launch => "launch",
            Command::SetBreakpoints => "setBreakpoints",
            Command::ConfigurationDone => "configurationDone",
            Command::StackTrace => "stackTrace",
            Command::Continue => "continue",
            Command::Next => "next",
            Command::StepIn => "stepIn",
            Command::StepOut => "stepOut",
            Command::Evaluate => "evaluate",
            Command::Terminate => "terminate",
        }
    }
}

/// A member of a JSON object.
pub open spec fn member(key: Seq<char>, value: JsonModel) -> MemberModel {
    MemberModel { key, value }
}

/// A JSON string.
pub open spec fn text(t: Seq<char>) -> JsonModel {
    JsonModel::Str(t)
}

/// An unstamped request for `command` with these arguments.
pub open spec fn request_model(command: Seq<char>, arguments: JsonModel) -> DAPMessageModel {
    DAPMessageModel {
        seq: -1,
        message_type: MessageType::Request,
        command: Some(command),
        request_seq: None,
        success: None,
        body: None,
        event: None,
        arguments: Some(arguments),
    }
}

/// An unstamped request for `command` with these arguments.
pub fn request(command: &str, arguments: Json) -> (r: DAPMessage)
    ensures
        r@ == request_model(command@, arguments@),
{
    DAPMessage {
        seq: -1,
        message_type: MessageType::Request,
        command: Some(String::from_str(command)),
        request_seq: None,
        success: None,
        body: None,
        event: None,
        arguments: Some(arguments),
    }
}

/// The client's identity and abilities, as `initialize` states them.
pub open spec fn initialize_arguments() -> JsonModel {
    JsonModel::Object(
        seq![
            member("adapterID"@, text("python"@)),
            member("clientID"@, text("dap_test_client"@)),
            member("clientName"@, text("DAP Test"@)),
            member("linesStartAt1"@, JsonModel::Bool(true)),
            member("columnsStartAt1"@, JsonModel::Bool(true)),
            member("pathFormat"@, text("path"@)),
            member("supportsVariableType"@, JsonModel::Bool(true)),
            member("supportsEvaluateForHovers"@, JsonModel::Bool(true)),
        ],
    )
}

/// The `initialize` request.
pub fn initialize_request() -> (r: DAPMessage)
    ensures
        r@ == request_model("initialize"@, initialize_arguments()),
{
    let args = Json::object().with("adapterID", Json::text("python")).with(
        "clientID",
        Json::text("dap_test_client"),
    ).with("clientName", Json::text("DAP Test")).with("linesStartAt1", Json::Bool(true)).with(
        "columnsStartAt1",
        Json::Bool(true),
    ).with("pathFormat", Json::text("path")).with("supportsVariableType", Json::Bool(true)).with(
        "supportsEvaluateForHovers",
        Json::Bool(true),
    );
    assert(args@->Object_0 =~= initialize_arguments()->Object_0);
    request("initialize", args)
}

/// The arguments of `attach`.
pub open spec fn attach_arguments(host: Seq<char>, port: int) -> JsonModel {
    JsonModel::Object(seq![member("host"@, text(host)), member("port"@, JsonModel::Int(port))])
}

/// The `attach` request for the adapter that listens at `host` and `port`.
pub fn attach_request(host: &str, port: u16) -> (r: DAPMessage)
    ensures
        r@ == request_model("attach"@, attach_arguments(host@, port as int)),
{
    let args = Json::object().with("host", Json::text(host)).with("port", Json::Int(port as i64));
    assert(args@->Object_0 =~= attach_arguments(host@, port as int)->Object_0);
    request("attach", args)
}

/// The JSON strings of `items`, in order.
pub open spec fn text_items(items: Seq<String>) -> Seq<JsonModel> {
    Seq::new(items.len(), |i: int| text(items[i]@))
}

/// The arguments of `launch`.
pub open spec fn launch_arguments(
    program: Seq<char>,
    args: Seq<JsonModel>,
    cwd: Seq<char>,
    stop_on_entry: bool,
) -> JsonModel {
    JsonModel::Object(
        seq![
            member("program"@, text(program)),
            member("stopOnEntry"@, JsonModel::Bool(stop_on_entry)),
            member("args"@, JsonModel::Array(args)),
            member("cwd"@, text(cwd)),
        ],
    )
}

/// The `launch` request for the program at `program`, run in `cwd` with the
/// arguments `args`.
pub fn launch_request(program: &str, args: &Vec<String>, cwd: &str, stop_on_entry: bool) -> (r:
    DAPMessage)
    ensures
        r@ == request_model(
            "launch"@,
            launch_arguments(program@, text_items(args@), cwd@, stop_on_entry),
        ),
{
    let mut items: Vec<Json> = Vec::new();
    let mut i: usize = 0;
    while i < args.len()
        invariant
            i <= args.len(),
            items.len() == i,
            forall|k: int| 0 <= k < i ==> items@[k]@ == text(args@[k]@),
        decreases args.len() - i,
    {
        items.push(Json::text(args[i].as_str()));
        i = i + 1;
    }
    proof {
        lemma_array_view(items);
        assert(item_models(items@) =~= text_items(args@));
    }
    let a = Json::object().with("program", Json::text(program)).with(
        "stopOnEntry",
        Json::Bool(stop_on_entry),
    ).with("args", Json::Array(items)).with("cwd", Json::text(cwd));
    assert(a@->Object_0 =~= launch_arguments(
        program@,
        text_items(args@),
        cwd@,
        stop_on_entry,
    )->Object_0);
    request("launch", a)
}

/// The part of `path` after its last slash; all of it where it has none.
pub open spec fn last_component(path: Seq<char>) -> Seq<char>
    decreases path.len(),
{
    if path.len() == 0 || path.last() == '/' {
        Seq::empty()
    } else {
        last_component(path.drop_last()).push(path.last())
    }
}

/// The part of a path after its last slash.
pub fn file_name(path: &str) -> (r: String)
    ensures
        r@ == last_component(path@),
{
    let chars = chars_of(path);
    let n = chars.len();
    let mut from: usize = n;
    proof {
        assert(chars@.take(n as int) =~= chars@);
        assert(last_component(chars@) + chars@.skip(n as int) =~= last_component(chars@));
    }
    while from > 0 && chars[from - 1] != '/'
        invariant
            from <= n,
            n == chars.len(),
            chars@ == path@,
            last_component(chars@) == last_component(chars@.take(from as int)) + chars@.skip(
                from as int,
            ),
        decreases from,
    {
        proof {
            let head = chars@.take(from as int);
            assert(head.drop_last() =~= chars@.take(from as int - 1));
            assert(last_component(head) == last_component(head.drop_last()).push(head.last()));
            assert(last_component(head.drop_last()).push(head.last()) + chars@.skip(from as int)
                =~= last_component(head.drop_last()) + chars@.skip(from as int - 1));
        }
        from = from - 1;
    }
    proof {
        assert(chars@.take(n as int) =~= chars@);
        assert(last_component(chars@.take(from as int)) =~= Seq::<char>::empty());
        assert(path@.subrange(from as int, n as int) =~= last_component(chars@));
    }
    String::from_str(path.substring_char(from, n))
}

/// The breakpoints as JSON objects, each with its line.
pub open spec fn breakpoint_items(breakpoints: Seq<BreakpointInput>) -> Seq<JsonModel> {
    Seq::new(
        breakpoints.len(),
        |i: int| JsonModel::Object(seq![member("line"@, JsonModel::Int(breakpoints[i].line as int))]),
    )
}

/// The arguments of `setBreakpoints`.
pub open spec fn set_breakpoints_arguments(
    file_path: Seq<char>,
    breakpoints: Seq<BreakpointInput>,
) -> JsonModel {
    JsonModel::Object(
        seq![
            member(
                "source"@,
                JsonModel::Object(
                    seq![
                        member("path"@, text(file_path)),
                        member("name"@, text(last_component(file_path))),
                    ],
                ),
            ),
            member("breakpoints"@, JsonModel::Array(breakpoint_items(breakpoints))),
            member("sourceModified"@, JsonModel::Bool(false)),
        ],
    )
}

/// The `setBreakpoints` request for the source at `file_path`.
pub fn set_breakpoints_request(file_path: &str, breakpoints: &Vec<BreakpointInput>) -> (r:
    DAPMessage)
    ensures
        r@ == request_model("setBreakpoints"@, set_breakpoints_arguments(file_path@, breakpoints@)),
{
    let mut items: Vec<Json> = Vec::new();
    let mut i: usize = 0;
    while i < breakpoints.len()
        invariant
            i <= breakpoints.len(),
            items.len() == i,
            forall|k: int| 0 <= k < i ==> items@[k]@ == breakpoint_items(breakpoints@)[k],
        decreases breakpoints.len() - i,
    {
        let item = Json::object().with("line", Json::Int(breakpoints[i].line as i64));
        assert(item@->Object_0 =~= breakpoint_items(breakpoints@)[i as int]->Object_0);
        items.push(item);
        i = i + 1;
    }
    proof {
        lemma_array_view(items);
        assert(item_models(items@) =~= breakpoint_items(breakpoints@));
    }
    let name = file_name(file_path);
    let source = Json::object().with("path", Json::text(file_path)).with(
        "name",
        Json::text(name.as_str()),
    );
    assert(source@->Object_0 =~= seq![
        member("path"@, text(file_path@)),
        member("name"@, text(last_component(file_path@))),
    ]);
    let args = Json::object().with("source", source).with("breakpoints", Json::Array(items)).with(
        "sourceModified",
        Json::Bool(false),
    );
    assert(args@->Object_0 =~= set_breakpoints_arguments(file_path@, breakpoints@)->Object_0);
    request("setBreakpoints", args)
}

/// The `configurationDone` request: its arguments are an empty object.
pub fn configuration_done_request() -> (r: DAPMessage)
    ensures
        r@ == request_model("configurationDone"@, JsonModel::Object(Seq::empty())),
{
    request("configurationDone", Json::object())
}

/// The arguments of `stackTrace`: the top frame of the thread only.
pub open spec fn stack_trace_arguments(thread_id: int) -> JsonModel {
    JsonModel::Object(
        seq![
            member("threadId"@, JsonModel::Int(thread_id)),
            member("startFrame"@, JsonModel::Int(0)),
            member("levels"@, JsonModel::Int(1)),
        ],
    )
}

/// The `stackTrace` request for the top frame of a thread.
pub fn stack_trace_request(thread_id: i64) -> (r: DAPMessage)
    ensures
        r@ == request_model("stackTrace"@, stack_trace_arguments(thread_id as int)),
{
    let args = Json::object().with("threadId", Json::Int(thread_id)).with(
        "startFrame",
        Json::Int(0),
    ).with("levels", Json::Int(1));
    assert(args@->Object_0 =~= stack_trace_arguments(thread_id as int)->Object_0);
    request("stackTrace", args)
}

/// The arguments of a command that acts on one thread, with the step
/// granularity where one is given.
pub open spec fn thread_arguments(thread_id: int, granularity: Option<Seq<char>>) -> JsonModel {
    JsonModel::Object(
        match granularity {
            Some(g) => seq![
                member("threadId"@, JsonModel::Int(thread_id)),
                member("granularity"@, text(g)),
            ],
            None => seq![member("threadId"@, JsonModel::Int(thread_id))],
        },
    )
}

/// The characters of an optional text.
pub open spec fn optional_chars(o: Option<&str>) -> Option<Seq<char>> {
    match o {
        Some(s) => Some(s@),
        None => None,
    }
}

/// A request that acts on one thread.
pub fn thread_request(command: &str, thread_id: i64, granularity: Option<&str>) -> (r: DAPMessage)
    ensures
        r@ == request_model(
            command@,
            thread_arguments(thread_id as int, optional_chars(granularity)),
        ),
{
    let base = Json::object().with("threadId", Json::Int(thread_id));
    let args = match granularity {
        Some(g) => base.with("granularity", Json::text(g)),
        None => base,
    };
    assert(args@->Object_0 =~= thread_arguments(
        thread_id as int,
        optional_chars(granularity),
    )->Object_0);
    request(command, args)
}

/// The `continue` request.
pub fn continue_request(thread_id: i64) -> (r: DAPMessage)
    ensures
        r@ == request_model("continue"@, thread_arguments(thread_id as int, None)),
{
    thread_request("continue", thread_id, None)
}

/// The `next` request, which steps over.
pub fn next_request(thread_id: i64, granularity: Option<&str>) -> (r: DAPMessage)
    ensures
        r@ == request_model(
            "next"@,
            thread_arguments(thread_id as int, optional_chars(granularity)),
        ),
{
    thread_request("next", thread_id, granularity)
}

/// The `stepIn` request.
pub fn step_in_request(thread_id: i64, granularity: Option<&str>) -> (r: DAPMessage)
    ensures
        r@ == request_model(
            "stepIn"@,
            thread_arguments(thread_id as int, optional_chars(granularity)),
        ),
{
    thread_request("stepIn", thread_id, granularity)
}

/// The `stepOut` request.
pub fn step_out_request(thread_id: i64, granularity: Option<&str>) -> (r: DAPMessage)
    ensures
        r@ == request_model(
            "stepOut"@,
            thread_arguments(thread_id as int, optional_chars(granularity)),
        ),
{
    thread_request("stepOut", thread_id, granularity)
}

/// The arguments of `evaluate`: in a frame the context is `hover`, without
/// one it is `repl`.
pub open spec fn evaluate_arguments(expression: Seq<char>, frame_id: Option<int>) -> JsonModel {
    JsonModel::Object(
        match frame_id {
            Some(f) => seq![
                member("expression"@, text(expression)),
                member("context"@, text("hover"@)),
                member("frameId"@, JsonModel::Int(f)),
            ],
            None => seq![member("expression"@, text(expression)), member("context"@, text("repl"@))],
        },
    )
}

/// The `evaluate` request.
pub fn evaluate_request(expression: &str, frame_id: Option<i32>) -> (r: DAPMessage)
    ensures
        r@ == request_model(
            "evaluate"@,
            evaluate_arguments(expression@, crate::message::int_view(frame_id)),
        ),
{
    let base = Json::object().with("expression", Json::text(expression));
    let args = match frame_id {
        Some(f) => base.with("context", Json::text("hover")).with("frameId", Json::Int(f as i64)),
        None => base.with("context", Json::text("repl")),
    };
    assert(args@->Object_0 =~= evaluate_arguments(
        expression@,
        crate::message::int_view(frame_id),
    )->Object_0);
    request("evaluate", args)
}

/// The arguments of `terminate`: no restart.
pub open spec fn terminate_arguments() -> JsonModel {
    JsonModel::Object(seq![member("restart"@, JsonModel::Bool(false))])
}

/// The `terminate` request.
pub fn terminate_request() -> (r: DAPMessage)
    ensures
        r@ == request_model("terminate"@, terminate_arguments()),
{
    let args = Json::object().with("restart", Json::Bool(false));
    assert(args@->Object_0 =~= terminate_arguments()->Object_0);
    request("terminate", args)
}

} // verus!
