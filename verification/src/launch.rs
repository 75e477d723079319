//! The order of work when a session is launched and when it is ended.
//!
//! Launching alternates work on the outside (a process is spawned, a
//! connection opened, a response awaited) with decisions. The decisions are
//! here: which step comes next for which kind of adapter, with what
//! arguments, and what a failure is called. The supervisor performs each step
//! and reports how it went.

use vstd::prelude::*;
use vstd::string::StringExecFns;
use crate::commands::CommandError;
use crate::debug_state::AdapterKind;
use crate::message::DAPMessage;
use crate::json::{Json, JsonModel, MemberModel};
use crate::text::{decimal_chars, decimal_text, join, str_eq};

verus! {

/// The time that an adapter is given to begin listening, in milliseconds.
pub const STARTUP_DELAY_MS: u64 = 2000;

/// The pause after `attach`, for which no response is awaited, in milliseconds.
pub const ATTACH_SETTLE_MS: u64 = 700;

/// The time within which a response must arrive, in milliseconds.
pub const RESPONSE_TIMEOUT_MS: u64 = 10000;

/// The time within which the location of a pause must arrive to be reported
/// with it, in milliseconds.
pub const LOCATION_TIMEOUT_MS: u64 = 2000;

/// The pause between two polls of a table, in milliseconds.
pub const POLL_INTERVAL_MS: u64 = 50;

/// The host on which the adapter listens.
pub const LOCAL_HOST: &'static str = "127.0.0.1";

/// The program that runs the adapter that is attached to.
pub const ATTACH_PROGRAM: &'static str = "python";

/// The kind of adapter that serves the engine named `engine`.
pub open spec fn kind_of_engine(engine: Seq<char>) -> Option<AdapterKind> {
    if engine == "python"@ {
        Some(AdapterKind::Attach)
    } else if engine == "rust"@ {
        Some(AdapterKind::Launch)
    } else {
        None
    }
}

/// The kind of adapter that serves an engine: `python` is attached to, `rust`
/// is launched; no other engine is supported.
pub fn adapter_kind(engine: &str) -> (r: Option<AdapterKind>)
    ensures
        r == kind_of_engine(engine@),
{
    if str_eq(engine, "python") {
        Some(AdapterKind::Attach)
    } else if str_eq(engine, "rust") {
        Some(AdapterKind::Launch)
    } else {
        None
    }
}

/// The port from which the search for a free port starts.
pub open spec fn base_port(kind: AdapterKind) -> int {
    match kind {
        AdapterKind::Attach => 5678,
        AdapterKind::Launch => 9123,
    }
}

/// The port from which the search for a free port starts.
pub fn port_base(kind: AdapterKind) -> (r: u16)
    ensures
        r == base_port(kind),
{
    match kind {
        AdapterKind::Attach => 5678,
        AdapterKind::Launch => 9123,
    }
}

/// The address `127.0.0.1:<port>`.
pub open spec fn local_address(port: int) -> Seq<char> {
    "127.0.0.1:"@ + decimal_chars(port as nat)
}

/// The address on which the adapter listens.
pub fn listen_address(port: u16) -> (r: String)
    ensures
        r@ == local_address(port as int),
{
    let digits = decimal_text(port as u64);
    join("127.0.0.1:", digits.as_str())
}

/// The command line of the adapter, after the program's name.
pub open spec fn adapter_command_line(kind: AdapterKind, port: int, script: Seq<char>) -> Seq<
    Seq<char>,
> {
    match kind {
        AdapterKind::Attach => seq![
            "-Xfrozen_modules=off"@,
            "-u"@,
            "-m"@,
            "debugpy"@,
            "--listen"@,
            local_address(port),
            "--wait-for-client"@,
            script,
        ],
        AdapterKind::Launch => seq!["--port"@, decimal_chars(port as nat)],
    }
}

/// The texts of `items`.
pub open spec fn texts(items: Seq<String>) -> Seq<Seq<char>> {
    Seq::new(items.len(), |i: int| items[i]@)
}

/// The arguments with which the adapter is spawned: the attached adapter is
/// told where to listen, to wait for a client, and which script to run; the
/// launching adapter is told its port.
pub fn adapter_arguments(kind: AdapterKind, port: u16, script: &str) -> (r: Vec<String>)
    ensures
        texts(r@) == adapter_command_line(kind, port as int, script@),
{
    let mut out: Vec<String> = Vec::new();
    match kind {
        AdapterKind::Attach => {
            out.push(String::from_str("-Xfrozen_modules=off"));
            out.push(String::from_str("-u"));
            out.push(String::from_str("-m"));
            out.push(String::from_str("debugpy"));
            out.push(String::from_str("--listen"));
            out.push(listen_address(port));
            out.push(String::from_str("--wait-for-client"));
            out.push(String::from_str(script));
        },
        AdapterKind::Launch => {
            out.push(String::from_str("--port"));
            out.push(decimal_text(port as u64));
        },
    }
    assert(texts(out@) =~= adapter_command_line(kind, port as int, script@));
    out
}

/// The places where the launching adapter is looked for, in this order.
pub open spec fn candidate_paths() -> Seq<Seq<char>> {
    seq![
        "/Applications/Xcode.app/Contents/Developer/usr/bin/lldb-dap"@,
        "/usr/bin/lldb-dap"@,
        "/usr/local/bin/lldb-dap"@,
    ]
}

/// The places where the launching adapter is looked for, in this order.
pub fn adapter_candidates() -> (r: Vec<String>)
    ensures
        texts(r@) == candidate_paths(),
{
    let mut out: Vec<String> = Vec::new();
    out.push(String::from_str("/Applications/Xcode.app/Contents/Developer/usr/bin/lldb-dap"));
    out.push(String::from_str("/usr/bin/lldb-dap"));
    out.push(String::from_str("/usr/local/bin/lldb-dap"));
    assert(texts(out@) =~= candidate_paths());
    out
}

/// The first candidate that is present, given which of them are.
pub fn first_present(present: &Vec<bool>) -> (r: Option<usize>)
    ensures
        match r {
            Some(i) => i < present.len() && present@[i as int] && forall|j: int|
                0 <= j < i ==> !present@[j],
            None => forall|j: int| 0 <= j < present.len() ==> !present@[j],
        },
{
    let mut i: usize = 0;
    while i < present.len()
        invariant
            i <= present.len(),
            forall|j: int| 0 <= j < i ==> !present@[j],
        decreases present.len() - i,
    {
        if present[i] {
            return Some(i);
        }
        i = i + 1;
    }
    None
}

/// One step of a launch.
#[derive(Debug, Clone, Copy, PartialEq, Eq, Structural)]
pub enum LaunchAction {
    /// Expand and resolve the path of the program to debug.
    ResolveProgram,
    /// Find a free local port, from the base port of the adapter's kind up.
    AllocatePort,
    /// Find the adapter's executable among the candidates.
    LocateAdapter,
    /// Spawn the adapter with its arguments.
    SpawnAdapter,
    /// Start forwarding the adapter's standard streams, line by line.
    CaptureStreams,
    /// Wait for the adapter to begin listening.
    AwaitListening,
    /// Open the transport.
    Connect,
    /// Start the receiver loop.
    StartReceiver,
    /// Send `initialize` and await its response.
    Initialize,
    /// Send `attach`, without awaiting a response, or send `launch`, await
    /// its response and see that it reports success.
    Enter,
    /// Wait a moment after `attach`.
    Settle,
    /// Keep the client and the process in the session.
    StoreHandles,
    /// Report the status `initializing`.
    AnnounceInitializing,
    /// The launch has succeeded.
    Finished,
    /// The launch has failed; no session was created.
    Aborted,
}

/// The step with which a launch begins.
pub open spec fn first_action(kind: AdapterKind) -> LaunchAction {
    match kind {
        AdapterKind::Attach => LaunchAction::AllocatePort,
        AdapterKind::Launch => LaunchAction::ResolveProgram,
    }
}

/// The step that follows `a` where `a` succeeded.
pub open spec fn following(kind: AdapterKind, a: LaunchAction) -> LaunchAction {
    match a {
        LaunchAction::ResolveProgram => LaunchAction::AllocatePort,
        LaunchAction::AllocatePort => match kind {
            AdapterKind::Attach => LaunchAction::SpawnAdapter,
            AdapterKind::Launch => LaunchAction::LocateAdapter,
        },
        LaunchAction::LocateAdapter => LaunchAction::SpawnAdapter,
        LaunchAction::SpawnAdapter => LaunchAction::CaptureStreams,
        LaunchAction::CaptureStreams => LaunchAction::AwaitListening,
        LaunchAction::AwaitListening => LaunchAction::Connect,
        LaunchAction::Connect => LaunchAction::StartReceiver,
        LaunchAction::StartReceiver => LaunchAction::Initialize,
        LaunchAction::Initialize => LaunchAction::Enter,
        LaunchAction::Enter => match kind {
            AdapterKind::Attach => LaunchAction::Settle,
            AdapterKind::Launch => LaunchAction::StoreHandles,
        },
        LaunchAction::Settle => LaunchAction::StoreHandles,
        LaunchAction::StoreHandles => LaunchAction::AnnounceInitializing,
        LaunchAction::AnnounceInitializing => LaunchAction::Finished,
        LaunchAction::Finished => LaunchAction::Finished,
        LaunchAction::Aborted => LaunchAction::Aborted,
    }
}

/// The steps of a launch from `a` on, `n` of them.
pub open spec fn steps_from(kind: AdapterKind, a: LaunchAction, n: nat) -> Seq<LaunchAction>
    decreases n,
{
    if n == 0 {
        Seq::empty()
    } else {
        seq![a] + steps_from(kind, following(kind, a), (n - 1) as nat)
    }
}

/// What went wrong in a launch.
#[derive(Debug, Clone, Copy, PartialEq, Eq, Structural)]
pub enum LaunchFailure {
    UnsupportedEngine,
    ResolveProgram,
    AllocatePort,
    LocateAdapter,
    SpawnAdapter,
    Connect,
    Initialize,
    Attach,
    SendLaunch,
    LaunchTimeout,
    LaunchRejected,
}

/// The words that begin the report of a failure.
pub open spec fn failure_prefix(kind: AdapterKind, failure: LaunchFailure) -> Seq<char> {
    match failure {
        LaunchFailure::UnsupportedEngine => "Unsupported debug engine: "@,
        LaunchFailure::ResolveProgram => "Failed to resolve path "@,
        LaunchFailure::AllocatePort => "Could not find available port: "@,
        LaunchFailure::LocateAdapter =>
            "Could not find lldb-dap executable. Please ensure LLDB with DAP support is installed."@,
        LaunchFailure::SpawnAdapter => match kind {
            AdapterKind::Attach => "Failed to spawn debugpy process: "@,
            AdapterKind::Launch => "Failed to spawn lldb-dap process: "@,
        },
        LaunchFailure::Connect => "Error connecting DAPClient: "@,
        LaunchFailure::Initialize => "Initialize failed: "@,
        LaunchFailure::Attach => "Attach failed: "@,
        LaunchFailure::SendLaunch => "Failed to send launch request: "@,
        LaunchFailure::LaunchTimeout => "Timeout waiting for launch response"@,
        LaunchFailure::LaunchRejected => "Launch failed: "@,
    }
}

/// Whether the report of a failure ends with the detail that came with it.
pub open spec fn takes_detail(failure: LaunchFailure) -> bool {
    failure != LaunchFailure::LocateAdapter && failure != LaunchFailure::LaunchTimeout
}

/// The report of a failure.
pub open spec fn failure_text(kind: AdapterKind, failure: LaunchFailure, detail: Seq<char>) -> Seq<
    char,
> {
    if takes_detail(failure) {
        failure_prefix(kind, failure) + detail
    } else {
        failure_prefix(kind, failure)
    }
}

/// The report of a failure, as the interface gets it.
pub fn failure_message(kind: AdapterKind, failure: LaunchFailure, detail: &str) -> (r: String)
    ensures
        r@ == failure_text(kind, failure, detail@),
{
    let prefix = match failure {
        LaunchFailure::UnsupportedEngine => "Unsupported debug engine: ",
        LaunchFailure::ResolveProgram => "Failed to resolve path ",
        LaunchFailure::AllocatePort => "Could not find available port: ",
        LaunchFailure::LocateAdapter =>
            "Could not find lldb-dap executable. Please ensure LLDB with DAP support is installed.",
        LaunchFailure::SpawnAdapter => match kind {
            AdapterKind::Attach => "Failed to spawn debugpy process: ",
            AdapterKind::Launch => "Failed to spawn lldb-dap process: ",
        },
        LaunchFailure::Connect => "Error connecting DAPClient: ",
        LaunchFailure::Initialize => "Initialize failed: ",
        LaunchFailure::Attach => "Attach failed: ",
        LaunchFailure::SendLaunch => "Failed to send launch request: ",
        LaunchFailure::LaunchTimeout => "Timeout waiting for launch response",
        LaunchFailure::LaunchRejected => "Launch failed: ",
    };
    match failure {
        LaunchFailure::LocateAdapter => String::from_str(prefix),
        LaunchFailure::LaunchTimeout => String::from_str(prefix),
        _ => join(prefix, detail),
    }
}

/// The words that confirm a launch.
pub open spec fn confirmation_text(kind: AdapterKind) -> Seq<char> {
    match kind {
        AdapterKind::Attach => "Debug session launched successfully"@,
        AdapterKind::Launch => "Rust debug session launched successfully"@,
    }
}

/// The words that confirm a launch.
pub fn confirmation(kind: AdapterKind) -> (r: &'static str)
    ensures
        r@ == confirmation_text(kind),
{
    match kind {
        AdapterKind::Attach => "Debug session launched successfully",
        AdapterKind::Launch => "Rust debug session launched successfully",
    }
}

/// What the wait for the response to `launch` means for the launch: a
/// response that reports a failure of the adapter rejects it, no response in
/// time fails it, and any other response lets it go on.
pub open spec fn launch_verdict_of(outcome: Result<DAPMessage, CommandError>) -> Option<
    LaunchFailure,
> {
    match outcome {
        Ok(m) => if m@.success == Some(false) {
            Some(LaunchFailure::LaunchRejected)
        } else {
            None
        },
        Err(_) => Some(LaunchFailure::LaunchTimeout),
    }
}

/// What the wait for the response to `launch` means for the launch.
pub fn launch_verdict(outcome: &Result<DAPMessage, CommandError>) -> (r: Option<LaunchFailure>)
    ensures
        r == launch_verdict_of(*outcome),
{
    match outcome {
        Ok(m) => match m.success {
            Some(false) => Some(LaunchFailure::LaunchRejected),
            _ => None,
        },
        Err(_) => Some(LaunchFailure::LaunchTimeout),
    }
}

/// The progress of one launch.
#[derive(Debug, PartialEq, Eq)]
pub struct Launch {
    kind: AdapterKind,
    action: LaunchAction,
    failure: Option<LaunchFailure>,
}

impl Launch {
    /// The kind of adapter that is launched.
    pub closed spec fn kind(&self) -> AdapterKind {
        self.kind
    }

    /// The step that is to be performed next.
    pub closed spec fn action(&self) -> LaunchAction {
        self.action
    }

    /// What went wrong, where the launch has failed.
    pub closed spec fn failure(&self) -> Option<LaunchFailure> {
        self.failure
    }

    /// A launch fails exactly where it has been aborted.
    pub closed spec fn wf(&self) -> bool {
        (self.action == LaunchAction::Aborted) == (self.failure is Some)
    }

    /// Begins the launch of an adapter of this kind.
    pub fn begin(kind: AdapterKind) -> (r: Launch)
        ensures
            r.wf(),
            r.kind() == kind,
            r.action() == first_action(kind),
            r.failure() is None,
    {
        let action = match kind {
            AdapterKind::Attach => LaunchAction::AllocatePort,
            AdapterKind::Launch => LaunchAction::ResolveProgram,
        };
        Launch { kind, action, failure: None }
    }

    /// The kind of adapter that is launched.
    pub fn adapter(&self) -> (r: AdapterKind)
        ensures
            r == self.kind(),
    {
        self.kind
    }

    /// The step that is to be performed next.
    pub fn current(&self) -> (r: LaunchAction)
        ensures
            r == self.action(),
    {
        self.action
    }

    /// What went wrong, where the launch has failed.
    pub fn failed_with(&self) -> (r: Option<LaunchFailure>)
        ensures
            r == self.failure(),
    {
        self.failure
    }

    /// Records that the current step succeeded, and moves to the next.
    pub fn succeed(&mut self)
        requires
            old(self).wf(),
        ensures
            final(self).wf(),
            final(self).kind() == old(self).kind(),
            final(self).action() == following(old(self).kind(), old(self).action()),
            final(self).failure() == old(self).failure(),
    {
        self.action = match self.action {
            LaunchAction::ResolveProgram => LaunchAction::AllocatePort,
            LaunchAction::AllocatePort => match self.kind {
                AdapterKind::Attach => LaunchAction::SpawnAdapter,
                AdapterKind::Launch => LaunchAction::LocateAdapter,
            },
            LaunchAction::LocateAdapter => LaunchAction::SpawnAdapter,
            LaunchAction::SpawnAdapter => LaunchAction::CaptureStreams,
            LaunchAction::CaptureStreams => LaunchAction::AwaitListening,
            LaunchAction::AwaitListening => LaunchAction::Connect,
            LaunchAction::Connect => LaunchAction::StartReceiver,
            LaunchAction::StartReceiver => LaunchAction::Initialize,
            LaunchAction::Initialize => LaunchAction::Enter,
            LaunchAction::Enter => match self.kind {
                AdapterKind::Attach => LaunchAction::Settle,
                AdapterKind::Launch => LaunchAction::StoreHandles,
            },
            LaunchAction::Settle => LaunchAction::StoreHandles,
            LaunchAction::StoreHandles => LaunchAction::AnnounceInitializing,
            LaunchAction::AnnounceInitializing => LaunchAction::Finished,
            LaunchAction::Finished => LaunchAction::Finished,
            LaunchAction::Aborted => LaunchAction::Aborted,
        };
    }

    /// Records that the current step failed. A launch that is under way is
    /// aborted; one that has finished or failed already stays as it is.
    pub fn fail(&mut self, failure: LaunchFailure)
        requires
            old(self).wf(),
        ensures
            final(self).wf(),
            final(self).kind() == old(self).kind(),
            if old(self).action() == LaunchAction::Finished || old(self).action()
                == LaunchAction::Aborted {
                final(self).action() == old(self).action() && final(self).failure() == old(
                    self,
                ).failure()
            } else {
                final(self).action() == LaunchAction::Aborted && final(self).failure() == Some(
                    failure,
                )
            },
    {
        match self.action {
            LaunchAction::Finished => {},
            LaunchAction::Aborted => {},
            _ => {
                self.action = LaunchAction::Aborted;
                self.failure = Some(failure);
            },
        }
    }
}

/// The steps of launching an adapter that is attached to, in order.
pub proof fn lemma_attach_sequence()
    ensures
        steps_from(AdapterKind::Attach, first_action(AdapterKind::Attach), 12) == seq![
            LaunchAction::AllocatePort,
            LaunchAction::SpawnAdapter,
            LaunchAction::CaptureStreams,
            LaunchAction::AwaitListening,
            LaunchAction::Connect,
            LaunchAction::StartReceiver,
            LaunchAction::Initialize,
            LaunchAction::Enter,
            LaunchAction::Settle,
            LaunchAction::StoreHandles,
            LaunchAction::AnnounceInitializing,
            LaunchAction::Finished,
        ],
{
    reveal_with_fuel(steps_from, 13);
    assert(steps_from(AdapterKind::Attach, first_action(AdapterKind::Attach), 12) =~= seq![
        LaunchAction::AllocatePort,
        LaunchAction::SpawnAdapter,
        LaunchAction::CaptureStreams,
        LaunchAction::AwaitListening,
        LaunchAction::Connect,
        LaunchAction::StartReceiver,
        LaunchAction::Initialize,
        LaunchAction::Enter,
        LaunchAction::Settle,
        LaunchAction::StoreHandles,
        LaunchAction::AnnounceInitializing,
        LaunchAction::Finished,
    ]);
}

/// The steps of launching an adapter that launches the debuggee, in order.
pub proof fn lemma_launch_sequence()
    ensures
        steps_from(AdapterKind::Launch, first_action(AdapterKind::Launch), 13) == seq![
            LaunchAction::ResolveProgram,
            LaunchAction::AllocatePort,
            LaunchAction::LocateAdapter,
            LaunchAction::SpawnAdapter,
            LaunchAction::CaptureStreams,
            LaunchAction::AwaitListening,
            LaunchAction::Connect,
            LaunchAction::StartReceiver,
            LaunchAction::Initialize,
            LaunchAction::Enter,
            LaunchAction::StoreHandles,
            LaunchAction::AnnounceInitializing,
            LaunchAction::Finished,
        ],
{
    reveal_with_fuel(steps_from, 14);
    assert(steps_from(AdapterKind::Launch, first_action(AdapterKind::Launch), 13) =~= seq![
        LaunchAction::ResolveProgram,
        LaunchAction::AllocatePort,
        LaunchAction::LocateAdapter,
        LaunchAction::SpawnAdapter,
        LaunchAction::CaptureStreams,
        LaunchAction::AwaitListening,
        LaunchAction::Connect,
        LaunchAction::StartReceiver,
        LaunchAction::Initialize,
        LaunchAction::Enter,
        LaunchAction::StoreHandles,
        LaunchAction::AnnounceInitializing,
        LaunchAction::Finished,
    ]);
}

/// The status that the process manager reports of the adapter's process.
#[derive(Debug, PartialEq, Eq)]
pub enum DebugStatus {
    Starting,
    Running,
    Terminated,
    Error(String),
}

/// The mathematical value of a [`DebugStatus`].
pub enum DebugStatusModel {
    Starting,
    Running,
    Terminated,
    Error(Seq<char>),
}

impl View for DebugStatus {
    type V = DebugStatusModel;

    open spec fn view(&self) -> DebugStatusModel {
        match self {
            DebugStatus::Starting => DebugStatusModel::Starting,
            DebugStatus::Running => DebugStatusModel::Running,
            DebugStatus::Terminated => DebugStatusModel::Terminated,
            DebugStatus::Error(t) => DebugStatusModel::Error(t@),
        }
    }
}

/// The status as the interface gets it: the name of the status, and for an
/// error an object that holds the error's text under `Error`.
pub open spec fn manager_status_json(s: DebugStatusModel) -> JsonModel {
    match s {
        DebugStatusModel::Starting => JsonModel::Str("Starting"@),
        DebugStatusModel::Running => JsonModel::Str("Running"@),
        DebugStatusModel::Terminated => JsonModel::Str("Terminated"@),
        DebugStatusModel::Error(t) => JsonModel::Object(
            seq![MemberModel { key: "Error"@, value: JsonModel::Str(t) }],
        ),
    }
}

impl DebugStatus {
    /// The status as the interface gets it.
    pub fn to_json(&self) -> (r: Json)
        ensures
            r@ == manager_status_json(self@),
    {
        match self {
            DebugStatus::Starting => Json::text("Starting"),
            DebugStatus::Running => Json::text("Running"),
            DebugStatus::Terminated => Json::text("Terminated"),
            DebugStatus::Error(t) => {
                let r = Json::object().with("Error", Json::text(t.as_str()));
                assert(r@->Object_0 =~= seq![
                    MemberModel { key: "Error"@, value: JsonModel::Str(t@) },
                ]);
                r
            },
        }
    }
}

/// One step of ending a session.
#[derive(Debug, Clone, Copy, PartialEq, Eq, Structural)]
pub enum TerminateStep {
    /// End the session on this side and report the status `terminated`.
    EmitTerminated,
    /// Send `terminate` and await its response; a failure is not fatal.
    RequestTerminate,
    /// Kill the adapter's process.
    KillProcess,
}

/// The steps of ending a session, in order. An adapter that launches the
/// debuggee reports no end, so the end is reported before `terminate` is
/// sent. An adapter that is attached to reports its end itself. Without a
/// client there is nobody to ask.
pub open spec fn terminate_steps(kind: Option<AdapterKind>, has_client: bool) -> Seq<TerminateStep> {
    if !has_client {
        seq![TerminateStep::EmitTerminated, TerminateStep::KillProcess]
    } else if kind == Some(AdapterKind::Launch) {
        seq![
            TerminateStep::EmitTerminated,
            TerminateStep::RequestTerminate,
            TerminateStep::KillProcess,
        ]
    } else {
        seq![TerminateStep::RequestTerminate, TerminateStep::KillProcess]
    }
}

/// The steps of ending a session, in order.
pub fn terminate_plan(kind: Option<AdapterKind>, has_client: bool) -> (r: Vec<TerminateStep>)
    ensures
        r@ == terminate_steps(kind, has_client),
{
    let mut out: Vec<TerminateStep> = Vec::new();
    let launches = match kind {
        Some(AdapterKind::Launch) => true,
        _ => false,
    };
    if !has_client {
        out.push(TerminateStep::EmitTerminated);
    } else if launches {
        out.push(TerminateStep::EmitTerminated);
        out.push(TerminateStep::RequestTerminate);
    } else {
        out.push(TerminateStep::RequestTerminate);
    }
    out.push(TerminateStep::KillProcess);
    assert(out@ =~= terminate_steps(kind, has_client));
    out
}

/// Whether the end must be reported from this side after `terminate` was
/// sent: it must where the request failed and the end has not been reported
/// before the request.
pub fn report_after_request(kind: Option<AdapterKind>, request_succeeded: bool) -> (r: bool)
    ensures
        r == (!request_succeeded && kind != Some(AdapterKind::Launch)),
{
    let launches = match kind {
        Some(AdapterKind::Launch) => true,
        _ => false,
    };
    !request_succeeded && !launches
}

} // verus!
