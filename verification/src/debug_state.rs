//! The canonical state of one debug session.
//!
//! The state record moves only as the transition table allows, and never
//! leaves `Terminated`. Every status message for the interface is stamped
//! with the next value of the session's status counter, which starts at zero
//! and is never reset. Two ghost logs, the stamps handed out and the states
//! visited, let the laws of the session be stated of every state it can reach.

use vstd::prelude::*;
use crate::json::{Json, JsonModel, MemberModel};
use crate::message::{DAPMessage, DAPMessageModel, MessageType};
use crate::text::{decimal_chars, decimal_text, str_eq};

verus! {

/// Where the debuggee stands.
#[derive(Debug, PartialEq, Eq)]
pub enum DebuggerState {
    NotStarted,
    Configuring,
    Running,
    Paused { reason: String, thread_id: i64 },
    Terminated,
}

/// The mathematical value of a [`DebuggerState`].
pub enum StateModel {
    NotStarted,
    Configuring,
    Running,
    Paused { reason: Seq<char>, thread_id: int },
    Terminated,
}

impl View for DebuggerState {
    type V = StateModel;

    open spec fn view(&self) -> StateModel {
        match self {
            DebuggerState::NotStarted => StateModel::NotStarted,
            DebuggerState::Configuring => StateModel::Configuring,
            DebuggerState::Running => StateModel::Running,
            DebuggerState::Paused { reason, thread_id } => StateModel::Paused {
                reason: reason@,
                thread_id: *thread_id as int,
            },
            DebuggerState::Terminated => StateModel::Terminated,
        }
    }
}

impl Clone for DebuggerState {
    fn clone(&self) -> (r: Self)
        ensures
            r@ == self@,
    {
        match self {
            DebuggerState::NotStarted => DebuggerState::NotStarted,
            DebuggerState::Configuring => DebuggerState::Configuring,
            DebuggerState::Running => DebuggerState::Running,
            DebuggerState::Paused { reason, thread_id } => DebuggerState::Paused {
                reason: reason.clone(),
                thread_id: *thread_id,
            },
            DebuggerState::Terminated => DebuggerState::Terminated,
        }
    }
}

/// The kind of adapter behind a session.
#[derive(Debug, Clone, Copy, PartialEq, Eq, Structural)]
pub enum AdapterKind {
    /// The debuggee runs inside the adapter, which is attached to.
    Attach,
    /// The adapter starts the debuggee itself.
    Launch,
}

/// The status that a message for the interface reports.
#[derive(Debug, Clone, Copy, PartialEq, Eq, Structural)]
pub enum StatusKind {
    Initializing,
    Configuring,
    Running,
    Paused,
    Terminated,
}

/// The word by which a status is reported.
pub open spec fn status_word(k: StatusKind) -> Seq<char> {
    match k {
        StatusKind::Initializing => "initializing"@,
        StatusKind::Configuring => "configuring"@,
        StatusKind::Running => "running"@,
        StatusKind::Paused => "paused"@,
        StatusKind::Terminated => "terminated"@,
    }
}

impl StatusKind {
    /// The word by which this status is reported.
    pub fn as_str(&self) -> (r: &'static str)
        ensures
            r@ == status_word(*self),
    {
        match self {
            StatusKind::Initializing => "initializing",
            StatusKind::Configuring => "configuring",
            StatusKind::Running => "running",
            StatusKind::Paused => "paused",
            StatusKind::Terminated => "terminated",
        }
    }
}

/// One `debug-status` message for the interface.
#[derive(Debug, PartialEq, Eq)]
pub struct StatusUpdate {
    pub status: StatusKind,
    pub seq: u64,
    pub thread_id: Option<i64>,
    pub file: Option<String>,
    pub line: Option<i64>,
}

/// The mathematical value of a [`StatusUpdate`].
pub struct StatusModel {
    pub status: StatusKind,
    pub seq: int,
    pub thread_id: Option<int>,
    pub file: Option<Seq<char>>,
    pub line: Option<int>,
}

/// The value of an optional 64-bit number.
pub open spec fn wide_view(o: Option<i64>) -> Option<int> {
    match o {
        Some(n) => Some(n as int),
        None => None,
    }
}

impl View for StatusUpdate {
    type V = StatusModel;

    open spec fn view(&self) -> StatusModel {
        StatusModel {
            status: self.status,
            seq: self.seq as int,
            thread_id: wide_view(self.thread_id),
            file: crate::text::text_view(self.file),
            line: wide_view(self.line),
        }
    }
}

/// A status message without a location.
pub open spec fn plain_status(status: StatusKind, seq: int, thread_id: Option<int>) -> StatusModel {
    StatusModel { status, seq, thread_id, file: None, line: None }
}

/// `status` with the location added, where there is one and the status is a
/// pause that names its thread. Nothing else of the message changes.
pub open spec fn enriched(status: StatusModel, location: Option<(Seq<char>, int)>) -> StatusModel {
    match location {
        Some((file, line)) => if status.status == StatusKind::Paused && status.thread_id is Some {
            StatusModel { file: Some(file), line: Some(line), ..status }
        } else {
            status
        },
        None => status,
    }
}

/// The stamp `seq` as a JSON number.
pub open spec fn stamp_json(seq: int) -> JsonModel {
    if seq <= i64::MAX {
        JsonModel::Int(seq)
    } else {
        JsonModel::Decimal(decimal_chars(seq as nat))
    }
}

/// `members` with the member `key` added where there is a value for it.
pub open spec fn with_member(
    members: Seq<MemberModel>,
    key: Seq<char>,
    value: Option<JsonModel>,
) -> Seq<MemberModel> {
    match value {
        Some(v) => members.push(MemberModel { key, value: v }),
        None => members,
    }
}

/// The message as the interface gets it: `status` and `seq` always, and
/// `threadId`, `file` and `line` where the message has them.
pub open spec fn status_payload(s: StatusModel) -> JsonModel {
    let base = seq![
        MemberModel { key: "status"@, value: JsonModel::Str(status_word(s.status)) },
        MemberModel { key: "seq"@, value: stamp_json(s.seq) },
    ];
    let a = with_member(
        base,
        "threadId"@,
        match s.thread_id {
            Some(t) => Some(JsonModel::Int(t)),
            None => None,
        },
    );
    let b = with_member(
        a,
        "file"@,
        match s.file {
            Some(f) => Some(JsonModel::Str(f)),
            None => None,
        },
    );
    JsonModel::Object(
        with_member(
            b,
            "line"@,
            match s.line {
                Some(l) => Some(JsonModel::Int(l)),
                None => None,
            },
        ),
    )
}

/// The name of the interface event that carries a status message.
pub const STATUS_EVENT: &'static str = "debug-status";

impl StatusUpdate {
    /// The message as the interface gets it.
    pub fn to_json(&self) -> (r: Json)
        ensures
            r@ == status_payload(self@),
    {
        let stamp = if self.seq <= 9223372036854775807 {
            Json::Int(self.seq as i64)
        } else {
            Json::Decimal(decimal_text(self.seq))
        };
        let mut j = Json::object().with("status", Json::text(self.status.as_str())).with(
            "seq",
            stamp,
        );
        assert(j@->Object_0 =~= seq![
            MemberModel { key: "status"@, value: JsonModel::Str(status_word(self.status)) },
            MemberModel { key: "seq"@, value: stamp_json(self.seq as int) },
        ]);
        if let Some(t) = self.thread_id {
            j = j.with("threadId", Json::Int(t));
        }
        if let Some(f) = &self.file {
            j = j.with("file", Json::text(f.as_str()));
        }
        if let Some(l) = self.line {
            j = j.with("line", Json::Int(l));
        }
        j
    }

    /// Whether the place of the top frame is to be asked for before this
    /// message goes out: it is for a pause that names its thread.
    pub fn wants_location(&self) -> (r: bool)
        ensures
            r == (self@.status == StatusKind::Paused && self@.thread_id is Some),
    {
        self.status == StatusKind::Paused && self.thread_id.is_some()
    }

    /// Adds the top-of-stack location to a pause status, where it was
    /// obtained. The stamp, the status and the thread stay as they are.
    pub fn with_location(self, location: Option<(String, i64)>) -> (r: StatusUpdate)
        ensures
            r@ == enriched(
                self@,
                match location {
                    Some((file, line)) => Some((file@, line as int)),
                    None => None,
                },
            ),
            r@.seq == self@.seq,
            r@.status == self@.status,
            r@.thread_id == self@.thread_id,
    {
        match location {
            Some((file, line)) => {
                if self.status == StatusKind::Paused && self.thread_id.is_some() {
                    StatusUpdate {
                        status: self.status,
                        seq: self.seq,
                        thread_id: self.thread_id,
                        file: Some(file),
                        line: Some(line),
                    }
                } else {
                    self
                }
            },
            None => self,
        }
    }
}

/// What an inbound message means for the session state.
pub enum Happening {
    Initialized,
    Continued,
    Stopped { reason: Seq<char>, thread_id: int },
    Terminated,
    /// Anything that leaves the state alone.
    Other,
}

/// What an inbound message means for the session state, as read from the
/// message.
#[derive(Debug, PartialEq, Eq)]
pub enum SessionEvent {
    Initialized,
    Continued,
    Stopped { reason: String, thread_id: i64 },
    Terminated,
    /// Anything that leaves the state alone.
    Other,
}

impl View for SessionEvent {
    type V = Happening;

    open spec fn view(&self) -> Happening {
        match self {
            SessionEvent::Initialized => Happening::Initialized,
            SessionEvent::Continued => Happening::Continued,
            SessionEvent::Stopped { reason, thread_id } => Happening::Stopped {
                reason: reason@,
                thread_id: *thread_id as int,
            },
            SessionEvent::Terminated => Happening::Terminated,
            SessionEvent::Other => Happening::Other,
        }
    }
}

/// The reason that a `stopped` event gives, `unknown` where it gives none.
pub open spec fn stop_reason(body: Option<JsonModel>) -> Seq<char> {
    match body {
        Some(b) => match b.text_member("reason"@) {
            Some(r) => r,
            None => "unknown"@,
        },
        None => "unknown"@,
    }
}

/// The thread that a `stopped` event names, 1 where it names none.
pub open spec fn stop_thread(body: Option<JsonModel>) -> int {
    match body {
        Some(b) => match b.int_member("threadId"@) {
            Some(t) => t,
            None => 1,
        },
        None => 1,
    }
}

/// What the message `m` means for the session state.
pub open spec fn happening(m: DAPMessageModel) -> Happening {
    if m.message_type != MessageType::Event {
        Happening::Other
    } else {
        match m.event {
            Some(name) => if name == "initialized"@ {
                Happening::Initialized
            } else if name == "continued"@ {
                Happening::Continued
            } else if name == "stopped"@ {
                Happening::Stopped { reason: stop_reason(m.body), thread_id: stop_thread(m.body) }
            } else if name == "terminated"@ {
                Happening::Terminated
            } else {
                Happening::Other
            },
            None => Happening::Other,
        }
    }
}

/// The transition table: the state after `h` happened in state `s`.
pub open spec fn next_state(s: StateModel, h: Happening) -> StateModel {
    match h {
        Happening::Initialized => if s is NotStarted {
            StateModel::Configuring
        } else {
            s
        },
        Happening::Continued => if s is Configuring || s is Paused {
            StateModel::Running
        } else {
            s
        },
        Happening::Stopped { reason, thread_id } => if s is Running || s is Configuring {
            StateModel::Paused { reason, thread_id }
        } else {
            s
        },
        Happening::Terminated => StateModel::Terminated,
        Happening::Other => s,
    }
}

/// The state after the adapter acknowledged the end of configuration.
pub open spec fn after_configuration_done(s: StateModel) -> StateModel {
    if s is Configuring {
        StateModel::Running
    } else {
        s
    }
}

/// The status to report after `h` happened in state `s`: one for each
/// transition that changes the state, and a pause for every `stopped` event,
/// whatever the state.
pub open spec fn status_due(s: StateModel, h: Happening) -> Option<(StatusKind, Option<int>)> {
    match h {
        Happening::Initialized => if s is NotStarted {
            Some((StatusKind::Configuring, None))
        } else {
            None
        },
        Happening::Continued => if s is Configuring || s is Paused {
            Some((StatusKind::Running, None))
        } else {
            None
        },
        Happening::Stopped { reason, thread_id } => Some((StatusKind::Paused, Some(thread_id))),
        Happening::Terminated => if s is Terminated {
            None
        } else {
            Some((StatusKind::Terminated, None))
        },
        Happening::Other => None,
    }
}

/// The current thread after `h` happened: set by every `stopped` event,
/// cleared by `continued` and `terminated`.
pub open spec fn thread_after(current: Option<int>, h: Happening) -> Option<int> {
    match h {
        Happening::Stopped { reason, thread_id } => Some(thread_id),
        Happening::Continued => None,
        Happening::Terminated => None,
        _ => current,
    }
}

/// The status message that goes out where `due` is due and the counter
/// stands at `counter`: it bears the counter as its stamp. Once the counter
/// has reached its last value no message goes out any more.
pub open spec fn stamp_given(counter: int, due: Option<(StatusKind, Option<int>)>) -> Option<
    StatusModel,
> {
    match due {
        Some((status, thread_id)) => if counter < u64::MAX {
            Some(plain_status(status, counter, thread_id))
        } else {
            None
        },
        None => None,
    }
}

/// The model of an optional status message.
pub open spec fn status_view(r: Option<StatusUpdate>) -> Option<StatusModel> {
    match r {
        Some(u) => Some(u@),
        None => None,
    }
}

/// `trace` with `s` added where `s` differs from the state it ends with.
pub open spec fn visit(trace: Seq<StateModel>, s: StateModel) -> Seq<StateModel> {
    if trace.len() > 0 && trace.last() == s {
        trace
    } else {
        trace.push(s)
    }
}

/// `stamps` with the stamp of `status` added where there is a status.
pub open spec fn stamped(stamps: Seq<int>, status: Option<StatusModel>) -> Seq<int> {
    match status {
        Some(s) => stamps.push(s.seq),
        None => stamps,
    }
}

/// Why a command cannot be served.
#[derive(Debug, Clone, Copy, PartialEq, Eq, Structural)]
pub enum SessionError {
    /// A step was asked for without a thread, and no `stopped` event has
    /// named one.
    NoCurrentThread,
}

/// The state record of one session with its status counter.
pub struct DebugSessionState {
    state: DebuggerState,
    status_seq: u64,
    current_thread_id: Option<i64>,
    debugger_type: Option<AdapterKind>,
    stamps: Ghost<Seq<int>>,
    trace: Ghost<Seq<StateModel>>,
}

impl DebugSessionState {
    /// The state record.
    pub closed spec fn state(&self) -> StateModel {
        self.state@
    }

    /// The next value of the status counter.
    pub closed spec fn status_seq(&self) -> int {
        self.status_seq as int
    }

    /// The thread that the last `stopped` event named, unless a later
    /// `continued` or `terminated` cleared it.
    pub closed spec fn current_thread(&self) -> Option<int> {
        wide_view(self.current_thread_id)
    }

    /// The kind of adapter, once a launch has chosen one.
    pub closed spec fn kind(&self) -> Option<AdapterKind> {
        self.debugger_type
    }

    /// The stamps of all status messages so far, in the order of emission.
    pub closed spec fn stamps(&self) -> Seq<int> {
        self.stamps@
    }

    /// The states that the record has held so far, each change one entry.
    pub closed spec fn trace(&self) -> Seq<StateModel> {
        self.trace@
    }

    /// The invariant of a session: the stamps handed out are 0, 1, 2, ... up
    /// to the counter; the trace ends with the present state, and
    /// `Terminated` stands nowhere but at its end.
    pub closed spec fn wf(&self) -> bool {
        &&& self.stamps@.len() == self.status_seq
        &&& forall|i: int| 0 <= i < self.stamps@.len() ==> self.stamps@[i] == i
        &&& self.trace@.len() > 0
        &&& self.trace@.last() == self.state@
        &&& forall|i: int| 0 <= i < self.trace@.len() - 1 ==> !(self.trace@[i] is Terminated)
    }

    /// A session that has not started: no status emitted, no thread known.
    pub fn new() -> (s: Self)
        ensures
            s.wf(),
            s.state() == StateModel::NotStarted,
            s.status_seq() == 0,
            s.current_thread() is None,
            s.kind() is None,
            s.stamps() == Seq::<int>::empty(),
            s.trace() == seq![StateModel::NotStarted],
    {
        let ghost first = Seq::<StateModel>::empty().push(StateModel::NotStarted);
        assert(first =~= seq![StateModel::NotStarted]);
        DebugSessionState {
            state: DebuggerState::NotStarted,
            status_seq: 0,
            current_thread_id: None,
            debugger_type: None,
            stamps: Ghost(Seq::empty()),
            trace: Ghost(first),
        }
    }

    /// A copy of the state record.
    pub fn current_state(&self) -> (r: DebuggerState)
        ensures
            r@ == self.state(),
    {
        self.state.clone()
    }

    /// The next value of the status counter.
    pub fn get_status_seq(&self) -> (r: u64)
        ensures
            r == self.status_seq(),
    {
        self.status_seq
    }

    /// The current thread, if any.
    pub fn current_thread_id(&self) -> (r: Option<i64>)
        ensures
            wide_view(r) == self.current_thread(),
    {
        self.current_thread_id
    }

    /// The kind of adapter, once chosen.
    pub fn debugger_type(&self) -> (r: Option<AdapterKind>)
        ensures
            r == self.kind(),
    {
        self.debugger_type
    }

    /// Whether the session has ended.
    pub fn is_terminated(&self) -> (r: bool)
        ensures
            r == (self.state() is Terminated),
    {
        match self.state {
            DebuggerState::Terminated => true,
            _ => false,
        }
    }

    /// Records the kind of adapter that a launch has chosen.
    pub fn set_debugger_type(&mut self, kind: AdapterKind)
        requires
            old(self).wf(),
        ensures
            final(self).wf(),
            final(self).kind() == Some(kind),
            final(self).state() == old(self).state(),
            final(self).status_seq() == old(self).status_seq(),
            final(self).current_thread() == old(self).current_thread(),
            final(self).stamps() == old(self).stamps(),
            final(self).trace() == old(self).trace(),
    {
        self.debugger_type = Some(kind);
    }

    /// Stamps a status message with the next value of the counter, while
    /// the counter has one.
    fn stamp(&mut self, status: StatusKind, thread_id: Option<i64>) -> (r: Option<StatusUpdate>)
        requires
            old(self).wf(),
        ensures
            final(self).wf(),
            status_view(r) == stamp_given(
                old(self).status_seq(),
                Some((status, wide_view(thread_id))),
            ),
            final(self).status_seq() == old(self).status_seq() + (if r is Some {
                1int
            } else {
                0int
            }),
            final(self).stamps() == stamped(old(self).stamps(), status_view(r)),
            final(self).state() == old(self).state(),
            final(self).current_thread() == old(self).current_thread(),
            final(self).kind() == old(self).kind(),
            final(self).trace() == old(self).trace(),
    {
        if self.status_seq == u64::MAX {
            return None;
        }
        let seq = self.status_seq;
        self.status_seq = seq + 1;
        self.stamps = Ghost(self.stamps@.push(seq as int));
        Some(StatusUpdate { status, seq, thread_id, file: None, line: None })
    }

    /// Moves the state record to `next`.
    fn enter(&mut self, next: DebuggerState)
        requires
            old(self).wf(),
            old(self).state() is Terminated ==> next@ is Terminated,
        ensures
            final(self).wf(),
            final(self).state() == next@,
            final(self).trace() == visit(old(self).trace(), next@),
            final(self).status_seq() == old(self).status_seq(),
            final(self).stamps() == old(self).stamps(),
            final(self).current_thread() == old(self).current_thread(),
            final(self).kind() == old(self).kind(),
    {
        let ghost before = self.trace@;
        self.trace = Ghost(visit(before, next@));
        self.state = next;
    }

    /// Reads an inbound message for what it means to the session.
    pub fn read(msg: &DAPMessage) -> (r: SessionEvent)
        ensures
            r@ == happening(msg@),
    {
        if msg.message_type != MessageType::Event {
            return SessionEvent::Other;
        }
        let name = match &msg.event {
            Some(n) => n.as_str(),
            None => {
                return SessionEvent::Other;
            },
        };
        if str_eq(name, "initialized") {
            SessionEvent::Initialized
        } else if str_eq(name, "continued") {
            SessionEvent::Continued
        } else if str_eq(name, "stopped") {
            let reason = match &msg.body {
                Some(b) => match b.get_str("reason") {
                    Some(r) => String::from_str(r),
                    None => String::from_str("unknown"),
                },
                None => String::from_str("unknown"),
            };
            let thread_id = match &msg.body {
                Some(b) => match b.get_i64("threadId") {
                    Some(t) => t,
                    None => 1,
                },
                None => 1,
            };
            SessionEvent::Stopped { reason, thread_id }
        } else if str_eq(name, "terminated") {
            SessionEvent::Terminated
        } else {
            SessionEvent::Other
        }
    }

    /// Applies an inbound message to the session: the state record moves as
    /// the transition table says, the current thread is set or cleared, and
    /// the status that is due, if any, is returned with the next stamp.
    pub fn handle_dap_event(&mut self, msg: &DAPMessage) -> (r: Option<StatusUpdate>)
        requires
            old(self).wf(),
        ensures
            final(self).wf(),
            final(self).state() == next_state(old(self).state(), happening(msg@)),
            final(self).current_thread() == thread_after(
                old(self).current_thread(),
                happening(msg@),
            ),
            final(self).kind() == old(self).kind(),
            final(self).trace() == visit(old(self).trace(), final(self).state()),
            status_view(r) == stamp_given(
                old(self).status_seq(),
                status_due(old(self).state(), happening(msg@)),
            ),
            final(self).status_seq() == old(self).status_seq() + (if r is Some {
                1int
            } else {
                0int
            }),
            final(self).stamps() == stamped(old(self).stamps(), status_view(r)),
    {
        match Self::read(msg) {
            SessionEvent::Initialized => {
                if let DebuggerState::NotStarted = self.state {
                    self.enter(DebuggerState::Configuring);
                    return self.stamp(StatusKind::Configuring, None);
                }
                None
            },
            SessionEvent::Continued => {
                self.current_thread_id = None;
                let moves = match self.state {
                    DebuggerState::Configuring => true,
                    DebuggerState::Paused { .. } => true,
                    _ => false,
                };
                if moves {
                    self.enter(DebuggerState::Running);
                    return self.stamp(StatusKind::Running, None);
                }
                None
            },
            SessionEvent::Stopped { reason, thread_id } => {
                self.current_thread_id = Some(thread_id);
                let moves = match self.state {
                    DebuggerState::Running => true,
                    DebuggerState::Configuring => true,
                    _ => false,
                };
                if moves {
                    self.enter(DebuggerState::Paused { reason, thread_id });
                }
                self.stamp(StatusKind::Paused, Some(thread_id))
            },
            SessionEvent::Terminated => {
                self.current_thread_id = None;
                if self.is_terminated() {
                    return None;
                }
                self.enter(DebuggerState::Terminated);
                self.stamp(StatusKind::Terminated, None)
            },
            SessionEvent::Other => None,
        }
    }

    /// Applies the adapter's acknowledgment of `configurationDone`: from
    /// `Configuring` the session runs, and reports so; otherwise nothing
    /// changes.
    pub fn handle_configuration_done(&mut self) -> (r: Option<StatusUpdate>)
        requires
            old(self).wf(),
        ensures
            final(self).wf(),
            final(self).state() == after_configuration_done(old(self).state()),
            final(self).current_thread() == old(self).current_thread(),
            final(self).kind() == old(self).kind(),
            final(self).trace() == visit(old(self).trace(), final(self).state()),
            status_view(r) == stamp_given(
                old(self).status_seq(),
                if old(self).state() is Configuring {
                    Some((StatusKind::Running, None))
                } else {
                    None
                },
            ),
            final(self).status_seq() == old(self).status_seq() + (if r is Some {
                1int
            } else {
                0int
            }),
            final(self).stamps() == stamped(old(self).stamps(), status_view(r)),
    {
        if let DebuggerState::Configuring = self.state {
            self.enter(DebuggerState::Running);
            return self.stamp(StatusKind::Running, None);
        }
        None
    }

    /// Ends the session from this side, for an adapter that will not report
    /// its end: the state becomes `Terminated` and the status is reported,
    /// unless the session has ended already.
    pub fn terminate_locally(&mut self) -> (r: Option<StatusUpdate>)
        requires
            old(self).wf(),
        ensures
            final(self).wf(),
            final(self).state() is Terminated,
            final(self).current_thread() is None,
            final(self).kind() == old(self).kind(),
            final(self).trace() == visit(old(self).trace(), StateModel::Terminated),
            status_view(r) == stamp_given(
                old(self).status_seq(),
                if old(self).state() is Terminated {
                    None
                } else {
                    Some((StatusKind::Terminated, None))
                },
            ),
            final(self).status_seq() == old(self).status_seq() + (if r is Some {
                1int
            } else {
                0int
            }),
            final(self).stamps() == stamped(old(self).stamps(), status_view(r)),
    {
        self.current_thread_id = None;
        if self.is_terminated() {
            return None;
        }
        self.enter(DebuggerState::Terminated);
        self.stamp(StatusKind::Terminated, None)
    }

    /// The thread that a step command acts on: the one the command names,
    /// else the current thread; without either the command fails.
    pub fn resolve_thread(&self, explicit: Option<i64>) -> (r: Result<i64, SessionError>)
        ensures
            match explicit {
                Some(t) => r == Ok::<i64, SessionError>(t),
                None => match self.current_thread() {
                    Some(t) => r matches Ok(got) && got == t,
                    None => r == Err::<i64, SessionError>(SessionError::NoCurrentThread),
                },
            },
    {
        match explicit {
            Some(t) => Ok(t),
            None => match self.current_thread_id {
                Some(t) => Ok(t),
                None => Err(SessionError::NoCurrentThread),
            },
        }
    }
}

/// Stamps a status message for the interface with the next value of the
/// session's counter, while the counter has one. The state record is left
/// alone.
pub fn emit_status_update(
    session: &mut DebugSessionState,
    status: StatusKind,
    thread_id: Option<i64>,
) -> (r: Option<StatusUpdate>)
    requires
        old(session).wf(),
    ensures
        final(session).wf(),
        status_view(r) == stamp_given(
            old(session).status_seq(),
            Some((status, wide_view(thread_id))),
        ),
        final(session).status_seq() == old(session).status_seq() + (if r is Some {
            1int
        } else {
            0int
        }),
        final(session).stamps() == stamped(old(session).stamps(), status_view(r)),
        final(session).state() == old(session).state(),
        final(session).current_thread() == old(session).current_thread(),
        final(session).kind() == old(session).kind(),
        final(session).trace() == old(session).trace(),
{
    session.stamp(status, thread_id)
}

/// The stamps of a session's status messages are strictly increasing: each
/// message bears a greater stamp than every earlier one.
pub proof fn lemma_status_stamps_increase(s: DebugSessionState, i: int, j: int)
    requires
        s.wf(),
        0 <= i < j < s.stamps().len(),
    ensures
        s.stamps()[i] < s.stamps()[j],
{
}

/// No stamp is handed out twice, and every stamp is below the counter.
pub proof fn lemma_status_stamps_distinct(s: DebugSessionState, i: int, j: int)
    requires
        s.wf(),
        0 <= i < s.stamps().len(),
        0 <= j < s.stamps().len(),
        i != j,
    ensures
        s.stamps()[i] != s.stamps()[j],
        s.stamps()[i] < s.status_seq(),
{
}

/// `Terminated` is visited at most once: it stands nowhere in the trace but
/// at its end, and there only where the session has ended.
pub proof fn lemma_terminated_once(s: DebugSessionState, i: int)
    requires
        s.wf(),
        0 <= i < s.trace().len(),
        s.trace()[i] is Terminated,
    ensures
        i == s.trace().len() - 1,
        s.state() is Terminated,
{
}

/// Nothing leaves `Terminated`: no event and no acknowledgment moves the
/// state record once the session has ended.
pub proof fn lemma_terminated_is_final(s: StateModel, h: Happening)
    requires
        s is Terminated,
    ensures
        next_state(s, h) is Terminated,
        after_configuration_done(s) is Terminated,
        visit(seq![s], next_state(s, h)) == seq![s],
{
}

/// Every `stopped` event is due exactly one status, a pause that names the
/// thread of the event, whatever the state; and adding a location to it
/// changes neither the thread nor the stamp.
pub proof fn lemma_stopped_reports_pause(
    s: StateModel,
    m: DAPMessageModel,
    seq: int,
    location: Option<(Seq<char>, int)>,
)
    requires
        happening(m) is Stopped,
    ensures
        status_due(s, happening(m)) == Some((StatusKind::Paused, Some(stop_thread(m.body)))),
        seq < u64::MAX ==> stamp_given(seq, status_due(s, happening(m))) == Some(
            plain_status(StatusKind::Paused, seq, Some(stop_thread(m.body))),
        ),
        enriched(
            plain_status(StatusKind::Paused, seq, Some(stop_thread(m.body))),
            location,
        ).thread_id == Some(stop_thread(m.body)),
        enriched(plain_status(StatusKind::Paused, seq, Some(stop_thread(m.body))), location).seq
            == seq,
        enriched(
            plain_status(StatusKind::Paused, seq, Some(stop_thread(m.body))),
            location,
        ).status == StatusKind::Paused,
{
}

} // verus!
