//! The protocol client: sequence numbers and the correlation tables.
//!
//! Every outbound message is stamped with the next sequence number, which
//! starts at 1 and goes up by one with each message. A request whose response
//! is awaited is entered under its number; the receiver files a response
//! under the number of the request it answers, and only where that request is
//! awaited, so a response that answers nothing is dropped. The responses are
//! kept in a hash map by request number. Events are queued by name in the
//! order of their arrival.

use vstd::prelude::*;
use std::collections::HashMap;
use crate::message::{DAPMessage, DAPMessageModel, MessageType};
use crate::requests::{
    BreakpointInput,
    attach_arguments,
    attach_request,
    configuration_done_request,
    continue_request,
    evaluate_arguments,
    evaluate_request,
    initialize_arguments,
    initialize_request,
    launch_arguments,
    launch_request,
    next_request,
    optional_chars,
    request_model,
    set_breakpoints_arguments,
    set_breakpoints_request,
    stack_trace_arguments,
    stack_trace_request,
    step_in_request,
    step_out_request,
    terminate_arguments,
    terminate_request,
    text_items,
    thread_arguments,
};
use crate::text::str_eq;

verus! {

/// Why a message cannot be sent.
#[derive(Debug, Clone, Copy, PartialEq, Eq, Structural)]
pub enum ClientError {
    /// Every 32-bit sequence number has been used.
    SequenceExhausted,
}

/// What a poll of a table found.
#[derive(Debug, PartialEq, Eq)]
pub enum Poll {
    /// The awaited message, taken from its table.
    Ready(DAPMessage),
    /// Nothing yet, and time is left.
    Pending,
    /// The time is up.
    TimedOut,
}

/// What became of an inbound message.
#[derive(Debug, Clone, Copy, PartialEq, Eq, Structural)]
pub enum Dispatch {
    /// A response to an awaited request: filed under the request's number.
    Stored,
    /// A response that answers no awaited request: dropped without effect.
    Dropped,
    /// An event: queued under its name.
    Queued,
    /// Neither: passed over.
    Ignored,
}

/// The correlation tables as mathematical values.
pub struct Tables {
    /// The numbers of the requests whose response is awaited.
    pub awaited: Set<int>,
    /// The responses that have arrived and are not yet claimed, each under
    /// the number of the request it answers.
    pub responses: Map<int, DAPMessageModel>,
    /// For every event name, the events of that name that have arrived and
    /// are not yet claimed, oldest first.
    pub events: Map<Seq<char>, Seq<DAPMessageModel>>,
}

/// The models of `messages`, in order.
pub open spec fn models(messages: Seq<DAPMessage>) -> Seq<DAPMessageModel> {
    Seq::new(messages.len(), |i: int| messages[i]@)
}

/// Whether `k` occurs in `numbers`.
pub open spec fn has_number(numbers: Seq<i32>, k: int) -> bool {
    exists|i: int| 0 <= i < numbers.len() && numbers[i] == k
}

/// The responses of `filed`, each as its model under its number.
pub open spec fn response_models(filed: Map<i32, DAPMessage>) -> Map<int, DAPMessageModel> {
    Map::new(
        |k: int| i32::MIN <= k <= i32::MAX && filed.contains_key(k as i32),
        |k: int| filed[k as i32]@,
    )
}

/// Those of `all` that are named `name`, in order.
pub open spec fn named(all: Seq<DAPMessageModel>, name: Seq<char>) -> Seq<DAPMessageModel>
    decreases all.len(),
{
    if all.len() == 0 {
        Seq::empty()
    } else if all.last().event == Some(name) {
        named(all.drop_last(), name).push(all.last())
    } else {
        named(all.drop_last(), name)
    }
}

/// The tables that these lists stand for.
pub open spec fn tables_of(
    awaited: Seq<i32>,
    responses: Map<i32, DAPMessage>,
    events: Seq<DAPMessageModel>,
) -> Tables {
    Tables {
        awaited: Set::new(|k: int| has_number(awaited, k)),
        responses: response_models(responses),
        events: Map::total(|name: Seq<char>| named(events, name)),
    }
}

/// `m` with the sequence number `seq`.
pub open spec fn stamp(m: DAPMessageModel, seq: int) -> DAPMessageModel {
    DAPMessageModel { seq, ..m }
}

/// What becomes of the inbound message `m` with the tables `t`.
pub open spec fn dispatch_kind(t: Tables, m: DAPMessageModel) -> Dispatch {
    match m.message_type {
        MessageType::Response => if m.request_seq matches Some(k) && t.awaited.contains(k) {
            Dispatch::Stored
        } else {
            Dispatch::Dropped
        },
        MessageType::Event => if m.event is Some {
            Dispatch::Queued
        } else {
            Dispatch::Ignored
        },
        MessageType::Request => Dispatch::Ignored,
    }
}

/// The tables after the inbound message `m` was dispatched.
pub open spec fn dispatched(t: Tables, m: DAPMessageModel) -> Tables {
    match dispatch_kind(t, m) {
        Dispatch::Stored => Tables {
            awaited: t.awaited.remove(m.request_seq->Some_0),
            responses: t.responses.insert(m.request_seq->Some_0, m),
            events: t.events,
        },
        Dispatch::Queued => Tables {
            events: t.events.insert(m.event->Some_0, t.events[m.event->Some_0].push(m)),
            ..t
        },
        _ => t,
    }
}

/// Taking out an event changes nothing for other names, and takes the oldest
/// of its own name where none of that name stands before it.
proof fn lemma_named_remove(all: Seq<DAPMessageModel>, i: int, name: Seq<char>)
    requires
        0 <= i < all.len(),
    ensures
        all[i].event != Some(name) ==> named(all.remove(i), name) == named(all, name),
        all[i].event == Some(name) && (forall|j: int| 0 <= j < i ==> all[j].event != Some(name))
            ==> named(all, name).len() > 0 && named(all, name)[0] == all[i] && named(
            all.remove(i),
            name,
        ) == named(all, name).drop_first(),
    decreases all.len(),
{
    let n = all.len() - 1;
    if i == n {
        assert(all.remove(i) =~= all.drop_last());
        if all[i].event == Some(name) && (forall|j: int| 0 <= j < i ==> all[j].event != Some(name)) {
            lemma_named_none(all.drop_last(), name);
            assert(named(all, name) =~= seq![all[i]]);
            assert(named(all, name).drop_first() =~= Seq::empty());
        }
    } else {
        let shorter = all.drop_last();
        assert(all.remove(i).drop_last() =~= shorter.remove(i));
        assert(all.remove(i).last() == all.last());
        assert(shorter[i] == all[i]);
        lemma_named_remove(shorter, i, name);
        if all[i].event == Some(name) && (forall|j: int| 0 <= j < i ==> all[j].event != Some(name)) {
            assert forall|j: int| 0 <= j < i implies shorter[j].event != Some(name) by {
                assert(shorter[j] == all[j]);
            }
            if all.last().event == Some(name) {
                assert(named(shorter, name).push(all.last()).drop_first() =~= named(
                    shorter,
                    name,
                ).drop_first().push(all.last()));
            }
        }
    }
}

/// Where no event is named `name`, the queue of that name is empty.
proof fn lemma_named_none(all: Seq<DAPMessageModel>, name: Seq<char>)
    requires
        forall|j: int| 0 <= j < all.len() ==> all[j].event != Some(name),
    ensures
        named(all, name) == Seq::<DAPMessageModel>::empty(),
    decreases all.len(),
{
    if all.len() > 0 {
        let shorter = all.drop_last();
        assert forall|j: int| 0 <= j < shorter.len() implies shorter[j].event != Some(name) by {
            assert(shorter[j] == all[j]);
        }
        lemma_named_none(shorter, name);
    }
}

/// The client's side of one session.
pub struct DAPClient {
    next_seq: i64,
    awaited: Vec<i32>,
    responses: HashMap<i32, DAPMessage>,
    events: Vec<DAPMessage>,
    sent: Ghost<Seq<int>>,
}

impl DAPClient {
    /// The sequence number that the next outbound message gets.
    pub closed spec fn upcoming(&self) -> int {
        self.next_seq as int
    }

    /// The sequence numbers of all messages sent so far, in sending order.
    pub closed spec fn sent(&self) -> Seq<int> {
        self.sent@
    }

    /// The correlation tables.
    pub closed spec fn tables(&self) -> Tables {
        tables_of(self.awaited@, self.responses@, models(self.events@))
    }

    /// The invariant of a client: the numbers sent are 1, 2, 3, ... up to the
    /// next one, every awaited number is among them, and every response is
    /// filed under the number of the request that it answers.
    pub closed spec fn wf(&self) -> bool {
        &&& 1 <= self.next_seq <= i32::MAX + 1
        &&& self.sent@.len() == self.next_seq - 1
        &&& forall|i: int| 0 <= i < self.sent@.len() ==> self.sent@[i] == i + 1
        &&& forall|i: int|
            0 <= i < self.awaited@.len() ==> 1 <= #[trigger] self.awaited@[i] < self.next_seq
        &&& forall|k: i32| #[trigger]
            self.responses@.contains_key(k) ==> self.responses@[k]@.request_seq == Some(k as int)
    }

    /// A client that has sent nothing: the first number is 1 and the tables
    /// are empty.
    pub fn new() -> (c: Self)
        ensures
            c.wf(),
            c.upcoming() == 1,
            c.sent() == Seq::<int>::empty(),
            c.tables().awaited == Set::<int>::empty(),
            c.tables().responses == Map::<int, DAPMessageModel>::empty(),
            c.tables().events == Map::<Seq<char>, Seq<DAPMessageModel>>::total(
                |name: Seq<char>| Seq::<DAPMessageModel>::empty(),
            ),
    {
        let c = DAPClient {
            next_seq: 1,
            awaited: Vec::new(),
            responses: HashMap::new(),
            events: Vec::new(),
            sent: Ghost(Seq::empty()),
        };
        proof {
            assert(c.tables().awaited =~= Set::<int>::empty());
            assert(c.tables().responses =~= Map::<int, DAPMessageModel>::empty());
            assert(c.tables().events =~= Map::<Seq<char>, Seq<DAPMessageModel>>::total(
                |name: Seq<char>| Seq::<DAPMessageModel>::empty(),
            ));
        }
        c
    }

    /// The sequence number that the next outbound message gets, while one is
    /// left.
    pub fn next_sequence(&self) -> (r: Option<i32>)
        requires
            self.wf(),
        ensures
            match r {
                Some(n) => n == self.upcoming(),
                None => self.upcoming() > i32::MAX,
            },
    {
        if self.next_seq <= 2147483647 {
            Some(self.next_seq as i32)
        } else {
            None
        }
    }

    /// Stamps an outbound message with the next sequence number and returns
    /// it, ready to be written. No response is awaited for it.
    pub fn send_message(&mut self, message: DAPMessage) -> (r: Result<DAPMessage, ClientError>)
        requires
            old(self).wf(),
        ensures
            sent_as(*old(self), *final(self), r, message@, false),
    {
        if self.next_seq > 2147483647 {
            return Err(ClientError::SequenceExhausted);
        }
        let seq = self.next_seq as i32;
        self.next_seq = self.next_seq + 1;
        self.sent = Ghost(self.sent@.push(seq as int));
        let mut out = message;
        out.seq = seq;
        Ok(out)
    }

    /// Stamps a request and enters it as awaited.
    pub fn send_request(&mut self, message: DAPMessage) -> (r: Result<DAPMessage, ClientError>)
        requires
            old(self).wf(),
        ensures
            sent_as(*old(self), *final(self), r, message@, true),
    {
        match self.send_message(message) {
            Ok(out) => {
                let ghost before = self.awaited@;
                let ghost mid = self.tables();
                self.awaited.push(out.seq);
                proof {
                    let k = out.seq as int;
                    assert forall|x: int| has_number(self.awaited@, x) == (has_number(before, x)
                        || x == k) by {
                        if has_number(before, x) {
                            let i = choose|i: int| 0 <= i < before.len() && before[i] == x;
                            assert(self.awaited@[i] == x);
                        }
                        if x == k {
                            assert(self.awaited@[before.len() as int] == x);
                        }
                    }
                    assert forall|x: int| self.tables().awaited.contains(x) == mid.awaited.insert(
                        k,
                    ).contains(x) by {
                        assert(self.tables().awaited.contains(x) == has_number(self.awaited@, x));
                        assert(mid.awaited.contains(x) == has_number(before, x));
                    }
                    assert(self.tables().awaited =~= mid.awaited.insert(k));
                    assert forall|i: int| 0 <= i < self.awaited@.len() implies 1
                        <= #[trigger] self.awaited@[i] < self.next_seq by {
                        if i < before.len() {
                            assert(self.awaited@[i] == before[i]);
                        }
                    }
                }
                Ok(out)
            },
            Err(e) => Err(e),
        }
    }

    /// Takes `k` out of the awaited numbers.
    fn forget(&mut self, k: i32)
        requires
            old(self).wf(),
        ensures
            final(self).wf(),
            final(self).upcoming() == old(self).upcoming(),
            final(self).sent() == old(self).sent(),
            final(self).tables() == (Tables {
                awaited: old(self).tables().awaited.remove(k as int),
                ..old(self).tables()
            }),
    {
        let ghost before = self.awaited@;
        let mut i: usize = 0;
        while i < self.awaited.len()
            invariant
                i <= self.awaited.len(),
                self.wf(),
                self.next_seq == old(self).next_seq,
                self.sent == old(self).sent,
                self.responses == old(self).responses,
                self.events == old(self).events,
                forall|j: int| 0 <= j < i ==> self.awaited@[j] != k,
                forall|x: int| x != k ==> has_number(self.awaited@, x) == has_number(before, x),
            decreases self.awaited.len() - i,
        {
            if self.awaited[i] == k {
                let ghost prior = self.awaited@;
                self.awaited.remove(i);
                proof {
                    assert forall|x: int| x != k implies has_number(self.awaited@, x) == has_number(
                        prior,
                        x,
                    ) by {
                        if has_number(prior, x) {
                            let j = choose|j: int| 0 <= j < prior.len() && prior[j] == x;
                            if j < i {
                                assert(self.awaited@[j] == x);
                            } else {
                                assert(self.awaited@[j - 1] == x);
                            }
                        }
                        if has_number(self.awaited@, x) {
                            let j = choose|j: int|
                                0 <= j < self.awaited@.len() && self.awaited@[j] == x;
                            if j < i {
                                assert(prior[j] == x);
                            } else {
                                assert(prior[j + 1] == x);
                            }
                        }
                    }
                    assert forall|j: int| 0 <= j < self.awaited@.len() implies 1
                        <= #[trigger] self.awaited@[j] < self.next_seq by {
                        if j < i {
                            assert(self.awaited@[j] == prior[j]);
                        } else {
                            assert(self.awaited@[j] == prior[j + 1]);
                        }
                    }
                }
            } else {
                i = i + 1;
            }
        }
        proof {
            assert(self.tables().awaited =~= old(self).tables().awaited.remove(k as int));
        }
    }

    /// Takes the response that is filed under `k` out of the table.
    fn claim(&mut self, k: i32) -> (r: Option<DAPMessage>)
        requires
            old(self).wf(),
        ensures
            final(self).wf(),
            final(self).upcoming() == old(self).upcoming(),
            final(self).sent() == old(self).sent(),
            final(self).tables() == (Tables {
                responses: old(self).tables().responses.remove(k as int),
                ..old(self).tables()
            }),
            match r {
                Some(m) => old(self).tables().responses.contains_key(k as int) && old(
                    self,
                ).tables().responses[k as int] == m@ && m@.request_seq == Some(k as int),
                None => !old(self).tables().responses.contains_key(k as int),
            },
    {
        broadcast use vstd::std_specs::hash::group_hash_axioms;

        let r = self.responses.remove(&k);
        proof {
            assert(self.responses@ == old(self).responses@.remove(k));
            assert(self.tables().responses =~= old(self).tables().responses.remove(k as int));
        }
        r
    }

    /// Dispatches an inbound message: a response to an awaited request is
    /// filed under that request's number, which is then no longer awaited; any
    /// other response is dropped without effect; an event is queued under its
    /// name.
    pub fn dispatch(&mut self, msg: DAPMessage) -> (r: Dispatch)
        requires
            old(self).wf(),
        ensures
            final(self).wf(),
            final(self).upcoming() == old(self).upcoming(),
            final(self).sent() == old(self).sent(),
            r == dispatch_kind(old(self).tables(), msg@),
            final(self).tables() == dispatched(old(self).tables(), msg@),
    {
        broadcast use vstd::std_specs::hash::group_hash_axioms;


        match msg.message_type {
            MessageType::Response => {
                let k = match msg.request_seq {
                    Some(k) => k,
                    None => {
                        return Dispatch::Dropped;
                    },
                };
                if !self.is_awaited(k) {
                    return Dispatch::Dropped;
                }
                self.forget(k);
                let ghost m = msg@;
                self.responses.insert(k, msg);
                proof {
                    assert(self.tables().responses =~= old(self).tables().responses.insert(
                        k as int,
                        m,
                    ));
                }
                Dispatch::Stored
            },
            MessageType::Event => {
                if msg.event.is_none() {
                    return Dispatch::Ignored;
                }
                let ghost prior = models(self.events@);
                let ghost m = msg@;
                self.events.push(msg);
                proof {
                    let now = models(self.events@);
                    assert(now =~= prior.push(m));
                    assert(now.drop_last() =~= prior);
                    let name = m.event->Some_0;
                    assert(self.tables().events =~= old(self).tables().events.insert(
                        name,
                        old(self).tables().events[name].push(m),
                    ));
                }
                Dispatch::Queued
            },
            MessageType::Request => Dispatch::Ignored,
        }
    }

    /// Whether a response to request `k` is awaited.
    pub fn is_awaited(&self, k: i32) -> (r: bool)
        requires
            self.wf(),
        ensures
            r == self.tables().awaited.contains(k as int),
    {
        let mut i: usize = 0;
        while i < self.awaited.len()
            invariant
                i <= self.awaited.len(),
                forall|j: int| 0 <= j < i ==> self.awaited@[j] != k,
            decreases self.awaited.len() - i,
        {
            if self.awaited[i] == k {
                return true;
            }
            i = i + 1;
        }
        false
    }

    /// Polls for the response to request `seq`. While time is left, the
    /// response is taken from the table where it has arrived. Once the time is
    /// up the request has failed: it is no longer awaited, and a response that
    /// has arrived for it is discarded.
    pub fn wait_for_response(&mut self, seq: i32, elapsed_ms: u64, timeout_ms: u64) -> (r: Poll)
        requires
            old(self).wf(),
        ensures
            final(self).wf(),
            final(self).upcoming() == old(self).upcoming(),
            final(self).sent() == old(self).sent(),
            response_poll(
                old(self).tables(),
                seq as int,
                elapsed_ms < timeout_ms,
                r,
                final(self).tables(),
            ),
            r matches Poll::Ready(m) ==> m@.request_seq == Some(seq as int),
    {
        if elapsed_ms < timeout_ms {
            match self.claim(seq) {
                Some(m) => Poll::Ready(m),
                None => {
                    proof {
                        assert(self.tables().responses =~= old(self).tables().responses);
                    }
                    Poll::Pending
                },
            }
        } else {
            self.forget(seq);
            let _ = self.claim(seq);
            Poll::TimedOut
        }
    }

    /// Polls for an event named `name`. While time is left, the oldest such
    /// event is taken from its queue where there is one.
    pub fn wait_for_event(&mut self, name: &str, elapsed_ms: u64, timeout_ms: u64) -> (r: Poll)
        requires
            old(self).wf(),
        ensures
            final(self).wf(),
            final(self).upcoming() == old(self).upcoming(),
            final(self).sent() == old(self).sent(),
            event_poll(old(self).tables(), name@, elapsed_ms < timeout_ms, r, final(self).tables()),
    {
        if elapsed_ms >= timeout_ms {
            return Poll::TimedOut;
        }
        let mut i: usize = 0;
        while i < self.events.len()
            invariant
                i <= self.events.len(),
                self.wf(),
                elapsed_ms < timeout_ms,
                *self == *old(self),
                forall|j: int|
                    0 <= j < i ==> (#[trigger] models(self.events@)[j]).event != Some(name@),
            decreases self.events.len() - i,
        {
            let hit = match &self.events[i].event {
                Some(n) => str_eq(n.as_str(), name),
                None => false,
            };
            if hit {
                let ghost prior = models(self.events@);
                let taken = self.events.remove(i);
                proof {
                    let now = models(self.events@);
                    assert(now =~= prior.remove(i as int));
                    assert(prior[i as int] == taken@);
                    lemma_named_remove(prior, i as int, name@);
                    assert forall|other: Seq<char>| other != name@ implies named(now, other)
                        == named(prior, other) by {
                        lemma_named_remove(prior, i as int, other);
                    }
                    assert(prior == models(old(self).events@));
                    assert(old(self).tables().events[name@] == named(prior, name@));
                    let goal = old(self).tables().events.insert(
                        name@,
                        old(self).tables().events[name@].drop_first(),
                    );
                    assert forall|other: Seq<char>| self.tables().events[other] == goal[other] by {
                        assert(self.tables().events[other] == named(now, other));
                        assert(old(self).tables().events[other] == named(prior, other));
                        if other != name@ {
                            lemma_named_remove(prior, i as int, other);
                        }
                    }
                    assert(self.tables().events =~= goal);
                }
                return Poll::Ready(taken);
            }
            i = i + 1;
        }
        proof {
            lemma_named_none(models(self.events@), name@);
        }
        Poll::Pending
    }

    /// Sends `initialize` and awaits its response.
    pub fn initialize(&mut self) -> (r: Result<DAPMessage, ClientError>)
        requires
            old(self).wf(),
        ensures
            sent_as(
                *old(self),
                *final(self),
                r,
                request_model("initialize"@, initialize_arguments()),
                true,
            ),
    {
        self.send_request(initialize_request())
    }

    /// Sends `attach`. The adapter defers its response, so none is awaited.
    pub fn attach(&mut self, host: &str, port: u16) -> (r: Result<DAPMessage, ClientError>)
        requires
            old(self).wf(),
        ensures
            sent_as(
                *old(self),
                *final(self),
                r,
                request_model("attach"@, attach_arguments(host@, port as int)),
                false,
            ),
    {
        self.send_message(attach_request(host, port))
    }

    /// Sends `launch` and awaits its response.
    pub fn launch(&mut self, program: &str, args: &Vec<String>, cwd: &str, stop_on_entry: bool) -> (r:
        Result<DAPMessage, ClientError>)
        requires
            old(self).wf(),
        ensures
            sent_as(
                *old(self),
                *final(self),
                r,
                request_model(
                    "launch"@,
                    launch_arguments(program@, text_items(args@), cwd@, stop_on_entry),
                ),
                true,
            ),
    {
        self.send_request(launch_request(program, args, cwd, stop_on_entry))
    }

    /// Sends `configurationDone` and awaits its response.
    pub fn configuration_done(&mut self) -> (r: Result<DAPMessage, ClientError>)
        requires
            old(self).wf(),
        ensures
            sent_as(
                *old(self),
                *final(self),
                r,
                request_model("configurationDone"@, crate::json::JsonModel::Object(Seq::empty())),
                true,
            ),
    {
        self.send_request(configuration_done_request())
    }

    /// Sends `setBreakpoints` for one source and awaits its response.
    pub fn set_breakpoints(&mut self, file_path: &str, breakpoints: &Vec<BreakpointInput>) -> (r:
        Result<DAPMessage, ClientError>)
        requires
            old(self).wf(),
        ensures
            sent_as(
                *old(self),
                *final(self),
                r,
                request_model(
                    "setBreakpoints"@,
                    set_breakpoints_arguments(file_path@, breakpoints@),
                ),
                true,
            ),
    {
        self.send_request(set_breakpoints_request(file_path, breakpoints))
    }

    /// Sends `stackTrace` for the top frame of a thread and awaits its
    /// response.
    pub fn stack_trace(&mut self, thread_id: i64) -> (r: Result<DAPMessage, ClientError>)
        requires
            old(self).wf(),
        ensures
            sent_as(
                *old(self),
                *final(self),
                r,
                request_model("stackTrace"@, stack_trace_arguments(thread_id as int)),
                true,
            ),
    {
        self.send_request(stack_trace_request(thread_id))
    }

    /// Sends `continue` and awaits its response.
    pub fn continue_execution(&mut self, thread_id: i64) -> (r: Result<DAPMessage, ClientError>)
        requires
            old(self).wf(),
        ensures
            sent_as(
                *old(self),
                *final(self),
                r,
                request_model("continue"@, thread_arguments(thread_id as int, None)),
                true,
            ),
    {
        self.send_request(continue_request(thread_id))
    }

    /// Sends `stepIn` and awaits its response.
    pub fn step_in(&mut self, thread_id: i64, granularity: Option<&str>) -> (r: Result<
        DAPMessage,
        ClientError,
    >)
        requires
            old(self).wf(),
        ensures
            sent_as(
                *old(self),
                *final(self),
                r,
                request_model(
                    "stepIn"@,
                    thread_arguments(thread_id as int, optional_chars(granularity)),
                ),
                true,
            ),
    {
        self.send_request(step_in_request(thread_id, granularity))
    }

    /// Sends `next`, which steps over, and awaits its response.
    pub fn next(&mut self, thread_id: i64, granularity: Option<&str>) -> (r: Result<
        DAPMessage,
        ClientError,
    >)
        requires
            old(self).wf(),
        ensures
            sent_as(
                *old(self),
                *final(self),
                r,
                request_model(
                    "next"@,
                    thread_arguments(thread_id as int, optional_chars(granularity)),
                ),
                true,
            ),
    {
        self.send_request(next_request(thread_id, granularity))
    }

    /// Sends `stepOut` and awaits its response.
    pub fn step_out(&mut self, thread_id: i64, granularity: Option<&str>) -> (r: Result<
        DAPMessage,
        ClientError,
    >)
        requires
            old(self).wf(),
        ensures
            sent_as(
                *old(self),
                *final(self),
                r,
                request_model(
                    "stepOut"@,
                    thread_arguments(thread_id as int, optional_chars(granularity)),
                ),
                true,
            ),
    {
        self.send_request(step_out_request(thread_id, granularity))
    }

    /// Sends `evaluate` and awaits its response.
    pub fn evaluate(&mut self, expression: &str, frame_id: Option<i32>) -> (r: Result<
        DAPMessage,
        ClientError,
    >)
        requires
            old(self).wf(),
        ensures
            sent_as(
                *old(self),
                *final(self),
                r,
                request_model(
                    "evaluate"@,
                    evaluate_arguments(expression@, crate::message::int_view(frame_id)),
                ),
                true,
            ),
    {
        self.send_request(evaluate_request(expression, frame_id))
    }

    /// Sends `terminate` and awaits its response.
    pub fn terminate(&mut self) -> (r: Result<DAPMessage, ClientError>)
        requires
            old(self).wf(),
        ensures
            sent_as(
                *old(self),
                *final(self),
                r,
                request_model("terminate"@, terminate_arguments()),
                true,
            ),
    {
        self.send_request(terminate_request())
    }
}

/// What sending `request` does to a client: while a number is left, the
/// message goes out with the next number, which is then used up, and where a
/// response is awaited the number is entered; otherwise nothing changes.
pub open spec fn sent_as(
    pre: DAPClient,
    post: DAPClient,
    r: Result<DAPMessage, ClientError>,
    request: DAPMessageModel,
    awaits: bool,
) -> bool {
    &&& post.wf()
    &&& match r {
        Ok(m) => {
            &&& pre.upcoming() <= i32::MAX
            &&& m@ == stamp(request, pre.upcoming())
            &&& post.upcoming() == pre.upcoming() + 1
            &&& post.sent() == pre.sent().push(pre.upcoming())
            &&& post.tables() == if awaits {
                Tables { awaited: pre.tables().awaited.insert(pre.upcoming()), ..pre.tables() }
            } else {
                pre.tables()
            }
        },
        Err(e) => {
            &&& e == ClientError::SequenceExhausted
            &&& pre.upcoming() > i32::MAX
            &&& post.upcoming() == pre.upcoming()
            &&& post.sent() == pre.sent()
            &&& post.tables() == pre.tables()
        },
    }
}

/// What a poll for the response to request `k` does.
pub open spec fn response_poll(pre: Tables, k: int, in_time: bool, r: Poll, post: Tables) -> bool {
    if in_time {
        if pre.responses.contains_key(k) {
            &&& r matches Poll::Ready(m)
            &&& m@ == pre.responses[k]
            &&& post == Tables { responses: pre.responses.remove(k), ..pre }
        } else {
            r is Pending && post == pre
        }
    } else {
        &&& r is TimedOut
        &&& post == Tables {
            awaited: pre.awaited.remove(k),
            responses: pre.responses.remove(k),
            ..pre
        }
    }
}

/// What a poll for an event named `name` does.
pub open spec fn event_poll(pre: Tables, name: Seq<char>, in_time: bool, r: Poll, post: Tables) -> bool {
    if !in_time {
        r is TimedOut && post == pre
    } else if pre.events[name].len() > 0 {
        &&& r matches Poll::Ready(m)
        &&& m@ == pre.events[name][0]
        &&& post == Tables { events: pre.events.insert(name, pre.events[name].drop_first()), ..pre }
    } else {
        r is Pending && post == pre
    }
}

/// The sequence numbers of the messages sent are strictly increasing, and
/// each is one greater than the one before it.
pub proof fn lemma_sent_increases(c: DAPClient, i: int, j: int)
    requires
        c.wf(),
        0 <= i < j < c.sent().len(),
    ensures
        c.sent()[i] < c.sent()[j],
        c.sent()[i + 1] == c.sent()[i] + 1,
        c.sent()[j] < c.upcoming(),
{
}

/// An awaited number is the number of exactly one message that was sent.
pub proof fn lemma_awaited_was_sent(c: DAPClient, k: int)
    requires
        c.wf(),
        c.tables().awaited.contains(k),
    ensures
        1 <= k < c.upcoming(),
        c.sent()[k - 1] == k,
        forall|i: int| 0 <= i < c.sent().len() && c.sent()[i] == k ==> i == k - 1,
{
    let i = choose|i: int| 0 <= i < c.awaited@.len() && c.awaited@[i] == k;
    assert(1 <= c.awaited@[i] < c.next_seq);
}

/// A response that is filed under a number answers the request of that
/// number.
pub proof fn lemma_response_answers_request(c: DAPClient, k: int)
    requires
        c.wf(),
        c.tables().responses.contains_key(k),
    ensures
        c.tables().responses[k].request_seq == Some(k),
{
    assert(c.responses@.contains_key(k as i32));
}

/// A response is filed only where exactly one sent request bears the number
/// that it answers; any other response leaves the client as it was.
pub proof fn lemma_response_matches_one_request(c: DAPClient, m: DAPMessageModel)
    requires
        c.wf(),
        m.message_type == MessageType::Response,
    ensures
        dispatch_kind(c.tables(), m) == Dispatch::Stored ==> (m.request_seq matches Some(k) && 0 <= k
            - 1 < c.sent().len() && c.sent()[k - 1] == k && forall|i: int|
            0 <= i < c.sent().len() && c.sent()[i] == k ==> i == k - 1),
        dispatch_kind(c.tables(), m) != Dispatch::Stored ==> dispatch_kind(c.tables(), m)
            == Dispatch::Dropped && dispatched(c.tables(), m) == c.tables(),
{
    if dispatch_kind(c.tables(), m) == Dispatch::Stored {
        lemma_awaited_was_sent(c, m.request_seq->Some_0);
    }
}

} // verus!
