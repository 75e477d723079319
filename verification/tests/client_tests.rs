use dap_session::client::{ClientError, DAPClient, Dispatch, Poll};
use dap_session::json::Json;
use dap_session::message::{DAPMessage, MessageType};
use dap_session::requests::{
    attach_request, configuration_done_request, continue_request, evaluate_request, file_name,
    initialize_request, launch_request, next_request, set_breakpoints_request, stack_trace_request,
    step_in_request, step_out_request, terminate_request, BreakpointInput, Command,
};
use dap_session::wire::{json_to_text, parse_json};

fn response_to(request_seq: Option<i32>, command: &str) -> DAPMessage {
    DAPMessage {
        seq: 100,
        message_type: MessageType::Response,
        command: Some(command.to_string()),
        request_seq,
        success: Some(true),
        body: Some(Json::Object(vec![])),
        event: None,
        arguments: None,
    }
}

fn event_called(name: Option<&str>, seq: i32) -> DAPMessage {
    DAPMessage {
        seq,
        message_type: MessageType::Event,
        command: None,
        request_seq: None,
        success: None,
        body: None,
        event: name.map(|n| n.to_string()),
        arguments: None,
    }
}

fn arguments_text(m: &DAPMessage) -> String {
    json_to_text(m.arguments.as_ref().expect("a request has arguments"))
}

fn same_json(m: &DAPMessage, text: &str) {
    assert_eq!(m.arguments, parse_json(text), "{}", text);
}

#[test]
fn first_sequence_number_is_one() {
    let mut c = DAPClient::new();
    assert_eq!(c.next_sequence(), Some(1));
    let sent = c.initialize().unwrap();
    assert_eq!(sent.seq, 1);
    assert_eq!(c.next_sequence(), Some(2));
}

#[test]
fn sequence_numbers_go_up_by_one() {
    let mut c = DAPClient::new();
    let mut seqs = Vec::new();
    seqs.push(c.initialize().unwrap().seq);
    seqs.push(c.attach("127.0.0.1", 5678).unwrap().seq);
    seqs.push(c.set_breakpoints("/a.py", &vec![BreakpointInput { line: 25 }]).unwrap().seq);
    seqs.push(c.configuration_done().unwrap().seq);
    seqs.push(c.stack_trace(1).unwrap().seq);
    seqs.push(c.continue_execution(1).unwrap().seq);
    seqs.push(c.next(1, None).unwrap().seq);
    seqs.push(c.step_in(1, Some("line")).unwrap().seq);
    seqs.push(c.step_out(1, None).unwrap().seq);
    seqs.push(c.evaluate("x", Some(3)).unwrap().seq);
    seqs.push(c.launch("/bin/p", &vec![], "/bin", false).unwrap().seq);
    seqs.push(c.terminate().unwrap().seq);
    assert_eq!(seqs, (1..=12).collect::<Vec<i32>>());
}

#[test]
fn sending_stamps_the_message_and_keeps_the_rest() {
    let mut c = DAPClient::new();
    c.initialize().unwrap();
    let unsent = continue_request(4);
    assert_eq!(unsent.seq, -1);
    let sent = c.send_message(unsent.clone()).unwrap();
    assert_eq!(sent, DAPMessage { seq: 2, ..unsent });
}

#[test]
fn two_commands_in_a_row_differ_by_one() {
    let mut c = DAPClient::new();
    c.initialize().unwrap();
    let first = c.continue_execution(1).unwrap();
    let second = c.evaluate("a + b", None).unwrap();
    assert_eq!(second.seq - first.seq, 1);
    assert_eq!(first.command.as_deref(), Some("continue"));
    assert_eq!(second.command.as_deref(), Some("evaluate"));
}

#[test]
fn requests_are_awaited_and_attach_is_not() {
    let mut c = DAPClient::new();
    let init = c.initialize().unwrap();
    let attach = c.attach("127.0.0.1", 5678).unwrap();
    assert!(c.is_awaited(init.seq));
    assert!(!c.is_awaited(attach.seq));
    assert!(!c.is_awaited(99));
}

#[test]
fn response_to_awaited_request_is_stored_once() {
    let mut c = DAPClient::new();
    let sent = c.initialize().unwrap();
    let response = response_to(Some(sent.seq), "initialize");
    assert_eq!(c.dispatch(response.clone()), Dispatch::Stored);
    assert!(!c.is_awaited(sent.seq));
    assert_eq!(c.dispatch(response.clone()), Dispatch::Dropped);
    assert_eq!(c.wait_for_response(sent.seq, 0, 10000), Poll::Ready(response));
    assert_eq!(c.wait_for_response(sent.seq, 50, 10000), Poll::Pending);
}

#[test]
fn response_that_answers_nothing_is_dropped() {
    let mut c = DAPClient::new();
    let sent = c.initialize().unwrap();
    assert_eq!(c.dispatch(response_to(Some(42), "initialize")), Dispatch::Dropped);
    assert_eq!(c.dispatch(response_to(None, "initialize")), Dispatch::Dropped);
    assert_eq!(c.dispatch(response_to(Some(0), "initialize")), Dispatch::Dropped);
    assert!(c.is_awaited(sent.seq));
    assert_eq!(c.wait_for_response(42, 0, 10000), Poll::Pending);
    assert_eq!(c.wait_for_response(sent.seq, 0, 10000), Poll::Pending);
    assert_eq!(c.next_sequence(), Some(2));
}

#[test]
fn deferred_attach_response_is_dropped() {
    let mut c = DAPClient::new();
    c.initialize().unwrap();
    let attach = c.attach("127.0.0.1", 5678).unwrap();
    assert_eq!(c.dispatch(response_to(Some(attach.seq), "attach")), Dispatch::Dropped);
}

#[test]
fn responses_are_claimed_by_number() {
    let mut c = DAPClient::new();
    let a = c.stack_trace(1).unwrap();
    let b = c.continue_execution(1).unwrap();
    let to_b = response_to(Some(b.seq), "continue");
    let to_a = response_to(Some(a.seq), "stackTrace");
    assert_eq!(c.dispatch(to_b.clone()), Dispatch::Stored);
    assert_eq!(c.dispatch(to_a.clone()), Dispatch::Stored);
    assert_eq!(c.wait_for_response(a.seq, 0, 10000), Poll::Ready(to_a));
    assert_eq!(c.wait_for_response(b.seq, 0, 10000), Poll::Ready(to_b));
}

#[test]
fn wait_for_response_times_out_and_abandons_the_request() {
    let mut c = DAPClient::new();
    let sent = c.evaluate("x", None).unwrap();
    assert_eq!(c.wait_for_response(sent.seq, 9999, 10000), Poll::Pending);
    assert!(c.is_awaited(sent.seq));
    assert_eq!(c.wait_for_response(sent.seq, 10000, 10000), Poll::TimedOut);
    assert!(!c.is_awaited(sent.seq));
    assert_eq!(c.dispatch(response_to(Some(sent.seq), "evaluate")), Dispatch::Dropped);
    assert_eq!(c.wait_for_response(sent.seq, 0, 10000), Poll::Pending);
}

#[test]
fn response_that_arrived_is_discarded_at_time_out() {
    let mut c = DAPClient::new();
    let sent = c.evaluate("x", None).unwrap();
    assert_eq!(c.dispatch(response_to(Some(sent.seq), "evaluate")), Dispatch::Stored);
    assert_eq!(c.wait_for_response(sent.seq, 20000, 10000), Poll::TimedOut);
    assert_eq!(c.wait_for_response(sent.seq, 0, 10000), Poll::Pending);
}

#[test]
fn events_are_queued_by_name_in_arrival_order() {
    let mut c = DAPClient::new();
    assert_eq!(c.dispatch(event_called(Some("stopped"), 1)), Dispatch::Queued);
    assert_eq!(c.dispatch(event_called(Some("output"), 2)), Dispatch::Queued);
    assert_eq!(c.dispatch(event_called(Some("stopped"), 3)), Dispatch::Queued);
    assert_eq!(c.dispatch(event_called(None, 4)), Dispatch::Ignored);
    assert_eq!(c.wait_for_event("terminated", 0, 1000), Poll::Pending);
    assert_eq!(c.wait_for_event("stopped", 0, 1000), Poll::Ready(event_called(Some("stopped"), 1)));
    assert_eq!(c.wait_for_event("stopped", 0, 1000), Poll::Ready(event_called(Some("stopped"), 3)));
    assert_eq!(c.wait_for_event("stopped", 0, 1000), Poll::Pending);
    assert_eq!(c.wait_for_event("output", 1000, 1000), Poll::TimedOut);
    assert_eq!(c.wait_for_event("output", 999, 1000), Poll::Ready(event_called(Some("output"), 2)));
}

#[test]
fn inbound_requests_are_ignored() {
    let mut c = DAPClient::new();
    let mut m = event_called(Some("stopped"), 1);
    m.message_type = MessageType::Request;
    m.request_seq = Some(1);
    assert_eq!(c.dispatch(m), Dispatch::Ignored);
    assert_eq!(c.wait_for_event("stopped", 0, 1000), Poll::Pending);
}

#[test]
fn client_error_is_distinct() {
    assert_eq!(ClientError::SequenceExhausted, ClientError::SequenceExhausted);
}

#[test]
fn initialize_states_the_client() {
    let m = initialize_request();
    assert_eq!(m.seq, -1);
    assert_eq!(m.message_type, MessageType::Request);
    assert_eq!(m.command.as_deref(), Some("initialize"));
    assert_eq!(m.request_seq, None);
    assert_eq!(m.success, None);
    assert_eq!(m.body, None);
    assert_eq!(m.event, None);
    assert_eq!(
        arguments_text(&m),
        r#"{"adapterID":"python","clientID":"dap_test_client","clientName":"DAP Test","columnsStartAt1":true,"linesStartAt1":true,"pathFormat":"path","supportsEvaluateForHovers":true,"supportsVariableType":true}"#
    );
}

#[test]
fn attach_names_host_and_port() {
    let m = attach_request("127.0.0.1", 5678);
    assert_eq!(m.command.as_deref(), Some("attach"));
    same_json(&m, r#"{"host":"127.0.0.1","port":5678}"#);
}

#[test]
fn launch_names_program_and_directory() {
    let m = launch_request("/work/target/debug/app", &vec!["-v".to_string()], "/work", true);
    assert_eq!(m.command.as_deref(), Some("launch"));
    assert_eq!(
        arguments_text(&m),
        r#"{"args":["-v"],"cwd":"/work","program":"/work/target/debug/app","stopOnEntry":true}"#
    );
    let m = launch_request("/p", &vec![], ".", false);
    assert_eq!(arguments_text(&m), r#"{"args":[],"cwd":".","program":"/p","stopOnEntry":false}"#);
}

#[test]
fn set_breakpoints_names_source_and_lines() {
    let m = set_breakpoints_request(
        "/a.py",
        &vec![BreakpointInput { line: 25 }, BreakpointInput { line: 3 }],
    );
    assert_eq!(m.command.as_deref(), Some("setBreakpoints"));
    assert_eq!(
        arguments_text(&m),
        r#"{"breakpoints":[{"line":25},{"line":3}],"source":{"name":"a.py","path":"/a.py"},"sourceModified":false}"#
    );
    let m = set_breakpoints_request("main.rs", &vec![]);
    assert_eq!(
        arguments_text(&m),
        r#"{"breakpoints":[],"source":{"name":"main.rs","path":"main.rs"},"sourceModified":false}"#
    );
}

#[test]
fn file_name_is_what_follows_the_last_slash() {
    assert_eq!(file_name("/home/u/src/a.py"), "a.py");
    assert_eq!(file_name("a.py"), "a.py");
    assert_eq!(file_name("/home/u/"), "");
    assert_eq!(file_name(""), "");
    assert_eq!(file_name("/é/ü.rs"), "ü.rs");
}

#[test]
fn configuration_done_has_empty_arguments() {
    let m = configuration_done_request();
    assert_eq!(m.command.as_deref(), Some("configurationDone"));
    assert_eq!(m.arguments, Some(Json::Object(vec![])));
}

#[test]
fn stack_trace_asks_for_the_top_frame() {
    let m = stack_trace_request(7);
    assert_eq!(m.command.as_deref(), Some("stackTrace"));
    assert_eq!(arguments_text(&m), r#"{"levels":1,"startFrame":0,"threadId":7}"#);
}

#[test]
fn thread_commands_name_the_thread() {
    let m = continue_request(2);
    assert_eq!(m.command.as_deref(), Some("continue"));
    assert_eq!(arguments_text(&m), r#"{"threadId":2}"#);
    let m = next_request(2, None);
    assert_eq!(m.command.as_deref(), Some("next"));
    assert_eq!(arguments_text(&m), r#"{"threadId":2}"#);
    let m = next_request(2, Some("statement"));
    assert_eq!(arguments_text(&m), r#"{"granularity":"statement","threadId":2}"#);
    let m = step_in_request(-1, Some("instruction"));
    assert_eq!(m.command.as_deref(), Some("stepIn"));
    assert_eq!(arguments_text(&m), r#"{"granularity":"instruction","threadId":-1}"#);
    let m = step_out_request(3, None);
    assert_eq!(m.command.as_deref(), Some("stepOut"));
    assert_eq!(arguments_text(&m), r#"{"threadId":3}"#);
}

#[test]
fn evaluate_context_depends_on_the_frame() {
    let m = evaluate_request("a + b", None);
    assert_eq!(m.command.as_deref(), Some("evaluate"));
    assert_eq!(arguments_text(&m), r#"{"context":"repl","expression":"a + b"}"#);
    let m = evaluate_request("a + b", Some(1000));
    assert_eq!(arguments_text(&m), r#"{"context":"hover","expression":"a + b","frameId":1000}"#);
}

#[test]
fn terminate_asks_for_no_restart() {
    let m = terminate_request();
    assert_eq!(m.command.as_deref(), Some("terminate"));
    assert_eq!(arguments_text(&m), r#"{"restart":false}"#);
}

#[test]
fn claimed_response_answers_the_request() {
    let mut c = DAPClient::new();
    let a = c.stack_trace(1).unwrap();
    let b = c.evaluate("x", None).unwrap();
    assert_eq!(c.dispatch(response_to(Some(b.seq), "evaluate")), Dispatch::Stored);
    assert_eq!(c.dispatch(response_to(Some(a.seq), "stackTrace")), Dispatch::Stored);
    for sent in [a, b] {
        match c.wait_for_response(sent.seq, 0, 10000) {
            Poll::Ready(m) => {
                assert_eq!(m.request_seq, Some(sent.seq));
                assert_eq!(m.command, sent.command);
            }
            other => panic!("{:?}", other),
        }
        assert_eq!(c.wait_for_response(sent.seq, 0, 10000), Poll::Pending);
    }
}

#[test]
fn commands_go_by_their_wire_names() {
    let mut c = DAPClient::new();
    let sent = vec![
        (c.initialize().unwrap(), Command::Initialize),
        (c.attach("h", 1).unwrap(), Command::Attach),
        (c.launch("p", &vec![], "d", false).unwrap(), Command::Launch),
        (c.set_breakpoints("f", &vec![]).unwrap(), Command::SetBreakpoints),
        (c.configuration_done().unwrap(), Command::ConfigurationDone),
        (c.stack_trace(1).unwrap(), Command::StackTrace),
        (c.continue_execution(1).unwrap(), Command::Continue),
        (c.next(1, None).unwrap(), Command::Next),
        (c.step_in(1, None).unwrap(), Command::StepIn),
        (c.step_out(1, None).unwrap(), Command::StepOut),
        (c.evaluate("x", None).unwrap(), Command::Evaluate),
        (c.terminate().unwrap(), Command::Terminate),
    ];
    for (message, command) in sent {
        assert_eq!(message.command.as_deref(), Some(command.name()));
    }
}
