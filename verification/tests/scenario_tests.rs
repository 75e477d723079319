use dap_session::client::{DAPClient, Dispatch, Poll};
use dap_session::commands::{
    breakpoints_result, command_outcome, evaluation_result, paused_location, rewrite_expression,
    step, top_frame_id, CommandError, StepKind,
};
use dap_session::debug_state::{
    emit_status_update, AdapterKind, DebugSessionState, DebuggerState, StatusKind, StatusUpdate,
};
use dap_session::launch::{
    adapter_kind, port_base, terminate_plan, Launch, LaunchAction, TerminateStep,
    LOCATION_TIMEOUT_MS, RESPONSE_TIMEOUT_MS,
};
use dap_session::message::{same_message, DAPMessage, MessageType};
use dap_session::ports::find_available_port;
use dap_session::receiver::{encode_message, process_message, Reactions, Received, Receiver};
use dap_session::requests::{BreakpointInput, Command};
use dap_session::wire::{json_to_text, parse_json};

fn adapter_response(seq: i32, to: &DAPMessage, success: bool, body: Option<&str>) -> Vec<u8> {
    encode_message(&DAPMessage {
        seq,
        message_type: MessageType::Response,
        command: to.command.clone(),
        request_seq: Some(to.seq),
        success: Some(success),
        body: body.map(|b| parse_json(b).expect("the test's own JSON")),
        event: None,
        arguments: None,
    })
}

fn adapter_event(seq: i32, name: &str, body: Option<&str>) -> Vec<u8> {
    encode_message(&DAPMessage {
        seq,
        message_type: MessageType::Event,
        command: None,
        request_seq: None,
        success: None,
        body: body.map(|b| parse_json(b).expect("the test's own JSON")),
        event: Some(name.to_string()),
        arguments: None,
    })
}

fn deliver(
    receiver: &mut Receiver,
    session: &mut DebugSessionState,
    client: &mut DAPClient,
    bytes: &[u8],
) -> Vec<Reactions> {
    receiver.feed(bytes);
    let mut all = Vec::new();
    loop {
        match receiver.next_message() {
            Received::Message(m) => all.push(process_message(session, client, m)),
            Received::Skipped(_) => {}
            Received::NeedMore => return all,
        }
    }
}

fn status(kind: StatusKind, seq: u64, thread_id: Option<i64>) -> StatusUpdate {
    StatusUpdate { status: kind, seq, thread_id, file: None, line: None }
}

#[test]
fn attach_style_happy_path() {
    let kind = adapter_kind("python").unwrap();
    assert_eq!(kind, AdapterKind::Attach);
    let mut launch = Launch::begin(kind);
    let mut session = DebugSessionState::new();
    let mut client = DAPClient::new();
    let mut receiver = Receiver::new();
    let mut ui: Vec<StatusUpdate> = Vec::new();

    assert_eq!(launch.current(), LaunchAction::AllocatePort);
    let port = find_available_port(port_base(kind), |_| true).unwrap();
    assert_eq!(port, 5678);
    session.set_debugger_type(kind);
    while launch.current() != LaunchAction::Initialize {
        launch.succeed();
    }

    let init = client.initialize().unwrap();
    assert_eq!(init.seq, 1);
    deliver(&mut receiver, &mut session, &mut client, &adapter_response(1, &init, true, Some("{}")));
    let answered =
        command_outcome(Command::Initialize, client.wait_for_response(init.seq, 0, RESPONSE_TIMEOUT_MS));
    assert_eq!(answered.unwrap().unwrap().success, Some(true));
    launch.succeed();

    assert_eq!(launch.current(), LaunchAction::Enter);
    let attach = client.attach("127.0.0.1", port).unwrap();
    assert_eq!(attach.seq, 2);
    assert_eq!(
        json_to_text(attach.arguments.as_ref().unwrap()),
        r#"{"host":"127.0.0.1","port":5678}"#
    );
    assert!(!client.is_awaited(attach.seq));
    launch.succeed();
    assert_eq!(launch.current(), LaunchAction::Settle);
    launch.succeed();
    assert_eq!(launch.current(), LaunchAction::StoreHandles);
    launch.succeed();
    assert_eq!(launch.current(), LaunchAction::AnnounceInitializing);
    ui.extend(emit_status_update(&mut session, StatusKind::Initializing, None));
    launch.succeed();
    assert_eq!(launch.current(), LaunchAction::Finished);

    let r = deliver(&mut receiver, &mut session, &mut client, &adapter_event(2, "initialized", None));
    assert_eq!(session.current_state(), DebuggerState::Configuring);
    ui.extend(r.into_iter().filter_map(|r| r.status));
    assert_eq!(ui.last(), Some(&status(StatusKind::Configuring, 1, None)));

    let set = client.set_breakpoints("/a.py", &vec![BreakpointInput { line: 25 }]).unwrap();
    assert_eq!(
        json_to_text(set.arguments.as_ref().unwrap()),
        r#"{"breakpoints":[{"line":25}],"source":{"name":"a.py","path":"/a.py"},"sourceModified":false}"#
    );
    let verified = r#"{"breakpoints":[{"line":25,"verified":true}]}"#;
    deliver(&mut receiver, &mut session, &mut client, &adapter_response(3, &set, true, Some(verified)));
    let answered = command_outcome(
        Command::SetBreakpoints,
        client.wait_for_response(set.seq, 50, RESPONSE_TIMEOUT_MS),
    );
    assert_eq!(breakpoints_result(answered.unwrap().unwrap()), Ok(parse_json(verified).unwrap()));

    let done = client.configuration_done().unwrap();
    deliver(&mut receiver, &mut session, &mut client, &adapter_response(4, &done, true, None));
    match client.wait_for_response(done.seq, 0, RESPONSE_TIMEOUT_MS) {
        Poll::Ready(m) => assert_eq!(m.success, Some(true)),
        other => panic!("{:?}", other),
    }
    ui.extend(session.handle_configuration_done());
    assert_eq!(session.current_state(), DebuggerState::Running);
    assert_eq!(ui.last(), Some(&status(StatusKind::Running, 2, None)));

    let r = deliver(
        &mut receiver,
        &mut session,
        &mut client,
        &adapter_event(5, "stopped", Some(r#"{"reason":"breakpoint","threadId":1}"#)),
    );
    assert_eq!(
        session.current_state(),
        DebuggerState::Paused { reason: "breakpoint".to_string(), thread_id: 1 }
    );
    assert_eq!(r.len(), 1);
    let paused = r.into_iter().next().unwrap().status.unwrap();
    assert_eq!(paused, status(StatusKind::Paused, 3, Some(1)));

    let trace = client.stack_trace(paused.thread_id.unwrap()).unwrap();
    deliver(
        &mut receiver,
        &mut session,
        &mut client,
        &adapter_response(
            6,
            &trace,
            true,
            Some(r#"{"stackFrames":[{"id":1,"name":"fib","line":25,"source":{"path":"/a.py"}}]}"#),
        ),
    );
    let location = match client.wait_for_response(trace.seq, 100, LOCATION_TIMEOUT_MS) {
        Poll::Ready(m) => paused_location(&m),
        _ => None,
    };
    ui.push(paused.with_location(location));
    assert_eq!(
        ui.last(),
        Some(&StatusUpdate {
            status: StatusKind::Paused,
            seq: 3,
            thread_id: Some(1),
            file: Some("/a.py".to_string()),
            line: Some(25),
        })
    );

    let go = client.continue_execution(1).unwrap();
    assert_eq!(json_to_text(go.arguments.as_ref().unwrap()), r#"{"threadId":1}"#);
    let mut arrived = adapter_response(7, &go, true, Some(r#"{"allThreadsContinued":true}"#));
    arrived.extend(adapter_event(8, "terminated", None));
    let r = deliver(&mut receiver, &mut session, &mut client, &arrived);
    assert_eq!(r.len(), 2);
    assert_eq!(r[0].dispatch, Dispatch::Stored);
    ui.extend(r.into_iter().filter_map(|r| r.status));
    assert_eq!(ui.last(), Some(&status(StatusKind::Terminated, 4, None)));
    assert_eq!(session.current_state(), DebuggerState::Terminated);

    let stamps: Vec<u64> = ui.iter().map(|u| u.seq).collect();
    assert_eq!(stamps, vec![0, 1, 2, 3, 4]);
    let words: Vec<&str> = ui.iter().map(|u| u.status.as_str()).collect();
    assert_eq!(words, vec!["initializing", "configuring", "running", "paused", "terminated"]);
}

#[test]
fn pause_is_reported_without_location_when_the_stack_trace_times_out() {
    let mut session = DebugSessionState::new();
    let mut client = DAPClient::new();
    let mut receiver = Receiver::new();
    deliver(&mut receiver, &mut session, &mut client, &adapter_event(1, "initialized", None));
    let r = deliver(
        &mut receiver,
        &mut session,
        &mut client,
        &adapter_event(2, "stopped", Some(r#"{"reason":"pause","threadId":3}"#)),
    );
    let paused = r.into_iter().next().unwrap().status.unwrap();
    let trace = client.stack_trace(3).unwrap();
    assert_eq!(client.wait_for_response(trace.seq, 1950, LOCATION_TIMEOUT_MS), Poll::Pending);
    let location = match client.wait_for_response(trace.seq, 2000, LOCATION_TIMEOUT_MS) {
        Poll::Ready(m) => paused_location(&m),
        Poll::TimedOut => None,
        Poll::Pending => unreachable!(),
    };
    assert_eq!(paused.with_location(location), status(StatusKind::Paused, 1, Some(3)));
}

#[test]
fn launch_style_evaluation_rewriting() {
    let mut session = DebugSessionState::new();
    session.set_debugger_type(AdapterKind::Launch);
    let mut client = DAPClient::new();
    let mut receiver = Receiver::new();

    let expression = rewrite_expression(session.debugger_type(), "a + b");
    assert_eq!(expression, "expr -- a + b");

    let trace = client.stack_trace(1).unwrap();
    deliver(
        &mut receiver,
        &mut session,
        &mut client,
        &adapter_response(1, &trace, true, Some(r#"{"stackFrames":[{"id":1000,"line":18}]}"#)),
    );
    let frame = match client.wait_for_response(trace.seq, 0, RESPONSE_TIMEOUT_MS) {
        Poll::Ready(m) => top_frame_id(&m),
        _ => None,
    };
    assert_eq!(frame, Some(1000));

    let eval = client.evaluate(&expression, frame).unwrap();
    assert_eq!(eval.command.as_deref(), Some("evaluate"));
    assert_eq!(
        json_to_text(eval.arguments.as_ref().unwrap()),
        r#"{"context":"hover","expression":"expr -- a + b","frameId":1000}"#
    );
    deliver(
        &mut receiver,
        &mut session,
        &mut client,
        &adapter_response(
            2,
            &eval,
            true,
            Some(r#"{"result":"(lldb) expr -- a + b\n(int) $0 = 12","variablesReference":0}"#),
        ),
    );
    let answered =
        command_outcome(Command::Evaluate, client.wait_for_response(eval.seq, 0, RESPONSE_TIMEOUT_MS));
    let result = evaluation_result(session.debugger_type(), answered.unwrap().unwrap()).unwrap();
    assert_eq!(result.get_str("result"), Some("12"));
    assert_eq!(json_to_text(&result), r#"{"result":"12","type":null,"variablesReference":0}"#);
}

#[test]
fn launch_style_evaluation_without_a_frame_uses_repl() {
    let mut client = DAPClient::new();
    let expression = rewrite_expression(Some(AdapterKind::Launch), "a + b");
    let eval = client.evaluate(&expression, None).unwrap();
    assert_eq!(
        json_to_text(eval.arguments.as_ref().unwrap()),
        r#"{"context":"repl","expression":"expr -- a + b"}"#
    );
}

#[test]
fn terminate_before_stop_launch_style() {
    let mut session = DebugSessionState::new();
    session.set_debugger_type(AdapterKind::Launch);
    let mut client = DAPClient::new();
    let mut receiver = Receiver::new();
    deliver(&mut receiver, &mut session, &mut client, &adapter_event(1, "initialized", None));
    session.handle_configuration_done();
    assert_eq!(session.current_state(), DebuggerState::Running);
    let n = session.get_status_seq();

    let mut log: Vec<String> = Vec::new();
    for step in terminate_plan(session.debugger_type(), true) {
        match step {
            TerminateStep::EmitTerminated => {
                let emitted = session.terminate_locally().unwrap();
                assert_eq!(emitted, status(StatusKind::Terminated, n, None));
                log.push(format!("debug-status {} {}", emitted.status.as_str(), emitted.seq));
            }
            TerminateStep::RequestTerminate => {
                let request = client.terminate().unwrap();
                assert_eq!(json_to_text(request.arguments.as_ref().unwrap()), r#"{"restart":false}"#);
                log.push(format!("request {}", request.command.unwrap()));
            }
            TerminateStep::KillProcess => log.push("kill".to_string()),
        }
    }
    assert_eq!(log, vec![format!("debug-status terminated {}", n), "request terminate".to_string(), "kill".to_string()]);
    assert!(session.is_terminated());
    let late = deliver(&mut receiver, &mut session, &mut client, &adapter_event(2, "terminated", None));
    assert_eq!(late[0].status, None);
    assert_eq!(session.get_status_seq(), n + 1);
}

#[test]
fn step_without_thread() {
    let mut session = DebugSessionState::new();
    let mut client = DAPClient::new();
    let mut receiver = Receiver::new();
    deliver(&mut receiver, &mut session, &mut client, &adapter_event(1, "initialized", None));
    session.handle_configuration_done();
    let before = client.next_sequence();
    let outcome = step(&session, &mut client, StepKind::In, None, None);
    assert_eq!(outcome, Err(CommandError::NoCurrentThread));
    assert_eq!(
        outcome.unwrap_err().message(),
        "No current thread id available; debugger is not paused."
    );
    assert_eq!(client.next_sequence(), before);
}

#[test]
fn sequence_monotonicity_for_two_commands_while_paused() {
    let mut session = DebugSessionState::new();
    let mut client = DAPClient::new();
    let mut receiver = Receiver::new();
    client.initialize().unwrap();
    deliver(&mut receiver, &mut session, &mut client, &adapter_event(1, "initialized", None));
    deliver(&mut receiver, &mut session, &mut client, &adapter_event(2, "stopped", Some(r#"{"threadId":1}"#)));
    let first = client.continue_execution(1).unwrap();
    let second = client.evaluate("x", None).unwrap();
    assert_eq!(second.seq - first.seq, 1);
    let mut wire = encode_message(&first);
    wire.extend(encode_message(&second));
    let mut adapter_side = Receiver::new();
    adapter_side.feed(&wire);
    for sent in [first, second] {
        match adapter_side.next_message() {
            Received::Message(m) => assert!(same_message(&m, &sent)),
            other => panic!("{:?}", other),
        }
    }
    assert_eq!(adapter_side.next_message(), Received::NeedMore);
}
