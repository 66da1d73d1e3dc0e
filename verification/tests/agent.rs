use midna::error::MidnaError;
use midna::json::JsonValue;
use midna::modes::agent::{
    confirmation_verdict, gate_tool_call, tool_result_text, AgentTurn, ToolGate, TurnAction,
    MAX_STEPS,
};
use midna::modes::chat::{begin_exchange, finish_exchange};
use midna::modes::{classify_input, is_approval, Input};
use midna::permissions::Policy;
use midna::providers::{FunctionCall, Message, Role, ToolCall};
use midna::session::Session;
use midna::tools::{ToolKind, ToolRegistry};

fn call(name: &str) -> ToolCall {
    ToolCall {
        function: FunctionCall {
            name: name.to_string(),
            arguments: JsonValue::Object(vec![(
                "path".to_string(),
                JsonValue::Str("src/main.rs".to_string()),
            )]),
        },
    }
}

fn reply_with_calls(names: &[&str]) -> Message {
    Message {
        role: Role::Assistant,
        content: String::new(),
        tool_calls: Some(names.iter().map(|n| call(n)).collect()),
    }
}

#[test]
fn input_lines_are_classified() {
    assert!(matches!(classify_input("   \t"), Input::Skip));
    assert!(matches!(classify_input(""), Input::Skip));
    assert!(matches!(classify_input(" exit "), Input::Quit));
    assert!(matches!(classify_input("quit"), Input::Quit));
    assert!(matches!(classify_input("exit now"), Input::Send(_)));
    match classify_input("  hello there \n") {
        Input::Send(t) => assert_eq!(t, "hello there"),
        other => panic!("unexpected: {other:?}"),
    }
    match classify_input("\u{3000}こんにちは\u{a0}") {
        Input::Send(t) => assert_eq!(t, "こんにちは"),
        other => panic!("unexpected: {other:?}"),
    }
}

#[test]
fn only_yes_answers_approve() {
    for yes in ["y", "Y", "yes", "  yes\n"] {
        assert!(is_approval(yes), "{yes:?}");
    }
    for no in ["", "n", "no", "YES", "yeah", "y y"] {
        assert!(!is_approval(no), "{no:?}");
    }
}

#[test]
fn turn_without_tools_finishes_with_the_reply() {
    let mut session = Session::with_system_prompt("sys");
    let (mut turn, action) = AgentTurn::start(&mut session, "hi");
    assert!(matches!(action, TurnAction::AskProvider));
    assert_eq!(session.len(), 2);
    assert_eq!(session.messages()[1].role, Role::User);
    match turn.on_reply(&mut session, Message::assistant("hello")) {
        TurnAction::Finish(text) => assert_eq!(text, "hello"),
        other => panic!("unexpected: {other:?}"),
    }
    assert_eq!(session.len(), 3);
    assert_eq!(session.messages()[2].content, "hello");
}

#[test]
fn turn_runs_each_tool_call_then_asks_again() {
    let mut session = Session::with_system_prompt("sys");
    let (mut turn, _) = AgentTurn::start(&mut session, "read two files");
    match turn.on_reply(&mut session, reply_with_calls(&["read_file", "list_dir"])) {
        TurnAction::RunTool(c) => assert_eq!(c.function.name, "read_file"),
        other => panic!("unexpected: {other:?}"),
    }
    match turn.on_tool_result(&mut session, "first") {
        TurnAction::RunTool(c) => {
            assert_eq!(c.function.name, "list_dir");
            assert_eq!(c.function.arguments.get("path").and_then(|p| p.as_str()), Some("src/main.rs"));
        }
        other => panic!("unexpected: {other:?}"),
    }
    assert!(matches!(turn.on_tool_result(&mut session, "second"), TurnAction::AskProvider));
    let roles: Vec<Role> = session.messages().iter().map(|m| m.role).collect();
    assert_eq!(roles, vec![Role::System, Role::User, Role::Assistant, Role::Tool, Role::Tool]);
    assert_eq!(session.messages()[3].content, "first");
    assert_eq!(session.messages()[4].content, "second");
    assert!(session.messages()[2].has_tool_calls());
    match turn.on_reply(&mut session, Message::assistant("done")) {
        TurnAction::Finish(text) => assert_eq!(text, "done"),
        other => panic!("unexpected: {other:?}"),
    }
}

#[test]
fn empty_tool_call_list_finishes_the_turn() {
    let mut session = Session::new();
    let (mut turn, _) = AgentTurn::start(&mut session, "x");
    let reply = Message { role: Role::Assistant, content: "plain".to_string(), tool_calls: Some(vec![]) };
    assert!(matches!(turn.on_reply(&mut session, reply), TurnAction::Finish(_)));
}

#[test]
fn non_assistant_reply_fails_and_rolls_back() {
    let mut session = Session::with_system_prompt("sys");
    let (mut turn, _) = AgentTurn::start(&mut session, "hi");
    match turn.on_reply(&mut session, Message::user("echo")) {
        TurnAction::Fail(MidnaError::Provider(m)) => {
            assert_eq!(m, "provider returned a non-assistant reply")
        }
        other => panic!("unexpected: {other:?}"),
    }
    assert_eq!(session.len(), 1);
    assert_eq!(session.messages()[0].role, Role::System);
}

#[test]
fn provider_error_fails_and_rolls_back() {
    let mut session = Session::with_system_prompt("sys");
    let (mut turn, _) = AgentTurn::start(&mut session, "hi");
    match turn.on_provider_error(&mut session, MidnaError::Connect("down".to_string())) {
        TurnAction::Fail(MidnaError::Connect(m)) => assert_eq!(m, "down"),
        other => panic!("unexpected: {other:?}"),
    }
    assert_eq!(session.len(), 1);
}

#[test]
fn turn_gives_up_after_max_steps_and_rolls_back() {
    let mut session = Session::with_system_prompt("sys");
    let (mut turn, _) = AgentTurn::start(&mut session, "loop forever");
    let mut asks = 1;
    loop {
        match turn.on_reply(&mut session, reply_with_calls(&["list_dir"])) {
            TurnAction::RunTool(_) => {}
            other => panic!("unexpected: {other:?}"),
        }
        match turn.on_tool_result(&mut session, "entries") {
            TurnAction::AskProvider => asks += 1,
            TurnAction::Fail(MidnaError::Provider(m)) => {
                assert_eq!(m, "agent did not finish within 16 tool steps");
                break;
            }
            other => panic!("unexpected: {other:?}"),
        }
    }
    assert_eq!(asks, MAX_STEPS);
    assert_eq!(session.len(), 1);
}

#[test]
fn tool_calls_are_gated_by_registry_and_policy() {
    let registry = ToolRegistry::builtin();
    let policy = Policy::new();
    assert!(matches!(gate_tool_call(&registry, &policy, "read_file"), ToolGate::Run(ToolKind::ReadFile)));
    assert!(matches!(gate_tool_call(&registry, &policy, "list_dir"), ToolGate::Run(ToolKind::ListDir)));
    assert!(matches!(
        gate_tool_call(&registry, &policy, "write_file"),
        ToolGate::Confirm(ToolKind::WriteFile)
    ));
    assert!(matches!(
        gate_tool_call(&registry, &policy, "run_shell"),
        ToolGate::Confirm(ToolKind::RunShell)
    ));
    match gate_tool_call(&registry, &policy, "rm_rf") {
        ToolGate::Unknown(m) => assert_eq!(m, "error: unknown tool `rm_rf`"),
        other => panic!("unexpected: {other:?}"),
    }
}

#[test]
fn confirmation_answers() {
    assert_eq!(confirmation_verdict("run_shell", Ok(Some(" yes ".to_string()))), None);
    assert_eq!(
        confirmation_verdict("run_shell", Ok(Some("no".to_string()))).as_deref(),
        Some("error: user denied permission to run `run_shell`")
    );
    assert_eq!(
        confirmation_verdict("write_file", Ok(None)).as_deref(),
        Some("error: user denied permission to run `write_file`")
    );
    assert_eq!(
        confirmation_verdict("x", Err(MidnaError::Io("closed".to_string()))).as_deref(),
        Some("error: failed to read confirmation: I/O error: closed")
    );
}

#[test]
fn tool_results_become_text() {
    assert_eq!(tool_result_text(Ok("output".to_string())), "output");
    assert_eq!(
        tool_result_text(Err(MidnaError::Tool("failed to read `x`: gone".to_string()))),
        "error: tool error: failed to read `x`: gone"
    );
}

#[test]
fn chat_exchange_keeps_reply_or_takes_back_question() {
    let mut session = Session::with_system_prompt("sys");
    begin_exchange(&mut session, "hello");
    assert_eq!(session.len(), 2);
    let shown = finish_exchange(&mut session, Ok(Message::assistant("hi!"))).expect("ok");
    assert_eq!(shown, "hi!");
    assert_eq!(session.len(), 3);

    begin_exchange(&mut session, "again");
    let err = finish_exchange(&mut session, Err(MidnaError::Provider("boom".to_string())))
        .expect_err("fails");
    assert_eq!(err.message(), "provider error: boom");
    assert_eq!(session.len(), 3);
    assert_eq!(session.messages()[2].content, "hi!");
}

#[test]
fn system_prompt_stays_first_and_alone_across_turns() {
    let mut session = Session::with_system_prompt("sys");
    for round in 0..3 {
        let (mut turn, _) = AgentTurn::start(&mut session, "go");
        let before = session.len();
        match turn.on_reply(&mut session, reply_with_calls(&["read_file"])) {
            TurnAction::RunTool(_) => {}
            other => panic!("unexpected: {other:?}"),
        }
        assert!(matches!(turn.on_tool_result(&mut session, "ok"), TurnAction::AskProvider));
        if round == 1 {
            assert!(matches!(
                turn.on_reply(&mut session, Message::system("sneaky")),
                TurnAction::Fail(_)
            ));
        } else {
            assert!(matches!(turn.on_reply(&mut session, Message::assistant("done")), TurnAction::Finish(_)));
            assert_eq!(session.len(), before + 3);
        }
        assert_eq!(session.messages()[0].role, Role::System);
        assert_eq!(session.messages()[0].content, "sys");
        assert!(session.messages()[1..].iter().all(|m| m.role != Role::System));
    }
    assert_eq!(session.len(), 1 + 4 + 4);
}
