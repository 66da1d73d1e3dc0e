use midna::providers::{Message, Role};
use midna::session::Session;

#[test]
fn pushes_messages_in_order() {
    let mut s = Session::new();
    s.push(Message::user("hi"));
    s.push(Message::assistant("hello"));

    assert_eq!(s.len(), 2);
    assert_eq!(s.messages()[0].role, Role::User);
    assert_eq!(s.messages()[0].content, "hi");
    assert_eq!(s.messages()[1].role, Role::Assistant);
    assert_eq!(s.messages()[1].content, "hello");
}

#[test]
fn system_prompt_is_first() {
    let s = Session::with_system_prompt("you are midna");
    assert_eq!(s.len(), 1);
    assert_eq!(s.messages()[0].role, Role::System);
}

#[test]
fn new_session_is_empty() {
    let s = Session::new();
    assert!(s.is_empty());
    assert_eq!(s.len(), 0);
    assert!(s.messages().is_empty());
}

#[test]
fn pop_undoes_push() {
    let mut s = Session::with_system_prompt("sys");
    s.push(Message::user("question"));
    let popped = s.pop().expect("a message");
    assert_eq!(popped.role, Role::User);
    assert_eq!(popped.content, "question");
    assert_eq!(s.len(), 1);
    assert_eq!(s.messages()[0].content, "sys");
}

#[test]
fn pop_on_empty_session_gives_nothing() {
    let mut s = Session::new();
    assert!(s.pop().is_none());
    assert!(s.is_empty());
}

#[test]
fn truncate_restores_earlier_length() {
    let mut s = Session::with_system_prompt("sys");
    let checkpoint = s.len();
    s.push(Message::user("a"));
    s.push(Message::assistant("b"));
    s.push(Message::tool("c"));
    s.truncate(checkpoint);
    assert_eq!(s.len(), 1);
    assert_eq!(s.messages()[0].role, Role::System);
    s.truncate(10);
    assert_eq!(s.len(), 1);
}

#[test]
fn constructors_set_role_and_no_tool_calls() {
    let cases = [
        (Message::user("u"), Role::User),
        (Message::assistant("a"), Role::Assistant),
        (Message::system("s"), Role::System),
        (Message::tool("t"), Role::Tool),
    ];
    for (m, role) in cases {
        assert_eq!(m.role, role);
        assert!(m.tool_calls.is_none());
        assert!(!m.has_tool_calls());
    }
}
