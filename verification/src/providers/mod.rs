use vstd::prelude::*;
use crate::json::{JsonValue, JsonView};

pub mod ollama;

verus! {

/// Who wrote a message of a conversation.
#[derive(Debug, Clone, Copy, PartialEq, Eq, Structural)]
pub enum Role {
    System,
    User,
    Assistant,
    /// The result of a tool run, handed back to the model.
    Tool,
}

/// A request of the model to run a tool with the given arguments.
#[derive(Debug)]
pub struct ToolCall {
    pub function: FunctionCall,
}

/// The tool to run and its arguments, a JSON object such as `{"path": "src/main.rs"}`.
#[derive(Debug)]
pub struct FunctionCall {
    pub name: String,
    pub arguments: JsonValue,
}

/// One message of a conversation.
#[derive(Debug)]
pub struct Message {
    pub role: Role,
    pub content: String,
    pub tool_calls: Option<Vec<ToolCall>>,
}

/// What a tool call is, as a mathematical value.
pub struct ToolCallView {
    pub name: Seq<char>,
    pub arguments: JsonView,
}

/// What a message is, as a mathematical value.
pub struct MessageView {
    pub role: Role,
    pub content: Seq<char>,
    pub tool_calls: Option<Seq<ToolCallView>>,
}

impl View for ToolCall {
    type V = ToolCallView;

    open spec fn view(&self) -> ToolCallView {
        ToolCallView { name: self.function.name@, arguments: self.function.arguments@ }
    }
}

impl View for Message {
    type V = MessageView;

    open spec fn view(&self) -> MessageView {
        MessageView {
            role: self.role,
            content: self.content@,
            tool_calls: match self.tool_calls {
                Some(calls) => Some(calls@.map_values(|c: ToolCall| c@)),
                None => None,
            },
        }
    }
}

/// A message of the given role and text, with no tool calls.
pub open spec fn plain_message(role: Role, content: Seq<char>) -> MessageView {
    MessageView { role, content, tool_calls: None }
}

/// Whether a message asks for tools to be run: it has a list of tool calls
/// and the list is not empty.
pub open spec fn requests_tools(m: MessageView) -> bool {
    match m.tool_calls {
        Some(calls) => calls.len() > 0,
        None => false,
    }
}

/// A message asks for tools exactly when it carries a non-empty list of tool
/// calls; what its text says plays no part, and neither does its role.
pub proof fn law_tool_requests_depend_on_calls_alone(m: MessageView, content: Seq<char>, role: Role)
    ensures
        requests_tools(m) <==> (m.tool_calls matches Some(calls) && calls.len() > 0),
        requests_tools(m) == requests_tools(MessageView { role, content, tool_calls: m.tool_calls }),
{
}

impl ToolCall {
    /// A copy of this call.
    pub fn copy(&self) -> (r: ToolCall)
        ensures
            r@ == self@,
    {
        ToolCall {
            function: FunctionCall {
                name: self.function.name.clone(),
                arguments: self.function.arguments.deep_copy(),
            },
        }
    }
}

/// Copies of the given tool calls, in the same order.
pub fn copy_calls(calls: &Vec<ToolCall>) -> (r: Vec<ToolCall>)
    ensures
        r@.map_values(|c: ToolCall| c@) == calls@.map_values(|c: ToolCall| c@),
        r@.len() == calls@.len(),
        forall|i: int| 0 <= i < calls@.len() ==> #[trigger] r@[i]@ == calls@[i]@,
{
    let mut out: Vec<ToolCall> = Vec::new();
    let mut i: usize = 0;
    while i < calls.len()
        invariant
            i <= calls@.len(),
            out@.len() == i,
            forall|k: int| 0 <= k < i ==> #[trigger] out@[k]@ == calls@[k]@,
        decreases calls.len() - i,
    {
        out.push(calls[i].copy());
        i = i + 1;
    }
    assert(out@.map_values(|c: ToolCall| c@) =~= calls@.map_values(|c: ToolCall| c@));
    out
}

impl Message {
    fn plain(role: Role, content: &str) -> (m: Self)
        ensures
            m@ == plain_message(role, content@),
            m.role == role,
            m.content@ == content@,
            m.tool_calls is None,
    {
        Message { role, content: content.to_owned(), tool_calls: None }
    }

    pub fn user(content: &str) -> (m: Self)
        ensures
            m@ == plain_message(Role::User, content@),
    {
        Self::plain(Role::User, content)
    }

    pub fn assistant(content: &str) -> (m: Self)
        ensures
            m@ == plain_message(Role::Assistant, content@),
    {
        Self::plain(Role::Assistant, content)
    }

    pub fn system(content: &str) -> (m: Self)
        ensures
            m@ == plain_message(Role::System, content@),
    {
        Self::plain(Role::System, content)
    }

    /// The message that hands a tool's result back to the model.
    pub fn tool(content: &str) -> (m: Self)
        ensures
            m@ == plain_message(Role::Tool, content@),
    {
        Self::plain(Role::Tool, content)
    }

    /// Whether the model asks for tools to be run.
    pub fn has_tool_calls(&self) -> (r: bool)
        ensures
            r == requests_tools(self@),
            r == (self.tool_calls matches Some(calls) && calls@.len() > 0),
    {
        match &self.tool_calls {
            Some(calls) => calls.len() > 0,
            None => false,
        }
    }

    /// A copy of this message, tool calls included.
    pub fn copy(&self) -> (r: Message)
        ensures
            r@ == self@,
    {
        let tool_calls = match &self.tool_calls {
            Some(calls) => Some(copy_calls(calls)),
            None => None,
        };
        Message { role: self.role, content: self.content.clone(), tool_calls }
    }
}

/// The description of a tool that the model is told about: its name, what it
/// does and the JSON schema of its arguments, in the function-calling form.
#[derive(Debug)]
pub struct ToolSpec {
    pub kind: &'static str,
    pub function: ToolFunctionSpec,
}

#[derive(Debug)]
pub struct ToolFunctionSpec {
    pub name: String,
    pub description: String,
    /// The JSON schema of the arguments.
    pub parameters: JsonValue,
}

} // verus!
