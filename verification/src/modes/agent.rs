use vstd::prelude::*;
use vstd::string::StringExecFns;
use crate::error::{MidnaError, error_text};
use crate::permissions::{Permission, Policy, permission_for};
use crate::providers::{Message, Role, ToolCall, ToolCallView, copy_calls, plain_message, requests_tools};
use crate::session::{Session, extends_without_system, lemma_push_extends, law_extension_is_reflexive, led_by_system, law_system_message_stays_first};
use crate::modes::{approves, is_approval};
use crate::tools::{ToolKind, ToolRegistry, find_tool, tool_risk};

verus! {

/// How the agent introduces itself to the model.
pub const SYSTEM_PROMPT: &'static str = "You are Midna, a local-first coding agent running on the user's machine. You can read and write files, list directories, and run shell commands in the current working directory via tools. Use tools to inspect the project before answering questions about it, and to carry out coding tasks the user asks for. Prefer small, verifiable steps: read before you write, and run relevant checks after changing files. Be concise.";

/// The most requests to the model for one user input, so that a model that
/// keeps calling tools cannot loop forever.
pub const MAX_STEPS: usize = 16;

/// Where a turn stands.
#[derive(Debug, Clone, Copy, PartialEq, Eq, Structural)]
pub enum TurnPhase {
    /// The model has been asked and its reply is awaited.
    AwaitingReply,
    /// The tool calls of the latest reply are being run, one at a time.
    RunningTools,
    /// The turn is over.
    Over,
}

/// What the agent does next in a turn.
#[derive(Debug)]
pub enum TurnAction {
    /// Send the conversation and the tool descriptions to the model.
    AskProvider,
    /// Run this tool call and report its result.
    RunTool(ToolCall),
    /// Show this reply; the turn is over.
    Finish(String),
    /// Report this error; the conversation is as it was before the turn.
    Fail(MidnaError),
}

/// One turn of the agent: from a user input, through requests to the model
/// and tool runs, to a final reply or an error.
pub struct AgentTurn {
    checkpoint: usize,
    steps: usize,
    calls: Vec<ToolCall>,
    next_call: usize,
    phase: TurnPhase,
    before: Ghost<Seq<Message>>,
}

/// The error for a reply that does not come from the assistant.
pub open spec fn non_assistant_text() -> Seq<char> {
    "provider returned a non-assistant reply"@
}

/// The error for a turn that used up all its requests.
pub open spec fn too_many_steps_text() -> Seq<char> {
    "agent did not finish within 16 tool steps"@
}

impl AgentTurn {
    /// The conversation as it was before the turn began.
    pub closed spec fn before(&self) -> Seq<Message> {
        self.before@
    }

    /// How many requests to the model the turn has made.
    pub closed spec fn steps(&self) -> nat {
        self.steps as nat
    }

    pub closed spec fn phase(&self) -> TurnPhase {
        self.phase
    }

    /// The tool calls of the latest reply that have not been run to the end,
    /// the one being run first.
    pub closed spec fn pending(&self) -> Seq<ToolCallView> {
        self.calls@.map_values(|c: ToolCall| c@).skip(self.next_call as int)
    }

    /// The turn agrees with the conversation: the conversation is what it held
    /// before the turn, then the user's input, then messages none of which is a
    /// system message; and the turn has made at least one and at most
    /// `MAX_STEPS` requests.
    pub closed spec fn inv(&self, session: Seq<Message>) -> bool {
        &&& self.checkpoint == self.before@.len()
        &&& self.before@.len() < session.len()
        &&& extends_without_system(self.before@, session)
        &&& session[self.before@.len() as int].role == Role::User
        &&& 1 <= self.steps <= MAX_STEPS
        &&& (self.phase == TurnPhase::RunningTools ==> self.next_call < self.calls@.len())
    }

    /// Where the turn stands.
    pub fn current_phase(&self) -> (p: TurnPhase)
        ensures
            p == self.phase(),
    {
        self.phase
    }

    /// Begins a turn: adds the user's input to the conversation and asks the model.
    pub fn start(session: &mut Session, input: &str) -> (r: (AgentTurn, TurnAction))
        ensures
            final(session)@.len() == old(session)@.len() + 1,
            final(session)@.take(old(session)@.len() as int) == old(session)@,
            final(session)@.last()@ == plain_message(Role::User, input@),
            extends_without_system(old(session)@, final(session)@),
            r.0.before() == old(session)@,
            r.0.inv(final(session)@),
            r.0.phase() == TurnPhase::AwaitingReply,
            r.0.steps() == 1,
            r.1 is AskProvider,
    {
        let checkpoint = session.len();
        let ghost before = session@;
        session.push(Message::user(input));
        proof {
            law_extension_is_reflexive(before);
            lemma_push_extends(before, before, session@.last());
        }
        let turn = AgentTurn {
            checkpoint,
            steps: 1,
            calls: Vec::new(),
            next_call: 0,
            phase: TurnPhase::AwaitingReply,
            before: Ghost(before),
        };
        (turn, TurnAction::AskProvider)
    }

    /// Ends the turn with an error: the conversation goes back to what it was
    /// before the turn.
    fn fail(&mut self, session: &mut Session, err: MidnaError) -> (r: TurnAction)
        requires
            old(self).checkpoint == old(self).before@.len(),
            extends_without_system(old(self).before@, old(session)@),
        ensures
            final(session)@ == old(self).before(),
            extends_without_system(old(self).before(), final(session)@),
            final(self).before() == old(self).before(),
            final(self).steps() == old(self).steps(),
            final(self).phase() == TurnPhase::Over,
            r == TurnAction::Fail(err),
    {
        session.truncate(self.checkpoint);
        proof {
            law_extension_is_reflexive(self.before@);
        }
        self.phase = TurnPhase::Over;
        TurnAction::Fail(err)
    }

    /// The model could not be asked: the turn fails with that error.
    pub fn on_provider_error(&mut self, session: &mut Session, err: MidnaError) -> (r: TurnAction)
        requires
            old(self).inv(old(session)@),
            old(self).phase() == TurnPhase::AwaitingReply,
        ensures
            r == TurnAction::Fail(err),
            final(session)@ == old(self).before(),
            extends_without_system(old(self).before(), final(session)@),
            final(self).phase() == TurnPhase::Over,
    {
        self.fail(session, err)
    }

    /// The model replied. A reply that is not the assistant's fails the turn.
    /// Otherwise the reply joins the conversation; without tool calls it is the
    /// answer and ends the turn, with them the first call is run.
    pub fn on_reply(&mut self, session: &mut Session, reply: Message) -> (r: TurnAction)
        requires
            old(self).inv(old(session)@),
            old(self).phase() == TurnPhase::AwaitingReply,
        ensures
            final(self).before() == old(self).before(),
            final(self).steps() == old(self).steps(),
            extends_without_system(old(self).before(), final(session)@),
            reply.role != Role::Assistant ==> {
                &&& r matches TurnAction::Fail(MidnaError::Provider(m)) && m@ == non_assistant_text()
                &&& final(session)@ == old(self).before()
                &&& final(self).phase() == TurnPhase::Over
            },
            reply.role == Role::Assistant ==> final(session)@ == old(session)@.push(reply),
            reply.role == Role::Assistant && !requests_tools(reply@) ==> {
                &&& r matches TurnAction::Finish(text) && text@ == reply.content@
                &&& final(self).phase() == TurnPhase::Over
            },
            reply.role == Role::Assistant && (reply.tool_calls matches Some(calls) && calls@.len() > 0)
                ==> (r matches TurnAction::RunTool(call) && call@ == reply.tool_calls.unwrap()@[0]@),
            reply.role == Role::Assistant && requests_tools(reply@) ==> {
                &&& r matches TurnAction::RunTool(call) && call@ == reply@.tool_calls.unwrap()[0]
                &&& final(self).phase() == TurnPhase::RunningTools
                &&& final(self).pending() == reply@.tool_calls.unwrap()
                &&& final(self).inv(final(session)@)
            },
    {
        if reply.role != Role::Assistant {
            let mut m = String::new();
            m.append("provider returned a non-assistant reply");
            return self.fail(session, MidnaError::Provider(m));
        }
        let ghost old_session = session@;
        let ghost reply_view = reply@;
        let calls = match &reply.tool_calls {
            Some(calls) => copy_calls(calls),
            None => Vec::new(),
        };
        proof {
            lemma_push_extends(self.before@, old_session, reply);
        }
        if calls.len() == 0 {
            let text = reply.content.clone();
            session.push(reply);
            self.phase = TurnPhase::Over;
            return TurnAction::Finish(text);
        }
        session.push(reply);
        proof {
            assert(session@[self.before@.len() as int] == old_session[self.before@.len() as int]);
        }
        let first = calls[0].copy();
        self.calls = calls;
        self.next_call = 0;
        self.phase = TurnPhase::RunningTools;
        proof {
            assert(self.calls@.map_values(|c: ToolCall| c@).skip(0) =~= self.calls@.map_values(|c: ToolCall| c@));
            assert(self.calls@.map_values(|c: ToolCall| c@)[0] == self.calls@[0]@);
        }
        TurnAction::RunTool(first)
    }

    /// A tool call was run and gave `result`. The result joins the conversation
    /// as a tool message; then the next call of the reply is run, or, when all
    /// have been, the model is asked again, unless the turn has used up its
    /// `MAX_STEPS` requests, which fails it.
    pub fn on_tool_result(&mut self, session: &mut Session, result: &str) -> (r: TurnAction)
        requires
            old(self).inv(old(session)@),
            old(self).phase() == TurnPhase::RunningTools,
        ensures
            final(self).before() == old(self).before(),
            extends_without_system(old(self).before(), final(session)@),
            old(self).pending().len() > 1 ==> {
                &&& final(session)@.len() == old(session)@.len() + 1
                &&& final(session)@.take(old(session)@.len() as int) == old(session)@
                &&& final(session)@.last()@ == plain_message(Role::Tool, result@)
                &&& r matches TurnAction::RunTool(call) && call@ == old(self).pending()[1]
                &&& final(self).pending() == old(self).pending().drop_first()
                &&& final(self).phase() == TurnPhase::RunningTools
                &&& final(self).steps() == old(self).steps()
                &&& final(self).inv(final(session)@)
            },
            old(self).pending().len() <= 1 && old(self).steps() < MAX_STEPS ==> {
                &&& final(session)@.len() == old(session)@.len() + 1
                &&& final(session)@.take(old(session)@.len() as int) == old(session)@
                &&& final(session)@.last()@ == plain_message(Role::Tool, result@)
                &&& r is AskProvider
                &&& final(self).phase() == TurnPhase::AwaitingReply
                &&& final(self).steps() == old(self).steps() + 1
                &&& final(self).inv(final(session)@)
            },
            old(self).pending().len() <= 1 && old(self).steps() >= MAX_STEPS ==> {
                &&& r matches TurnAction::Fail(MidnaError::Provider(m)) && m@ == too_many_steps_text()
                &&& final(session)@ == old(self).before()
                &&& final(self).phase() == TurnPhase::Over
            },
    {
        let ghost old_session = session@;
        let ghost pend = self.calls@.map_values(|c: ToolCall| c@).skip(self.next_call as int);
        session.push(Message::tool(result));
        proof {
            assert(session@.take(old_session.len() as int) =~= old_session);
            lemma_push_extends(self.before@, old_session, session@.last());
            assert(session@[self.before@.len() as int] == old_session[self.before@.len() as int]);
        }
        let n = self.calls.len();
        assert(self.next_call < n);
        self.next_call = self.next_call + 1;
        if self.next_call < n {
            let call = self.calls[self.next_call].copy();
            proof {
                assert(pend[1] == self.calls@[self.next_call as int]@);
                assert(self.calls@.map_values(|c: ToolCall| c@).skip(self.next_call as int) =~= pend.drop_first());
            }
            return TurnAction::RunTool(call);
        }
        if self.steps < MAX_STEPS {
            self.steps = self.steps + 1;
            self.phase = TurnPhase::AwaitingReply;
            return TurnAction::AskProvider;
        }
        let mut m = String::new();
        m.append("agent did not finish within 16 tool steps");
        self.fail(session, MidnaError::Provider(m))
    }
}

/// A turn never makes more than `MAX_STEPS` requests to the model.
pub proof fn law_steps_bounded(turn: AgentTurn, session: Seq<Message>)
    requires
        turn.inv(session),
    ensures
        1 <= turn.steps() <= MAX_STEPS,
{
}

/// Throughout a turn the conversation is what it held before the turn, then
/// the user's input, then only messages that are not system messages; so a
/// conversation that began with a system prompt keeps that prompt first, and
/// as its only system message, in every request of the turn.
pub proof fn law_turn_extends_history(turn: AgentTurn, session: Seq<Message>)
    requires
        turn.inv(session),
    ensures
        extends_without_system(turn.before(), session),
        session[turn.before().len() as int].role == Role::User,
        led_by_system(turn.before()) ==> led_by_system(session) && session[0] == turn.before()[0],
{
    if led_by_system(turn.before()) {
        law_system_message_stays_first(turn.before(), session);
    }
}

/// What to do about a tool call before running it.
#[derive(Debug)]
pub enum ToolGate {
    /// No tool has that name; report this text as its result.
    Unknown(String),
    /// The policy forbids the tool; report this text as its result.
    Denied(ToolKind, String),
    /// Ask the user whether it may run.
    Confirm(ToolKind),
    /// Run it.
    Run(ToolKind),
}

/// The text reported for a call of a tool that does not exist.
pub open spec fn unknown_tool_text(name: Seq<char>) -> Seq<char> {
    "error: unknown tool `"@ + name + "`"@
}

/// The text reported for a call that the policy denies.
pub open spec fn denied_by_policy_text(name: Seq<char>) -> Seq<char> {
    "error: tool `"@ + name + "` is denied by policy"@
}

/// The text reported for a call that the user did not allow.
pub open spec fn denied_by_user_text(name: Seq<char>) -> Seq<char> {
    "error: user denied permission to run `"@ + name + "`"@
}

/// Decides about a call of the tool `name`: an unknown tool and a tool that
/// the policy denies are reported, not run; a tool that needs confirmation is
/// asked about; any other tool runs.
pub fn gate_tool_call(registry: &ToolRegistry, policy: &Policy, name: &str) -> (r: ToolGate)
    ensures
        match find_tool(registry@, name@) {
            None => r matches ToolGate::Unknown(m) && m@ == unknown_tool_text(name@),
            Some(k) => match permission_for(tool_risk(k)) {
                Permission::Allow => r == ToolGate::Run(k),
                Permission::Ask => r == ToolGate::Confirm(k),
                Permission::Deny => r matches ToolGate::Denied(d, m) && d == k && m@ == denied_by_policy_text(name@),
            },
        },
{
    match registry.get(name) {
        None => {
            let mut m = "error: unknown tool `".to_owned();
            m.append(name);
            m.append("`");
            ToolGate::Unknown(m)
        },
        Some(k) => match policy.check(k.risk()) {
            Permission::Allow => ToolGate::Run(k),
            Permission::Ask => ToolGate::Confirm(k),
            Permission::Deny => {
                let mut m = "error: tool `".to_owned();
                m.append(name);
                m.append("` is denied by policy");
                ToolGate::Denied(k, m)
            },
        },
    }
}

/// What the user's answer to a confirmation question means for the call of
/// tool `name`: `None` when it may run; otherwise the text to report as its
/// result, for a refusal (an answer other than yes, or no answer at all) or for
/// an answer that could not be read.
pub fn confirmation_verdict(name: &str, answer: Result<Option<String>, MidnaError>) -> (r: Option<String>)
    ensures
        match answer {
            Ok(Some(a)) => if approves(a@) {
                r is None
            } else {
                r matches Some(m) && m@ == denied_by_user_text(name@)
            },
            Ok(None) => r matches Some(m) && m@ == denied_by_user_text(name@),
            Err(e) => r matches Some(m) && m@ == "error: failed to read confirmation: "@ + error_text(e),
        },
{
    let approved = match &answer {
        Ok(Some(a)) => is_approval(a.as_str()),
        Ok(None) => false,
        Err(e) => {
            let mut m = "error: failed to read confirmation: ".to_owned();
            m.append(e.message().as_str());
            return Some(m);
        },
    };
    if approved {
        None
    } else {
        let mut m = "error: user denied permission to run `".to_owned();
        m.append(name);
        m.append("`");
        Some(m)
    }
}

/// The text that hands a tool's result back to the model: its output, or
/// `error: ` and the error's message. A failing tool does not fail the turn;
/// the model reads the error and decides how to go on.
pub fn tool_result_text(result: Result<String, MidnaError>) -> (r: String)
    ensures
        match result {
            Ok(out) => r@ == out@,
            Err(e) => r@ == "error: "@ + error_text(e),
        },
{
    match result {
        Ok(out) => out,
        Err(e) => {
            let mut m = "error: ".to_owned();
            m.append(e.message().as_str());
            m
        },
    }
}

} // verus!
