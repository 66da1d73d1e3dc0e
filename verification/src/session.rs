use vstd::prelude::*;
use crate::providers::{Message, Role, plain_message};

verus! {

/// The history of one conversation, oldest message first.
#[derive(Debug)]
pub struct Session {
    messages: Vec<Message>,
}

impl View for Session {
    type V = Seq<Message>;

    closed spec fn view(&self) -> Seq<Message> {
        self.messages@
    }
}

/// The history after `message` is appended.
pub open spec fn pushed(history: Seq<Message>, message: Message) -> Seq<Message> {
    history.push(message)
}

/// What popping gives: the latest message, if any, and the history without it.
pub open spec fn popped(history: Seq<Message>) -> (Option<Message>, Seq<Message>) {
    if history.len() == 0 {
        (None, history)
    } else {
        (Some(history.last()), history.drop_last())
    }
}

/// The history cut back to its first `len` messages; all of it when it is no longer.
pub open spec fn cut_to(history: Seq<Message>, len: nat) -> Seq<Message> {
    if len <= history.len() {
        history.take(len as int)
    } else {
        history
    }
}

/// `history` begins with a system message, and no other message of it is one.
pub open spec fn led_by_system(history: Seq<Message>) -> bool {
    &&& history.len() > 0
    &&& history[0].role == Role::System
    &&& forall|i: int| 1 <= i < history.len() ==> (#[trigger] history[i]).role != Role::System
}

/// `after` is `before` with more messages after it, none of them a system message.
pub open spec fn extends_without_system(before: Seq<Message>, after: Seq<Message>) -> bool {
    &&& before.len() <= after.len()
    &&& after.take(before.len() as int) == before
    &&& forall|i: int| before.len() <= i < after.len() ==> (#[trigger] after[i]).role != Role::System
}

impl Session {
    /// An empty conversation.
    pub fn new() -> (s: Self)
        ensures
            s@ == Seq::<Message>::empty(),
    {
        Session { messages: Vec::new() }
    }

    /// A conversation that starts with the given system prompt.
    pub fn with_system_prompt(prompt: &str) -> (s: Self)
        ensures
            s@.len() == 1,
            s@[0]@ == plain_message(Role::System, prompt@),
            led_by_system(s@),
    {
        let mut messages = Vec::new();
        messages.push(Message::system(prompt));
        Session { messages }
    }

    /// Appends a message at the end of the history.
    pub fn push(&mut self, message: Message)
        ensures
            final(self)@ == pushed(old(self)@, message),
    {
        self.messages.push(message);
    }

    /// Removes the latest message and hands it back; `None` for an empty history.
    pub fn pop(&mut self) -> (r: Option<Message>)
        ensures
            (r, final(self)@) == popped(old(self)@),
    {
        self.messages.pop()
    }

    /// Keeps the first `len` messages and drops the rest; keeps all of them when
    /// there are no more than `len`.
    pub fn truncate(&mut self, len: usize)
        ensures
            final(self)@ == cut_to(old(self)@, len as nat),
    {
        self.messages.truncate(len);
    }

    /// The messages, oldest first.
    pub fn messages(&self) -> (r: &[Message])
        ensures
            r@ == self@,
    {
        self.messages.as_slice()
    }

    pub fn len(&self) -> (r: usize)
        ensures
            r == self@.len(),
    {
        self.messages.len()
    }

    pub fn is_empty(&self) -> (r: bool)
        ensures
            r == (self@.len() == 0),
    {
        self.messages.len() == 0
    }
}

impl Default for Session {
    fn default() -> (s: Self)
        ensures
            s@ == Seq::<Message>::empty(),
    {
        Session::new()
    }
}

/// Popping right after a push gives the pushed message back and leaves the
/// history as it was before the push.
pub proof fn law_pop_undoes_push(history: Seq<Message>, message: Message)
    ensures
        popped(pushed(history, message)) == (Some(message), history),
{
    assert(pushed(history, message).drop_last() =~= history);
}

/// A push appends at the end and keeps every earlier message where it was.
pub proof fn law_push_keeps_order(history: Seq<Message>, message: Message)
    ensures
        pushed(history, message).len() == history.len() + 1,
        forall|i: int| 0 <= i < history.len() ==> #[trigger] pushed(history, message)[i] == history[i],
        pushed(history, message).last() == message,
{
}

/// Cutting a history back to the length it had before some pushes restores it.
pub proof fn law_truncate_undoes_pushes(history: Seq<Message>, added: Seq<Message>)
    ensures
        cut_to(history + added, history.len()) == history,
{
    assert((history + added).take(history.len() as int) =~= history);
}

/// A history led by a system message stays led by that same message, and has
/// no other system message, however it is extended with non-system messages.
pub proof fn law_system_message_stays_first(before: Seq<Message>, after: Seq<Message>)
    requires
        led_by_system(before),
        extends_without_system(before, after),
    ensures
        led_by_system(after),
        after[0] == before[0],
{
    assert forall|i: int| 1 <= i < after.len() implies (#[trigger] after[i]).role != Role::System by {
        if i < before.len() {
            assert(after.take(before.len() as int)[i] == after[i]);
        }
    }
    assert(after.take(before.len() as int)[0] == after[0]);
}

/// Appending a message that is not a system message keeps an extension one.
pub proof fn lemma_push_extends(before: Seq<Message>, after: Seq<Message>, message: Message)
    requires
        extends_without_system(before, after),
        message.role != Role::System,
    ensures
        extends_without_system(before, pushed(after, message)),
{
    let p = pushed(after, message);
    assert(p.take(before.len() as int) =~= after.take(before.len() as int));
    assert forall|i: int| before.len() <= i < p.len() implies (#[trigger] p[i]).role != Role::System by {
        if i < after.len() {
            assert(p[i] == after[i]);
        }
    }
}

/// Every history extends itself.
pub proof fn law_extension_is_reflexive(history: Seq<Message>)
    ensures
        extends_without_system(history, history),
{
    assert(history.take(history.len() as int) =~= history);
}

/// Extending an extension extends the original.
pub proof fn law_extension_is_transitive(a: Seq<Message>, b: Seq<Message>, c: Seq<Message>)
    requires
        extends_without_system(a, b),
        extends_without_system(b, c),
    ensures
        extends_without_system(a, c),
{
    assert(c.take(a.len() as int) =~= b.take(a.len() as int)) by {
        assert forall|i: int| 0 <= i < a.len() implies c.take(a.len() as int)[i] == b.take(a.len() as int)[i] by {
            assert(c.take(b.len() as int)[i] == c[i]);
        }
    }
    assert forall|i: int| a.len() <= i < c.len() implies (#[trigger] c[i]).role != Role::System by {
        if i < b.len() {
            assert(c.take(b.len() as int)[i] == c[i]);
        }
    }
}

} // verus!
