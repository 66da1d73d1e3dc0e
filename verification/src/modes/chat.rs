use vstd::prelude::*;
use crate::error::MidnaError;
use crate::providers::{Message, Role, plain_message};
use crate::session::{Session, popped, pushed};

verus! {

/// How the assistant introduces itself to the model in a plain chat.
pub const SYSTEM_PROMPT: &'static str = "You are Midna, a local-first AI assistant running on the user's machine. Be concise and helpful.";

/// Begins an exchange: the user's text joins the conversation.
pub fn begin_exchange(session: &mut Session, text: &str)
    ensures
        final(session)@ == pushed(old(session)@, final(session)@.last()),
        final(session)@.last()@ == plain_message(Role::User, text@),
{
    session.push(Message::user(text));
}

/// Ends an exchange with the model's answer: a reply joins the conversation
/// and its text is handed back to be shown; on an error the user's message is
/// taken back, so that the next exchange does not carry the failed question.
pub fn finish_exchange(session: &mut Session, reply: Result<Message, MidnaError>) -> (r: Result<
    String,
    MidnaError,
>)
    ensures
        match reply {
            Ok(m) => (r matches Ok(text) && text@ == m.content@) && final(session)@ == pushed(
                old(session)@,
                m,
            ),
            Err(e) => r == Err::<String, MidnaError>(e) && final(session)@ == popped(old(session)@).1,
        },
{
    match reply {
        Ok(m) => {
            let text = m.content.clone();
            session.push(m);
            Ok(text)
        },
        Err(e) => {
            let _ = session.pop();
            Err(e)
        },
    }
}

/// A failed exchange leaves the conversation as it was before the user's
/// text: `begin_exchange` pushes the question, and `finish_exchange` with an
/// error pops it again.
pub proof fn law_failed_exchange_restores(history: Seq<Message>, question: Message)
    ensures
        popped(pushed(history, question)).1 == history,
{
    assert(pushed(history, question).drop_last() =~= history);
}

/// A successful exchange leaves the conversation as it was, followed by the
/// question and the reply.
pub proof fn law_successful_exchange_appends(history: Seq<Message>, question: Message, reply: Message)
    ensures
        pushed(pushed(history, question), reply) == history + seq![question, reply],
{
    assert(pushed(pushed(history, question), reply) =~= history + seq![question, reply]);
}

} // verus!
