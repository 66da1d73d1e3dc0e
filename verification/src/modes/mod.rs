use vstd::prelude::*;
use crate::text::{str_eq, trim, trimmed};

pub mod agent;
pub mod chat;

verus! {

/// What a line typed at the prompt asks for.
#[derive(Debug)]
pub enum Input {
    /// Nothing but white space: prompt again.
    Skip,
    /// `exit` or `quit`: end the session.
    Quit,
    /// Anything else: send the text, without its surrounding white space.
    Send(String),
}

/// Whether a trimmed line is one of the words that end a session.
pub open spec fn is_quit_word(t: Seq<char>) -> bool {
    t == "exit"@ || t == "quit"@
}

/// Reads a line typed at the prompt: blank lines are skipped, `exit` and `quit`
/// end the session, anything else is sent without its surrounding white space.
pub fn classify_input(line: &str) -> (r: Input)
    ensures
        (r is Skip) <==> trimmed(line@).len() == 0,
        (r is Quit) <==> is_quit_word(trimmed(line@)),
        (r is Send) <==> (trimmed(line@).len() > 0 && !is_quit_word(trimmed(line@))),
        r matches Input::Send(t) ==> t@ == trimmed(line@),
{
    proof {
        reveal_strlit("exit");
        reveal_strlit("quit");
    }
    let t = trim(line);
    if t.is_empty() {
        Input::Skip
    } else if str_eq(t, "exit") || str_eq(t, "quit") {
        Input::Quit
    } else {
        Input::Send(t.to_owned())
    }
}

/// Whether an answer to a confirmation question says yes: `y`, `Y` or `yes`,
/// around which white space is ignored.
pub open spec fn approves(answer: Seq<char>) -> bool {
    let t = trimmed(answer);
    t == "y"@ || t == "Y"@ || t == "yes"@
}

/// Exactly three answers approve, once surrounding white space is dropped:
/// `y`, `Y` and `yes`. Every other answer, such as `N`, `n` or `no`, refuses.
pub proof fn law_only_yes_approves(answer: Seq<char>)
    ensures
        approves(answer) <==> (trimmed(answer) == seq!['y'] || trimmed(answer) == seq!['Y']
            || trimmed(answer) == seq!['y', 'e', 's']),
{
    reveal_strlit("y");
    reveal_strlit("Y");
    reveal_strlit("yes");
    assert("y"@ =~= seq!['y']);
    assert("Y"@ =~= seq!['Y']);
    assert("yes"@ =~= seq!['y', 'e', 's']);
}

/// Whether the user's answer allows the operation.
pub fn is_approval(answer: &str) -> (r: bool)
    ensures
        r == approves(answer@),
        r == (trimmed(answer@) == seq!['y'] || trimmed(answer@) == seq!['Y'] || trimmed(answer@)
            == seq!['y', 'e', 's']),
{
    proof {
        law_only_yes_approves(answer@);
    }
    let t = trim(answer);
    str_eq(t, "y") || str_eq(t, "Y") || str_eq(t, "yes")
}

} // verus!
