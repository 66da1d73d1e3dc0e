use vstd::prelude::*;
use vstd::string::StringExecFns;
use vstd::utf8::{decode_utf8, valid_utf8};
use crate::error::MidnaError;
use crate::text::{decimal, push_decimal, push_signed_decimal, signed_decimal, truncate_to_bytes, truncated};
use crate::tools::{Tool, ToolKind};

verus! {

/// How long a command may run before it is given up on, so that a hanging
/// command does not stall the agent.
pub const COMMAND_TIMEOUT_SECS: u64 = 60;

/// The most bytes of command output that are handed to the model.
pub const MAX_OUTPUT_BYTES: usize = 32 * 1024;

/// The tool that runs a shell command.
#[derive(Debug, Clone, Copy)]
pub struct RunShell;

impl Tool for RunShell {
    open spec fn tool_kind(&self) -> ToolKind {
        ToolKind::RunShell
    }

    fn kind(&self) -> (k: ToolKind) {
        ToolKind::RunShell
    }
}

/// The text that `String::from_utf8_lossy` makes of the given bytes.
pub uninterp spec fn lossy_utf8(bytes: Seq<u8>) -> Seq<char>;

/// Decodes bytes as UTF-8 with `String::from_utf8_lossy`. Its documentation
/// says that valid UTF-8 is decoded as it is and that each invalid sequence
/// becomes U+FFFD, so text comes out exactly when bytes go in. The replacement
/// rule itself is not written out; the result is otherwise named.
#[verifier::external_body]
fn decode_lossy(bytes: &[u8]) -> (r: String)
    ensures
        r@ == lossy_utf8(bytes@),
        valid_utf8(bytes@) ==> r@ == decode_utf8(bytes@),
        (r@.len() == 0) == (bytes@.len() == 0),
{
    String::from_utf8_lossy(bytes).into_owned()
}

/// What a finished command printed and how it ended.
#[derive(Debug)]
pub struct CommandOutput {
    pub stdout: Vec<u8>,
    pub stderr: Vec<u8>,
    /// The exit code; `None` when the command was ended by a signal.
    pub code: Option<i32>,
}

/// Why a command gave no output.
#[derive(Debug)]
pub enum ShellFailure {
    /// It ran longer than `COMMAND_TIMEOUT_SECS`.
    TimedOut,
    /// It could not be started.
    Spawn(String),
}

/// The standard output, then the standard error under a `[stderr]` heading;
/// an empty stream is left out.
pub open spec fn shell_body(out: Seq<char>, err: Seq<char>) -> Seq<char> {
    let head = if out.len() > 0 { out } else { Seq::empty() };
    if err.len() > 0 {
        head + "\n[stderr]\n"@ + err
    } else {
        head
    }
}

/// How the exit code is shown.
pub open spec fn exit_code_text(code: Option<i32>) -> Seq<char> {
    match code {
        Some(c) => signed_decimal(c as int),
        None => "unknown"@,
    }
}

/// The report of a finished command: its output, cut to `MAX_OUTPUT_BYTES`
/// bytes, then its exit code.
pub open spec fn shell_report(out: Seq<char>, err: Seq<char>, code: Option<i32>) -> Seq<char> {
    truncated(shell_body(out, err), MAX_OUTPUT_BYTES as nat) + "\n[exit code: "@ + exit_code_text(code)
        + "]"@
}

/// The report of a command: what it printed to standard output and standard
/// error, cut to `MAX_OUTPUT_BYTES` bytes at a character boundary, and its exit
/// code; a tool error when it timed out or could not be started.
pub fn run_shell_output(command: &str, ran: Result<CommandOutput, ShellFailure>) -> (r: Result<
    String,
    MidnaError,
>)
    ensures
        match ran {
            Ok(o) => {
                &&& r matches Ok(text) && text@ == shell_report(
                    lossy_utf8(o.stdout@),
                    lossy_utf8(o.stderr@),
                    o.code,
                )
                // a stream shows up in the report exactly when the command printed to it
                &&& (lossy_utf8(o.stdout@).len() == 0 <==> o.stdout@.len() == 0)
                &&& (lossy_utf8(o.stderr@).len() == 0 <==> o.stderr@.len() == 0)
                // output that is valid UTF-8 is reported as it is
                &&& (valid_utf8(o.stdout@) && valid_utf8(o.stderr@) ==> (r matches Ok(text) && text@
                    == shell_report(decode_utf8(o.stdout@), decode_utf8(o.stderr@), o.code)))
            },
            Err(ShellFailure::TimedOut) => r matches Err(MidnaError::Tool(m)) && m@ == "command timed out after "@
                + decimal(COMMAND_TIMEOUT_SECS as nat) + "s: "@ + command@,
            Err(ShellFailure::Spawn(cause)) => r matches Err(MidnaError::Tool(m)) && m@
                == "failed to run command: "@ + cause@,
        },
{
    match ran {
        Ok(o) => {
            let stdout = decode_lossy(o.stdout.as_slice());
            let stderr = decode_lossy(o.stderr.as_slice());
            let mut body = String::new();
            if !stdout.as_str().is_empty() {
                body.append(stdout.as_str());
            }
            if !stderr.as_str().is_empty() {
                body.append("\n[stderr]\n");
                body.append(stderr.as_str());
            }
            assert(body@ =~= shell_body(stdout@, stderr@));
            let mut text = truncate_to_bytes(body, MAX_OUTPUT_BYTES);
            text.append("\n[exit code: ");
            match o.code {
                Some(c) => push_signed_decimal(&mut text, c as i64),
                None => text.append("unknown"),
            }
            text.append("]");
            Ok(text)
        },
        Err(ShellFailure::TimedOut) => {
            let mut m = "command timed out after ".to_owned();
            push_decimal(&mut m, COMMAND_TIMEOUT_SECS);
            m.append("s: ");
            m.append(command);
            Err(MidnaError::Tool(m))
        },
        Err(ShellFailure::Spawn(cause)) => {
            let mut m = "failed to run command: ".to_owned();
            m.append(cause.as_str());
            Err(MidnaError::Tool(m))
        },
    }
}

} // verus!
