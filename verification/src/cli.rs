use vstd::prelude::*;

verus! {

/// The model used when none is named.
pub const DEFAULT_MODEL: &'static str = "llama3.1:8b";

/// The runtime address used when none is named.
pub const DEFAULT_HOST: &'static str = "http://localhost:11434";

/// The command line: a mode, the model and runtime to use, and whether to
/// log verbosely.
#[derive(Debug)]
pub struct Cli {
    /// Without a mode the agent starts, with tools.
    pub command: Option<Command>,
    /// Model name to use with the provider.
    pub model: String,
    /// Host URL of the Ollama-compatible runtime.
    pub host: String,
    /// Enable verbose tracing output (debug level).
    pub verbose: bool,
}

/// The modes of the program.
#[derive(Debug, Clone, Copy, PartialEq, Eq, Structural)]
pub enum Command {
    /// An agent that can read and write files and run shell commands (the default).
    Agent,
    /// A plain chat without tools.
    Chat,
}

impl Cli {
    /// The mode to run: the one named, the agent when none is.
    pub fn mode(&self) -> (r: Command)
        ensures
            r == match self.command {
                Some(c) => c,
                None => Command::Agent,
            },
    {
        match self.command {
            Some(c) => c,
            None => Command::Agent,
        }
    }
}

} // verus!
