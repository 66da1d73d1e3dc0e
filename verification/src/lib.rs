// Midna: a local-first AI agent. This library holds its verified logic: the
// conversation history, the permission policy, the built-in tools' argument
// handling and result shaping, the agent's turn state machine, and the
// Ollama provider's endpoint and error messages.

pub mod cli;
pub mod error;
pub mod json;
pub mod modes;
pub mod permissions;
pub mod providers;
pub mod session;
pub mod text;
pub mod tools;
