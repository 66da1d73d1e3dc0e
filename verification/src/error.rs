use vstd::prelude::*;
use vstd::string::StringExecFns;

verus! {

/// The errors that the library reports.
///
/// Failures that come from outside (the file system, the HTTP client, the JSON
/// codec) carry the text that the failing component gave for them.
#[derive(Debug)]
pub enum MidnaError {
    Io(String),
    Http(String),
    Json(String),
    Connect(String),
    Provider(String),
    Tool(String),
}

/// The prefix that introduces each kind of error in its message.
pub open spec fn error_prefix(e: MidnaError) -> Seq<char> {
    match e {
        MidnaError::Io(_) => "I/O error: "@,
        MidnaError::Http(_) => "HTTP error: "@,
        MidnaError::Json(_) => "JSON error: "@,
        MidnaError::Connect(_) => "could not connect to LLM provider: "@,
        MidnaError::Provider(_) => "provider error: "@,
        MidnaError::Tool(_) => "tool error: "@,
    }
}

/// The text that an error carries.
pub open spec fn error_detail(e: MidnaError) -> Seq<char> {
    match e {
        MidnaError::Io(s) => s@,
        MidnaError::Http(s) => s@,
        MidnaError::Json(s) => s@,
        MidnaError::Connect(s) => s@,
        MidnaError::Provider(s) => s@,
        MidnaError::Tool(s) => s@,
    }
}

/// The message that an error is shown with.
pub open spec fn error_text(e: MidnaError) -> Seq<char> {
    error_prefix(e) + error_detail(e)
}

impl MidnaError {
    /// The message that this error is shown with: its kind, then its detail.
    pub fn message(&self) -> (r: String)
        ensures
            r@ == error_text(*self),
    {
        let (prefix, detail): (&str, &String) = match self {
            MidnaError::Io(s) => ("I/O error: ", s),
            MidnaError::Http(s) => ("HTTP error: ", s),
            MidnaError::Json(s) => ("JSON error: ", s),
            MidnaError::Connect(s) => ("could not connect to LLM provider: ", s),
            MidnaError::Provider(s) => ("provider error: ", s),
            MidnaError::Tool(s) => ("tool error: ", s),
        };
        let mut r = prefix.to_owned();
        r.append(detail.as_str());
        r
    }
}

} // verus!
