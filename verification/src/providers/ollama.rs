use vstd::prelude::*;
use vstd::string::{StrSliceExecFns, StringExecFns};
use crate::error::MidnaError;

verus! {

/// How long a request to Ollama may take.
pub const DEFAULT_TIMEOUT_SECS: u64 = 120;

/// The Ollama runtime that the conversation is held with: where it listens and
/// which model it runs.
#[derive(Debug)]
pub struct OllamaProvider {
    host: String,
    model: String,
}

/// The number of slashes at the end of `s`.
pub open spec fn trailing_slashes(s: Seq<char>) -> nat
    decreases s.len(),
{
    if s.len() > 0 && s.last() == '/' {
        1 + trailing_slashes(s.drop_last())
    } else {
        0
    }
}

/// `s` without the slashes at its end.
pub open spec fn without_trailing_slashes(s: Seq<char>) -> Seq<char> {
    s.take(s.len() - trailing_slashes(s))
}

proof fn lemma_trailing_slashes(s: Seq<char>, k: int)
    requires
        0 <= k <= s.len(),
        forall|j: int| s.len() - k <= j < s.len() ==> #[trigger] s[j] == '/',
        k == s.len() || s[s.len() - k - 1] != '/',
    ensures
        trailing_slashes(s) == k,
    decreases k,
{
    if k > 0 {
        lemma_trailing_slashes(s.drop_last(), k - 1);
    }
}

/// The slice of `s` without the slashes at its end.
fn trim_trailing_slashes(s: &str) -> (r: &str)
    ensures
        r@ == without_trailing_slashes(s@),
{
    let n = s.unicode_len();
    let mut end = n;
    while end > 0 && s.get_char(end - 1) == '/'
        invariant
            n == s@.len(),
            end <= n,
            forall|j: int| end <= j < n ==> #[trigger] s@[j] == '/',
        decreases end,
    {
        end = end - 1;
    }
    proof {
        lemma_trailing_slashes(s@, (n - end) as int);
    }
    s.substring_char(0, end)
}

/// The address of the chat endpoint of the runtime at `host`.
pub open spec fn chat_endpoint(host: Seq<char>) -> Seq<char> {
    without_trailing_slashes(host) + "/api/chat"@
}

/// The message for a runtime that answered with a status other than success.
pub open spec fn status_error_text(status: Seq<char>, body: Seq<char>, model: Seq<char>) -> Seq<char> {
    "Ollama returned "@ + status + ": "@ + body + ". Have you pulled the model `"@ + model
        + "` (try `ollama pull "@ + model + "`)?"@
}

/// The message for a runtime that could not be reached in time.
pub open spec fn unreachable_text(cause: Seq<char>, url: Seq<char>) -> Seq<char> {
    cause + " ("@ + url + "). Is `ollama serve` running and reachable?"@
}

impl OllamaProvider {
    /// The runtime at `host`, running `model`.
    pub fn new(host: &str, model: &str) -> (r: Self)
        ensures
            r.host_text() == host@,
            r.model_text() == model@,
    {
        OllamaProvider { host: host.to_owned(), model: model.to_owned() }
    }

    pub closed spec fn host_text(&self) -> Seq<char> {
        self.host@
    }

    pub closed spec fn model_text(&self) -> Seq<char> {
        self.model@
    }

    pub fn model(&self) -> (r: &str)
        ensures
            r@ == self.model_text(),
    {
        self.model.as_str()
    }

    pub fn host(&self) -> (r: &str)
        ensures
            r@ == self.host_text(),
    {
        self.host.as_str()
    }

    /// The name of this kind of provider.
    pub fn name(&self) -> (r: &'static str)
        ensures
            r@ == "ollama"@,
    {
        "ollama"
    }

    /// The address of the chat endpoint: the host without trailing slashes,
    /// then `/api/chat`.
    pub fn chat_url(&self) -> (r: String)
        ensures
            r@ == chat_endpoint(self.host_text()),
    {
        let mut url = trim_trailing_slashes(self.host.as_str()).to_owned();
        url.append("/api/chat");
        url
    }

    /// The error for a reply whose status is not a success: it names the
    /// status, the body, and the model, with a hint to pull it.
    pub fn status_error(&self, status: &str, body: &str) -> (r: MidnaError)
        ensures
            r matches MidnaError::Provider(m) && m@ == status_error_text(status@, body@, self.model_text()),
    {
        let mut m = "Ollama returned ".to_owned();
        m.append(status);
        m.append(": ");
        m.append(body);
        m.append(". Have you pulled the model `");
        m.append(self.model.as_str());
        m.append("` (try `ollama pull ");
        m.append(self.model.as_str());
        m.append("`)?");
        MidnaError::Provider(m)
    }
}

/// The error for a request to `url` that failed to be sent: a failure to
/// connect or a timeout becomes a connection error with a hint to start the
/// runtime; any other failure stays an HTTP error.
pub fn send_error(url: &str, unreachable: bool, cause: &str) -> (r: MidnaError)
    ensures
        unreachable ==> (r matches MidnaError::Connect(m) && m@ == unreachable_text(cause@, url@)),
        !unreachable ==> (r matches MidnaError::Http(m) && m@ == cause@),
{
    if unreachable {
        let mut m = cause.to_owned();
        m.append(" (");
        m.append(url);
        m.append("). Is `ollama serve` running and reachable?");
        MidnaError::Connect(m)
    } else {
        MidnaError::Http(cause.to_owned())
    }
}

} // verus!
