use midna::error::MidnaError;
use midna::providers::ollama::{send_error, OllamaProvider};

#[test]
fn chat_url_drops_trailing_slashes() {
    let p = OllamaProvider::new("http://localhost:11434//", "llama3.1:8b");
    assert_eq!(p.chat_url(), "http://localhost:11434/api/chat");
    let p = OllamaProvider::new("http://127.0.0.1:1", "m");
    assert_eq!(p.chat_url(), "http://127.0.0.1:1/api/chat");
    assert_eq!(p.host(), "http://127.0.0.1:1");
    assert_eq!(p.model(), "m");
    assert_eq!(p.name(), "ollama");
}

#[test]
fn returns_provider_error_on_non_2xx() {
    let provider = OllamaProvider::new("http://127.0.0.1:9", "llama3.1:8b");
    let err = provider.status_error("500 Internal Server Error", "boom");
    match err {
        MidnaError::Provider(msg) => {
            assert!(msg.contains("500"), "expected status in error: {msg}");
            assert!(msg.contains("llama3.1:8b"), "expected model hint in error: {msg}");
            assert_eq!(
                msg,
                "Ollama returned 500 Internal Server Error: boom. Have you pulled the model `llama3.1:8b` (try `ollama pull llama3.1:8b`)?"
            );
        }
        other => panic!("expected Provider error, got: {other:?}"),
    }
}

#[test]
fn returns_connect_error_when_host_unreachable() {
    let provider = OllamaProvider::new("http://127.0.0.1:1", "llama3.1:8b");
    let url = provider.chat_url();
    let err = send_error(&url, true, "error sending request");
    match err {
        MidnaError::Connect(msg) => {
            assert!(
                msg.contains("ollama serve"),
                "expected friendly hint in error: {msg}"
            );
        }
        other => panic!("expected Connect error, got: {other:?}"),
    }
    match send_error(&url, false, "bad body") {
        MidnaError::Http(msg) => assert_eq!(msg, "bad body"),
        other => panic!("expected Http error, got: {other:?}"),
    }
}
