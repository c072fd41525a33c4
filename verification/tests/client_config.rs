use orchestrator::client::config::{BaseUrlError, OrchestratorBaseUrl, UrlError};
use orchestrator::client::error_causes_text;
use orchestrator::client::signaling::{incoming_message, registration_outcome, retries_after, ClientError, Incoming, ReceiveError};
use orchestrator::shared::error::RegistrationError;
use orchestrator::shared::register::RegisterResponse;
use orchestrator::websocket::DialedMessage;

#[test]
fn register_endpoint() {
    let url = OrchestratorBaseUrl::from_str("https://localhost").ok().unwrap();
    let ws_url = url.register_endpoint().ok().unwrap();

    assert_eq!(ws_url.as_str(), "wss://localhost/register")
}

#[test]
fn register_endpoint_trailing_slash() {
    let url = OrchestratorBaseUrl::from_str("http://localhost/").ok().unwrap();

    let ws_url = url.register_endpoint().ok().unwrap();
    assert_eq!(ws_url.as_str(), "ws://localhost/register")
}

#[test]
fn websocket_url_with_path() {
    let url = OrchestratorBaseUrl::from_str("https://localhost/proxy_path/").ok().unwrap();

    let ws_url = url.register_endpoint().ok().unwrap();
    assert_eq!(ws_url.as_str(), "wss://localhost/proxy_path/register")
}

#[test]
fn invalid_scheme() {
    match OrchestratorBaseUrl::from_str("file://localhost/") {
        Ok(_) => panic!("expected error"),
        Err(e) => match e {
            UrlError::InvalidScheme(_) => (),
            _ => panic!("Expected different error"),
        },
    }
}

#[test]
fn invalid_path() {
    match OrchestratorBaseUrl::from_str("https://localhost/proxy_path") {
        Ok(_) => panic!("expected error"),
        Err(e) => match e {
            UrlError::NotABaseUrl(BaseUrlError::InvalidPath(_)) => (),
            _ => panic!("Expected different error"),
        },
    }
}

#[test]
fn with_query() {
    match OrchestratorBaseUrl::from_str("https://localhost/proxy_path?foo=bar") {
        Ok(_) => panic!("expected error"),
        Err(e) => match e {
            UrlError::NotABaseUrl(BaseUrlError::InvalidPath(_)) => (),
            _ => panic!("Expected different error"),
        },
    }
}

#[test]
fn base_url_query_on_base_path_is_refused_with_the_query() {
    match OrchestratorBaseUrl::from_str("https://localhost/?foo=bar") {
        Err(UrlError::NotABaseUrl(BaseUrlError::QueryNotSupported(q))) => assert_eq!(q, "foo=bar"),
        _ => panic!("expected a query error"),
    }
}

#[test]
fn base_url_path_error_carries_the_path() {
    match OrchestratorBaseUrl::from_str("http://0.0.0.0:1234/hmmm.txt") {
        Err(UrlError::NotABaseUrl(BaseUrlError::InvalidPath(p))) => assert_eq!(p, "/hmmm.txt"),
        _ => panic!("expected a path error"),
    }
}

#[test]
fn base_url_scheme_error_carries_the_scheme() {
    match OrchestratorBaseUrl::from_str("file://0.0.0.0") {
        Err(UrlError::InvalidScheme(s)) => assert_eq!(s, "file"),
        _ => panic!("expected a scheme error"),
    }
}

#[test]
fn base_url_that_is_no_url_is_a_parse_error() {
    assert!(matches!(OrchestratorBaseUrl::from_str("not a url"), Err(UrlError::Parse(_))));
}

#[test]
fn base_url_text_is_the_normalized_url() {
    let url = OrchestratorBaseUrl::from_str("HTTP://0.0.0.0:1234").ok().unwrap();
    assert_eq!(url.to_text(), "http://0.0.0.0:1234/");
    assert_eq!(url.inner().path(), "/");
}

#[test]
fn received_text_and_binary_messages_are_payloads() {
    match incoming_message(Some(DialedMessage::Text("{}".to_string()))) {
        Ok(Incoming::Payload(p)) => assert_eq!(p, "{}"),
        _ => panic!("expected a payload"),
    }
    match incoming_message(Some(DialedMessage::Binary(b"[1]".to_vec()))) {
        Ok(Incoming::Payload(p)) => assert_eq!(p, "[1]"),
        _ => panic!("expected a payload"),
    }
    assert!(matches!(incoming_message(Some(DialedMessage::Binary(vec![0xff, 0xfe]))), Err(ReceiveError::NonUtf8)));
    assert!(matches!(incoming_message(Some(DialedMessage::Close(None))), Err(ReceiveError::Closed)));
    assert!(matches!(incoming_message(None), Err(ReceiveError::Disconnected)));
    assert!(matches!(incoming_message(Some(DialedMessage::Ping(vec![1]))), Ok(Incoming::Skip)));
}

#[test]
fn registration_answer_is_passed_on() {
    assert!(registration_outcome(RegisterResponse::Success).is_ok());
    assert_eq!(
        registration_outcome(RegisterResponse::Error(RegistrationError::UnknownApiKeyIds)),
        Err(RegistrationError::UnknownApiKeyIds)
    );
}

#[test]
fn only_recoverable_errors_are_retried() {
    assert!(retries_after(&ClientError::Recoverable("network".to_string())));
    assert!(!retries_after(&ClientError::UnresolvedResourceConflict));
}

#[test]
fn error_causes_are_numbered_after_the_error() {
    let chain = vec!["top".to_string(), "first cause".to_string(), "second cause".to_string()];
    assert_eq!(error_causes_text(&chain), "Caused by:\n  0: first cause\n  1: second cause");
    assert_eq!(error_causes_text(&vec!["only".to_string()]), "Caused by:");
}

/// A base URL is read from a JSON string through its text form.
fn base_url_from_json(value: serde_json::Value) -> Result<OrchestratorBaseUrl, UrlError> {
    let text: String = serde_json::from_value(value).unwrap();
    OrchestratorBaseUrl::from_str(&text)
}

#[test]
fn deserialize() {
    let json = serde_json::Value::String("http://0.0.0.0:1234".to_string());

    let orchestrator_url = base_url_from_json(json).ok().unwrap();

    assert_eq!(
        orchestrator_url.to_text(),
        OrchestratorBaseUrl::from_str("http://0.0.0.0:1234").ok().unwrap().to_text()
    )
}

#[test]
fn deserialize_invalid_scheme() {
    let json = serde_json::Value::String("file://0.0.0.0".to_string());

    if base_url_from_json(json).is_ok() {
        panic!("expected error")
    }
}

#[test]
fn deserialize_invalid_path() {
    let json = serde_json::Value::String("http://0.0.0.0:1234/hmmm.txt".to_string());

    if base_url_from_json(json).is_ok() {
        panic!("expected error")
    }
}

#[test]
fn deserialize_query() {
    let json = serde_json::Value::String("http://0.0.0.0:1234?foo=bar".to_string());

    if base_url_from_json(json).is_ok() {
        panic!("expected error")
    }
}
