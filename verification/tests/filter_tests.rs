use grpc_logger::filter::{default_log_all_messages, is_internal_message};
use grpc_logger::msg::LogMessage;

fn plain_message(target: Option<&str>, text: &str) -> LogMessage {
    LogMessage {
        timestamp: None,
        level: Some("INFO".to_string()),
        message: text.to_string(),
        target: target.map(|t| t.to_string()),
        thread_id: None,
        file: None,
        line: None,
        server_id: None,
        target_client_id: None,
    }
}

#[test]
fn transport_namespace_prefixes_are_internal() {
    for prefix in [
        "h2::frame",
        "tonic::server",
        "hyper::proto",
        "tower::buffer",
        "runtime::task",
        "http::request",
        "Connection{peer=1.2.3.4}",
    ] {
        let msg = plain_message(Some(prefix), "anything at all");
        assert!(is_internal_message(&msg), "{prefix} should be internal");
    }
}

#[test]
fn application_target_is_not_internal() {
    let msg = plain_message(Some("myapp::worker"), "job finished");
    assert!(!is_internal_message(&msg));
}

#[test]
fn missing_target_is_not_internal_by_itself() {
    let msg = plain_message(None, "job finished");
    assert!(!is_internal_message(&msg));
}

#[test]
fn chatter_phrases_are_internal() {
    for text in [
        "send frame=HEADERS",
        "transition_after(Idle)",
        "writing frame=DATA",
        "encoding RESET stream",
        "flushing buffer now",
        "connection established with peer",
        "connection closed by remote",
        "will resend shortly",
        "polling the reactor",
    ] {
        let msg = plain_message(None, text);
        assert!(is_internal_message(&msg), "{text:?} should be internal");
    }
}

#[test]
fn prefix_must_be_at_the_start() {
    let msg = plain_message(Some("my_h2::thing"), "job finished");
    assert!(!is_internal_message(&msg));
}

#[test]
fn log_all_defaults_to_off() {
    assert!(!default_log_all_messages());
}
