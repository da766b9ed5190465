use grpc_logger::adapter::{adapt_event, message_is_blank, process_event, RawEvent};
use grpc_logger::config::LogFieldsConfig;
use grpc_logger::numfmt::u32_to_string;
use grpc_logger::registry::LoggingService;
use tokio::sync::mpsc::unbounded_channel;

fn raw_event(message: &str) -> RawEvent {
    RawEvent {
        level: "INFO".to_string(),
        message: message.to_string(),
        target: "myapp::worker".to_string(),
        thread_id: "ThreadId(1)".to_string(),
        file: Some("src/worker.rs".to_string()),
        line: Some(42),
    }
}

fn all_fields_on() -> LogFieldsConfig {
    LogFieldsConfig {
        include_thread_id: true,
        include_target: true,
        include_file: true,
        include_line: true,
        include_timestamp: true,
    }
}

fn all_fields_off() -> LogFieldsConfig {
    LogFieldsConfig {
        include_thread_id: false,
        include_target: false,
        include_file: false,
        include_line: false,
        include_timestamp: false,
    }
}

#[test]
fn disabled_fields_stay_absent() {
    let msg = adapt_event(raw_event("job finished"), &all_fields_off(), &None);
    assert_eq!(msg.message, "job finished");
    assert_eq!(msg.level.as_deref(), Some("INFO"));
    assert_eq!(msg.timestamp, None);
    assert_eq!(msg.target, None);
    assert_eq!(msg.thread_id, None);
    assert_eq!(msg.file, None);
    assert_eq!(msg.line, None);
    assert_eq!(msg.server_id, None);
    assert_eq!(msg.target_client_id, None);
}

#[test]
fn enabled_fields_are_populated() {
    let msg = adapt_event(
        raw_event("job finished"),
        &all_fields_on(),
        &Some("relay-1".to_string()),
    );
    assert_eq!(msg.message, "job finished");
    assert_eq!(msg.level.as_deref(), Some("INFO"));
    assert_eq!(msg.target.as_deref(), Some("myapp::worker"));
    assert_eq!(msg.thread_id.as_deref(), Some("ThreadId(1)"));
    assert_eq!(msg.file.as_deref(), Some("src/worker.rs"));
    assert_eq!(msg.line.as_deref(), Some("42"));
    assert_eq!(msg.server_id.as_deref(), Some("relay-1"));
    assert_eq!(msg.target_client_id, None);
    let ts = msg.timestamp.expect("timestamp enabled");
    assert!(!ts.is_empty());
}

#[test]
fn missing_provenance_gets_placeholders() {
    let mut ev = raw_event("job finished");
    ev.file = None;
    ev.line = None;
    let msg = adapt_event(ev, &all_fields_on(), &None);
    assert_eq!(msg.file.as_deref(), Some("unknown"));
    assert_eq!(msg.line.as_deref(), Some("0"));
}

#[test]
fn relay_identity_rides_along_regardless_of_flags() {
    let msg = adapt_event(
        raw_event("job finished"),
        &all_fields_off(),
        &Some("relay-9".to_string()),
    );
    assert_eq!(msg.server_id.as_deref(), Some("relay-9"));
}

#[test]
fn line_numbers_render_in_decimal() {
    assert_eq!(u32_to_string(0), "0");
    assert_eq!(u32_to_string(7), "7");
    assert_eq!(u32_to_string(10), "10");
    assert_eq!(u32_to_string(105), "105");
    assert_eq!(u32_to_string(4294967295), "4294967295");
}

#[test]
fn blankness_means_whitespace_throughout() {
    assert!(message_is_blank(""));
    assert!(message_is_blank("   "));
    assert!(message_is_blank(" \t\n "));
    assert!(!message_is_blank(" x "));
    assert!(!message_is_blank("job finished"));
}

#[test]
fn blank_events_are_not_relayed() {
    let mut svc = LoggingService::new();
    let (tx, mut rx) = unbounded_channel();
    svc.register("a".to_string(), tx);

    process_event(&mut svc, raw_event("   "), &all_fields_off(), &None, None);
    assert!(rx.try_recv().is_err());
}

#[test]
fn events_flow_through_to_subscribers() {
    let mut svc = LoggingService::new();
    let (tx, mut rx) = unbounded_channel();
    svc.register("a".to_string(), tx);

    process_event(
        &mut svc,
        raw_event("job finished"),
        &all_fields_off(),
        &None,
        None,
    );
    let got = rx.try_recv().expect("one message");
    assert_eq!(got.message, "job finished");
}

#[test]
fn an_event_with_a_client_id_goes_to_that_client_alone() {
    let mut svc = LoggingService::new();
    let (tx_a, mut rx_a) = unbounded_channel();
    let (tx_b, mut rx_b) = unbounded_channel();
    svc.register("a".to_string(), tx_a);
    svc.register("b".to_string(), tx_b);

    process_event(
        &mut svc,
        raw_event("private note"),
        &all_fields_off(),
        &None,
        Some("a".to_string()),
    );
    assert_eq!(rx_a.try_recv().expect("delivered").message, "private note");
    assert!(rx_b.try_recv().is_err());
}
