use grpc_logger::protocol::{
    client_type_code, client_type_from_code, make_ack, ClientType, Subscription,
    SubscriptionState,
};
use grpc_logger::registry::LoggingService;
use grpc_logger::ConnectionInfo;
use tokio::sync::mpsc::unbounded_channel;

fn info(client_id: &str, client_type: i32) -> ConnectionInfo {
    ConnectionInfo {
        client_id: client_id.to_string(),
        client_type,
        server_name: "relay-east".to_string(),
    }
}

#[test]
fn wire_codes_classify_callers() {
    assert_eq!(client_type_from_code(1), ClientType::Server);
    assert_eq!(client_type_from_code(2), ClientType::WebClient);
    assert_eq!(client_type_from_code(0), ClientType::Unknown);
    assert_eq!(client_type_from_code(99), ClientType::Unknown);
    assert_eq!(client_type_from_code(-1), ClientType::Unknown);
}

#[test]
fn codes_round_trip() {
    for t in [ClientType::Server, ClientType::WebClient, ClientType::Unknown] {
        assert_eq!(client_type_from_code(client_type_code(t)), t);
    }
}

#[test]
fn the_acknowledgement_is_addressed_and_labelled() {
    let ack = make_ack(
        &"web1".to_string(),
        "2024-01-01T00:00:00+00:00".to_string(),
    );
    assert_eq!(ack.message, "Test message for web client web1");
    assert_eq!(ack.level.as_deref(), Some("INFO"));
    assert_eq!(ack.target_client_id.as_deref(), Some("web1"));
    assert_eq!(ack.timestamp.as_deref(), Some("2024-01-01T00:00:00+00:00"));
    assert_eq!(ack.target, None);
    assert_eq!(ack.server_id, None);
}

#[test]
fn a_connection_walks_through_its_states() {
    let mut svc = LoggingService::new();
    let (tx, _rx) = unbounded_channel();

    let mut sub = Subscription::connect(info("web1", 2));
    assert_eq!(sub.state, SubscriptionState::Connecting);
    assert_eq!(sub.client_type, ClientType::WebClient);

    sub.register_channel(&mut svc, tx);
    assert_eq!(sub.state, SubscriptionState::Registered);

    sub.begin_streaming();
    assert_eq!(sub.state, SubscriptionState::Streaming);

    sub.terminate(&mut svc);
    assert_eq!(sub.state, SubscriptionState::Terminated);
    assert!(svc.snapshot().is_empty());
}

#[test]
fn a_web_client_gets_the_one_time_acknowledgement() {
    let mut svc = LoggingService::new();
    let (tx, mut rx) = unbounded_channel();

    let mut sub = Subscription::connect(info("web1", 2));
    sub.register_channel(&mut svc, tx);

    let ack = rx.try_recv().expect("the acknowledgement");
    assert_eq!(ack.message, "Test message for web client web1");
    assert_eq!(ack.level.as_deref(), Some("INFO"));
    assert_eq!(ack.target_client_id.as_deref(), Some("web1"));
    assert!(ack.timestamp.is_some());
    assert!(rx.try_recv().is_err(), "exactly one acknowledgement");
}

#[test]
fn a_server_peer_gets_no_acknowledgement() {
    let mut svc = LoggingService::new();
    let (tx, mut rx) = unbounded_channel();

    let mut sub = Subscription::connect(info("peer-1", 1));
    sub.register_channel(&mut svc, tx);
    assert!(rx.try_recv().is_err());
    assert_eq!(svc.snapshot(), vec!["peer-1".to_string()]);
}

#[test]
fn the_acknowledgement_reaches_nobody_else() {
    let mut svc = LoggingService::new();
    let (tx_old, mut rx_old) = unbounded_channel();
    svc.register("bystander".to_string(), tx_old);

    let (tx, mut rx) = unbounded_channel();
    let mut sub = Subscription::connect(info("web1", 2));
    sub.register_channel(&mut svc, tx);

    assert!(rx_old.try_recv().is_err());
    assert!(rx.try_recv().is_ok());
}

#[test]
fn termination_leaves_other_subscribers_in_place() {
    let mut svc = LoggingService::new();
    let (tx_a, _rx_a) = unbounded_channel();
    svc.register("a".to_string(), tx_a);

    let (tx, _rx) = unbounded_channel();
    let mut sub = Subscription::connect(info("web1", 0));
    sub.register_channel(&mut svc, tx);
    assert_eq!(svc.snapshot(), vec!["a".to_string(), "web1".to_string()]);

    sub.terminate(&mut svc);
    assert_eq!(svc.snapshot(), vec!["a".to_string()]);
}
