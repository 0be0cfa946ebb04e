use mqbroker::host::manager::HostManager;
use mqbroker::host::vhost::VirtualHost;
use mqbroker::protocol::raw::{IOType, Raw, RawCommand, RawData, RawMessage};
use mqbroker::routing::key::RoutingKey;

fn direct(s0: &str, s1: &str, s2: &str, s3: &str) -> RoutingKey {
    RoutingKey::Direct(vec![s0.to_string(), s1.to_string(), s2.to_string(), s3.to_string()])
}

fn envelope(host: &str, payload: Raw, io_type: IOType) -> RawData {
    RawData {
        raw: payload,
        channel: "ch-0".to_string(),
        virtual_host: host.to_string(),
        routing_key: direct("", "", "", "orders"),
        io_type,
    }
}

#[test]
fn new_queue_push_fetch_then_empty_indicator() {
    // host "MQ_HOST", routing Direct(["","","","orders"])
    let mut hosts = HostManager::new();
    hosts.add("MQ_HOST".to_string(), VirtualHost::new("MQ_HOST".to_string()));

    let mut err: u16 = 0;
    let create = envelope(
        "MQ_HOST",
        Raw::Command(RawCommand::NewQueue(b"orders".to_vec())),
        IOType::Write,
    );
    assert!(hosts.send_raw_to_host(create, &mut err).is_none());
    assert_eq!(err, 0);

    let push = envelope(
        "MQ_HOST",
        Raw::Message(RawMessage::Push(b"hello".to_vec())),
        IOType::Write,
    );
    assert!(hosts.send_raw_to_host(push, &mut err).is_none());
    assert_eq!(err, 0);

    let fetch = envelope(
        "MQ_HOST",
        Raw::Message(RawMessage::Fetch(Vec::new())),
        IOType::Read,
    );
    let got = hosts.send_raw_to_host(fetch, &mut err).expect("a pushed message waits");
    assert_eq!(got.content, b"hello".to_vec());
    assert_eq!(got.virtual_host, "MQ_HOST");
    assert_eq!(err, 0);

    // a second fetch finds the queue empty: sentinel plus error indicator
    let fetch_again = envelope(
        "MQ_HOST",
        Raw::Message(RawMessage::Fetch(Vec::new())),
        IOType::Read,
    );
    let sentinel = hosts.send_raw_to_host(fetch_again, &mut err).expect("sentinel expected");
    assert!(sentinel.content.is_empty());
    assert!(sentinel.virtual_host.is_empty());
    assert_eq!(err, 0xf);
}

#[test]
fn unknown_host_changes_nothing() {
    let mut hosts = HostManager::new();
    hosts.add("MQ_HOST".to_string(), VirtualHost::new("MQ_HOST".to_string()));
    let mut err: u16 = 0;
    let push = envelope(
        "SOMEWHERE_ELSE",
        Raw::Message(RawMessage::Push(b"lost".to_vec())),
        IOType::Write,
    );
    assert!(hosts.send_raw_to_host(push, &mut err).is_none());
    assert_eq!(err, 0);
}

#[test]
fn fetch_on_missing_queue_returns_nothing_silently() {
    let mut host = VirtualHost::new("MQ_HOST".to_string());
    let mut err: u16 = 0;
    let fetch = envelope("MQ_HOST", Raw::Message(RawMessage::Fetch(Vec::new())), IOType::Read);
    assert!(host.process_incoming(fetch, &mut err).is_none());
    assert_eq!(err, 0);
}

#[test]
fn push_along_deeper_path_round_trips() {
    let mut host = VirtualHost::new("MQ_HOST".to_string());
    host.add_exchange("eu".to_string(), direct("", "", "", ""));
    host.add_exchange("west".to_string(), direct("eu", "", "", ""));
    host.add_queue("orders".to_string(), direct("eu", "west", "", ""));
    assert!(host.get_queue(&"orders".to_string(), direct("eu", "west", "", "orders")).is_some());

    let mut err: u16 = 0;
    let push = RawData {
        raw: Raw::Message(RawMessage::Push(b"deep".to_vec())),
        channel: "ch-0".to_string(),
        virtual_host: "MQ_HOST".to_string(),
        routing_key: direct("eu", "west", "", "orders"),
        io_type: IOType::Write,
    };
    assert!(host.process_incoming(push, &mut err).is_none());
    let fetch = RawData {
        raw: Raw::Message(RawMessage::Fetch(Vec::new())),
        channel: "ch-0".to_string(),
        virtual_host: "MQ_HOST".to_string(),
        routing_key: direct("eu", "west", "", "orders"),
        io_type: IOType::Read,
    };
    let got = host.process_incoming(fetch, &mut err).unwrap();
    assert_eq!(got.content, b"deep".to_vec());
    assert_eq!(err, 0);
}

#[test]
fn drop_queue_makes_later_pushes_vanish() {
    let mut host = VirtualHost::new("MQ_HOST".to_string());
    let mut err: u16 = 0;
    let create = envelope(
        "MQ_HOST",
        Raw::Command(RawCommand::NewQueue(b"orders".to_vec())),
        IOType::Write,
    );
    host.process_incoming(create, &mut err);
    host.drop_queue("orders".to_string(), direct("", "", "", ""));
    assert!(host.get_queue(&"orders".to_string(), direct("", "", "", "orders")).is_none());
}

#[test]
fn command_payload_names_are_trimmed() {
    // the queue name arrives NUL-padded and spaced, as off the wire
    let mut host = VirtualHost::new("MQ_HOST".to_string());
    let mut err: u16 = 0;
    let create = envelope(
        "MQ_HOST",
        Raw::Command(RawCommand::NewQueue(b" orders \0\0\0".to_vec())),
        IOType::Write,
    );
    host.process_incoming(create, &mut err);
    assert!(host.get_queue(&"orders".to_string(), direct("", "", "", "orders")).is_some());
}

#[test]
fn invalid_utf8_command_payload_is_abandoned() {
    let mut host = VirtualHost::new("MQ_HOST".to_string());
    let mut err: u16 = 0;
    let create = envelope(
        "MQ_HOST",
        Raw::Command(RawCommand::NewQueue(vec![0xff, 0xfe, b'x'])),
        IOType::Write,
    );
    assert!(host.process_incoming(create, &mut err).is_none());
    assert_eq!(err, 0);
    // nothing was created anywhere
    assert!(host.get_queue(&"\u{fffd}\u{fffd}x".to_string(), direct("", "", "", "q")).is_none());
}

#[test]
fn host_registry_add_get_remove() {
    let mut hosts = HostManager::new();
    hosts.add("a".to_string(), VirtualHost::new("a".to_string()));
    hosts.add("b".to_string(), VirtualHost::new("b".to_string()));
    assert_eq!(hosts.get_all().len(), 2);
    assert!(hosts.get("a".to_string()).is_some());
    assert!(hosts.get("c".to_string()).is_none());
    let removed = hosts.remove("a".to_string()).unwrap();
    assert_eq!(removed.name(), "a");
    assert_eq!(hosts.get_all().len(), 1);
    assert!(hosts.remove("a".to_string()).is_none());
}
