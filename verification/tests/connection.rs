use mqbroker::net::chan::Channel;
use mqbroker::net::conn::{begin_body, body_reads, pad_to_slices, process, should_close_channel};
use mqbroker::net::manager::ChannelManager;
use mqbroker::protocol::proto::{DataHead, Deserialize};
use mqbroker::protocol::raw::{IOType, Raw, RawCommand, RawMessage};

fn header_bytes() -> [u8; 256] {
    let mut b = [0u8; 256];
    b[0..7].copy_from_slice(b"MQ_HOST");
    b[32..36].copy_from_slice(b"ch-1");
    b[64] = 1;
    b[96..98].copy_from_slice(b"eu");
    b[192..198].copy_from_slice(b"orders");
    b
}

fn header() -> DataHead {
    DataHead::deserialize(header_bytes())
}

#[test]
fn decode_push_envelope() {
    let mut head = header();
    head.routing_mod = [0, 0, 0, 0];
    let rd = process(&head, b"payload".to_vec()).unwrap();
    assert!(matches!(rd.raw, Raw::Message(RawMessage::Push(ref d)) if d == b"payload"));
    assert!(matches!(rd.io_type, IOType::Write));
    assert_eq!(rd.channel, "ch-1");
    assert_eq!(rd.virtual_host, "MQ_HOST");
    match rd.routing_key {
        mqbroker::routing::key::RoutingKey::Direct(segs) => {
            assert_eq!(segs, vec!["eu", "", "", "orders"]);
        },
        _ => panic!("routing_mod byte 2 = 0 selects Direct"),
    }
}

#[test]
fn decode_fetch_takes_read_intent() {
    let mut head = header();
    head.routing_mod = [0, 1, 1, 0];
    let rd = process(&head, Vec::new()).unwrap();
    assert!(matches!(rd.raw, Raw::Message(RawMessage::Fetch(_))));
    assert!(matches!(rd.io_type, IOType::Read));
    assert!(matches!(rd.routing_key, mqbroker::routing::key::RoutingKey::Topic(_)));
}

#[test]
fn decode_command_kinds_and_fallbacks() {
    let mut head = header();
    head.routing_mod = [1, 1, 2, 0];
    let rd = process(&head, b"sub".to_vec()).unwrap();
    assert!(matches!(rd.raw, Raw::Command(RawCommand::NewExchange(ref d)) if d == b"sub"));
    assert!(matches!(rd.routing_key, mqbroker::routing::key::RoutingKey::Fanout(_)));

    head.routing_mod = [1, 9, 9, 0];
    let rd = process(&head, Vec::new()).unwrap();
    assert!(matches!(rd.raw, Raw::Command(RawCommand::Nop)));
    // an unknown routing-key byte falls back to Direct
    assert!(matches!(rd.routing_key, mqbroker::routing::key::RoutingKey::Direct(_)));

    head.routing_mod = [7, 0, 0, 0];
    let rd = process(&head, Vec::new()).unwrap();
    assert!(matches!(rd.raw, Raw::Nop));
}

#[test]
fn decode_rejects_invalid_utf8_names() {
    let mut bytes = header_bytes();
    bytes[0] = 0xff;
    bytes[1] = 0xfe;
    let head = DataHead::deserialize(bytes);
    assert!(process(&head, Vec::new()).is_none());
}

#[test]
fn zero_body_needs_no_reads() {
    let mut head = header();
    head.slice_size = 0;
    head.slice_count = 5;
    let (total, slices) = body_reads(&head);
    assert_eq!(total, 0);
    assert_eq!(slices, 0);

    // through the channel registry: the body is complete immediately
    let mut manager = ChannelManager::new();
    let (slices, complete) = begin_body(&mut manager, &head).unwrap();
    assert_eq!(slices, 0);
    assert!(complete);
}

#[test]
fn invalid_channel_name_stops_the_cycle() {
    let mut bytes = header_bytes();
    bytes[32] = 0xc3;  // a lone UTF-8 lead byte
    bytes[33] = 0;
    let head = DataHead::deserialize(bytes);
    let mut manager = ChannelManager::new();
    assert!(begin_body(&mut manager, &head).is_none());
    assert_eq!(manager.list().len(), 0);
}

#[test]
fn sized_body_counts_slices() {
    let mut head = header();
    head.slice_size = 256;
    head.slice_count = 3;
    let (total, slices) = body_reads(&head);
    assert_eq!(total, 768);
    assert_eq!(slices, 3);
    let mut manager = ChannelManager::new();
    let (slices, complete) = begin_body(&mut manager, &head).unwrap();
    assert_eq!(slices, 3);
    assert!(!complete);
}

#[test]
fn channel_reassembles_body_slice_by_slice() {
    let mut c = Channel::new("ch-1".to_string());
    c.set_receiving(512);
    assert!(!c.write_buffer(vec![1u8; 256], 256));
    assert!(c.write_buffer(vec![2u8; 256], 256));
    assert_eq!(c.received(), 512);
    let body = c.read_buffer();
    assert_eq!(body.len(), 512);
    assert_eq!(body[0], 1);
    assert_eq!(body[256], 2);
    // the drain resets the channel for the next transfer
    assert_eq!(c.received(), 0);
    assert_eq!(c.receiving(), 0);
    assert!(c.peek_buffer().is_empty());
}

#[test]
fn channel_manager_registry_operations() {
    let mut m = ChannelManager::new();
    assert!(!m.contains("ch-1"));
    m.add(Channel::new("ch-1".to_string()));
    m.add(Channel::new("ch-2".to_string()));
    assert!(m.contains("ch-1"));
    assert_eq!(m.list().len(), 2);
    assert_eq!(m.get("ch-2").unwrap().name(), "ch-2");
    {
        let c = m.get_mut("ch-1").unwrap();
        c.set_receiving(42);
    }
    assert_eq!(m.get("ch-1").unwrap().receiving(), 42);
    let gone = m.remove("ch-1").unwrap();
    assert_eq!(gone.name(), "ch-1");
    assert!(!m.contains("ch-1"));
    assert!(m.remove("ch-1").is_none());
}

#[test]
fn close_channel_command_is_case_insensitive_and_trimmed() {
    let mut head = header();
    let mut cmd = [0u8; 24];
    cmd[..8].copy_from_slice(b"close-ch");
    head.command = cmd;
    assert!(should_close_channel(&head));

    cmd[..8].copy_from_slice(b"CLOSE-CH");
    head.command = cmd;
    assert!(should_close_channel(&head));

    cmd[..8].copy_from_slice(b"keepopen");
    head.command = cmd;
    assert!(!should_close_channel(&head));

    // whitespace is not trimmed from the command field
    let mut spaced = [0u8; 24];
    spaced[..9].copy_from_slice(b" close-ch");
    head.command = spaced;
    assert!(!should_close_channel(&head));
}

#[test]
fn response_bodies_pad_to_slice_multiples() {
    let (padded, count) = pad_to_slices(b"hello".to_vec());
    assert_eq!(padded.len(), 256);
    assert_eq!(count, 1);
    assert_eq!(&padded[..5], b"hello");
    assert!(padded[5..].iter().all(|&b| b == 0));

    let (empty, count) = pad_to_slices(Vec::new());
    assert!(empty.is_empty());
    assert_eq!(count, 0);

    let (aligned, count) = pad_to_slices(vec![7u8; 512]);
    assert_eq!(aligned.len(), 512);
    assert_eq!(count, 2);
}
