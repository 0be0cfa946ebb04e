use mqbroker::protocol::proto::{DataHead, Deserialize, Serialize};

fn sample_head() -> DataHead {
    let mut virtual_host = [0u8; 32];
    virtual_host[..7].copy_from_slice(b"MQ_HOST");
    let mut channel = [0u8; 32];
    channel[..4].copy_from_slice(b"ch-1");
    let mut command = [0u8; 24];
    command[..8].copy_from_slice(b"CLOSE-CH");
    let mut route0 = [0u8; 32];
    route0[..3].copy_from_slice(b"eu1");
    let mut route1 = [0u8; 32];
    route1[..4].copy_from_slice(b"west");
    let mut route2 = [0u8; 32];
    route2[..1].copy_from_slice(b"!");
    let mut route3 = [0u8; 32];
    route3[..6].copy_from_slice(b"orders");
    let mut reserved = [0u8; 16];
    reserved[15] = 0xee;
    DataHead {
        virtual_host,
        channel,
        version: [1, 0, 0, 0],
        routing_mod: [0, 1, 2, 3],
        command,
        route0,
        route1,
        route2,
        route3,
        slice_count: 0x0102_0304,
        slice_size: 256,
        count: 7,
        msg_sign: 0xbeef,
        ack: 0x1234,
        reserved,
    }
}

fn assert_heads_equal(a: &DataHead, b: &DataHead) {
    assert_eq!(a.virtual_host, b.virtual_host);
    assert_eq!(a.channel, b.channel);
    assert_eq!(a.version, b.version);
    assert_eq!(a.routing_mod, b.routing_mod);
    assert_eq!(a.command, b.command);
    assert_eq!(a.route0, b.route0);
    assert_eq!(a.route1, b.route1);
    assert_eq!(a.route2, b.route2);
    assert_eq!(a.route3, b.route3);
    assert_eq!(a.slice_count, b.slice_count);
    assert_eq!(a.slice_size, b.slice_size);
    assert_eq!(a.count, b.count);
    assert_eq!(a.msg_sign, b.msg_sign);
    assert_eq!(a.ack, b.ack);
    assert_eq!(a.reserved, b.reserved);
}

#[test]
fn round_trip_preserves_every_field() {
    let head = sample_head();
    let bytes = head.serialize();
    let back = DataHead::deserialize(bytes);
    assert_heads_equal(&head, &back);
}

#[test]
fn round_trip_keeps_nul_padding_bit_exact() {
    let mut head = sample_head();
    // a name with embedded and trailing NULs must survive untouched
    head.virtual_host = [0u8; 32];
    head.virtual_host[0] = b'a';
    head.virtual_host[2] = b'b';
    let back = DataHead::deserialize(head.serialize());
    assert_eq!(back.virtual_host[0], b'a');
    assert_eq!(back.virtual_host[1], 0);
    assert_eq!(back.virtual_host[2], b'b');
    assert_eq!(&back.virtual_host[3..], &[0u8; 29][..]);
}

#[test]
fn serialize_layout_is_fixed_and_little_endian() {
    let head = sample_head();
    let bytes = head.serialize();
    assert_eq!(bytes.len(), 256);
    assert_eq!(&bytes[0..7], b"MQ_HOST");
    assert_eq!(&bytes[32..36], b"ch-1");
    assert_eq!(&bytes[64..68], [1, 0, 0, 0]);
    assert_eq!(&bytes[68..72], [0, 1, 2, 3]);
    assert_eq!(&bytes[72..80], b"CLOSE-CH");
    assert_eq!(&bytes[96..99], b"eu1");
    assert_eq!(&bytes[128..132], b"west");
    assert_eq!(bytes[160], b'!');
    assert_eq!(&bytes[192..198], b"orders");
    // slice_count 0x01020304 little-endian
    assert_eq!(&bytes[224..228], [0x04, 0x03, 0x02, 0x01]);
    // slice_size 256 little-endian
    assert_eq!(&bytes[228..232], [0x00, 0x01, 0x00, 0x00]);
    // count 7
    assert_eq!(&bytes[232..236], [7, 0, 0, 0]);
    // msg_sign 0xbeef little-endian
    assert_eq!(&bytes[236..238], [0xef, 0xbe]);
    // ack 0x1234 little-endian
    assert_eq!(&bytes[238..240], [0x34, 0x12]);
    assert_eq!(bytes[255], 0xee);
}

#[test]
fn serialize_vec_matches_serialize() {
    let head = sample_head();
    let arr = head.serialize();
    let vec = head.serialize_vec();
    assert_eq!(vec.len(), 256);
    assert_eq!(&arr[..], &vec[..]);
}

#[test]
fn new_head_pads_host_name_and_zeroes_ack() {
    let host = mqbroker::host::vhost::VirtualHost::new("MQ_HOST".to_string());
    let mut channel = [0u8; 32];
    channel[..2].copy_from_slice(b"ch");
    let mut route = [0u8; 128];
    route[96..102].copy_from_slice(b"orders");
    let head = DataHead::new(host, channel, [0, 0, 0, 0], [0u8; 24], route, 3, 256, 0, 9);
    assert_eq!(&head.virtual_host[..7], b"MQ_HOST");
    assert_eq!(&head.virtual_host[7..], &[0u8; 25][..]);
    assert_eq!(head.version, [1, 0, 0, 0]);
    assert_eq!(head.ack, 0);
    assert_eq!(head.reserved, [0u8; 16]);
    assert_eq!(&head.route3[..6], b"orders");
    assert_eq!(head.slice_count, 3);
    assert_eq!(head.slice_size, 256);
    assert_eq!(head.msg_sign, 9);
}
