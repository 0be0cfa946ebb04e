//! Per-connection message-cycle logic: decoding a header plus reassembled
//! body into an envelope, sizing the body reads, framing the response, and
//! the post-dispatch channel-close decision. The socket itself lives outside
//! the library; these functions decide, the caller performs the reads and
//! writes.

use vstd::prelude::*;

verus! {

use vstd::utf8::{decode_utf8, valid_utf8};
use crate::net::chan::{Channel, ChannelModel};
use crate::net::manager::{cm_find, ChannelManager};
use crate::protocol::proto::DataHead;
use crate::protocol::raw::{
    IOType,
    Raw,
    RawCommand,
    RawCommandModel,
    RawData,
    RawDataModel,
    RawMessage,
    RawMessageModel,
    RawModel,
};
use crate::protocol::text::{
    ascii_upper,
    bytes_eq,
    bytes_to_string,
    trim_name,
    trim_name_bytes,
    trim_nul,
    trim_trailing_nul,
    to_ascii_upper,
};
use crate::routing::key::{RoutingKey, RoutingKeyModel};

/// The payload selected by the first two `routing_mod` bytes: byte 0 picks
/// message (0), command (1) or no-op; byte 1 picks the sub-kind, with
/// unknown values falling to no-op.
pub open spec fn raw_model(rm: Seq<u8>, body: Seq<u8>) -> RawModel {
    if rm[0] == 0 {
        RawModel::Message(
            if rm[1] == 0 {
                RawMessageModel::Push(body)
            } else if rm[1] == 1 {
                RawMessageModel::Fetch(body)
            } else {
                RawMessageModel::Nop
            },
        )
    } else if rm[0] == 1 {
        RawModel::Command(
            if rm[1] == 0 {
                RawCommandModel::NewQueue(body)
            } else if rm[1] == 1 {
                RawCommandModel::NewExchange(body)
            } else if rm[1] == 2 {
                RawCommandModel::NewBinding(body)
            } else if rm[1] == 3 {
                RawCommandModel::DropQueue(body)
            } else if rm[1] == 4 {
                RawCommandModel::DropExchange(body)
            } else if rm[1] == 5 {
                RawCommandModel::DropBinding(body)
            } else {
                RawCommandModel::Nop
            },
        )
    } else {
        RawModel::Nop
    }
}

/// The four routing segments of a header, NUL padding trimmed, as byte
/// sequences.
pub open spec fn segment_bytes(h: DataHead) -> Seq<Seq<u8>> {
    seq![trim_nul(h.route0@), trim_nul(h.route1@), trim_nul(h.route2@), trim_nul(h.route3@)]
}

/// What decoding a header plus body yields: `None` exactly when one of the
/// name fields (channel, virtual host, or a routing segment) is not valid
/// UTF-8, in which case the dispatch is abandoned. The channel and segment
/// names lose only their NUL padding; the virtual-host name is trimmed of
/// padding and surrounding whitespace, as the host registry looks it up.
pub open spec fn decode_model(h: DataHead, body: Seq<u8>) -> Option<RawDataModel> {
    let cb = trim_nul(h.channel@);
    let vb = trim_name(h.virtual_host@);
    let sb = segment_bytes(h);
    if !valid_utf8(cb) || !valid_utf8(vb) || !valid_utf8(sb[0]) || !valid_utf8(sb[1])
        || !valid_utf8(sb[2]) || !valid_utf8(sb[3]) {
        None
    } else {
        let segs = seq![
            decode_utf8(sb[0]),
            decode_utf8(sb[1]),
            decode_utf8(sb[2]),
            decode_utf8(sb[3]),
        ];
        let rk = if h.routing_mod@[2] == 1 {
            RoutingKeyModel::Topic(segs)
        } else if h.routing_mod@[2] == 2 {
            RoutingKeyModel::Fanout(segs)
        } else {
            RoutingKeyModel::Direct(segs)
        };
        Some(
            RawDataModel {
                raw: raw_model(h.routing_mod@, body),
                channel: decode_utf8(cb),
                virtual_host: decode_utf8(vb),
                routing_key: rk,
                read_intent: h.routing_mod@[0] == 0 && h.routing_mod@[1] == 1,
            },
        )
    }
}

/// Decode a header and its reassembled body into an envelope; `None` when a
/// name field is not valid UTF-8, abandoning that dispatch.
pub fn process(head: &DataHead, buffer: Vec<u8>) -> (r: Option<RawData>)
    ensures
        match r {
            Some(rd) => decode_model(*head, buffer@) == Some(rd@) && rd.routing_key.wf(),
            None => decode_model(*head, buffer@) is None,
        },
{
    let ghost body0 = buffer@;
    let channel = match bytes_to_string(trim_trailing_nul(head.channel.as_slice())) {
        Some(s) => s,
        None => {
            return None;
        },
    };
    let virtual_host = match bytes_to_string(trim_name_bytes(head.virtual_host.as_slice())) {
        Some(s) => s,
        None => {
            return None;
        },
    };
    let seg0 = match bytes_to_string(trim_trailing_nul(head.route0.as_slice())) {
        Some(s) => s,
        None => {
            return None;
        },
    };
    let seg1 = match bytes_to_string(trim_trailing_nul(head.route1.as_slice())) {
        Some(s) => s,
        None => {
            return None;
        },
    };
    let seg2 = match bytes_to_string(trim_trailing_nul(head.route2.as_slice())) {
        Some(s) => s,
        None => {
            return None;
        },
    };
    let seg3 = match bytes_to_string(trim_trailing_nul(head.route3.as_slice())) {
        Some(s) => s,
        None => {
            return None;
        },
    };
    let mut io_type = IOType::Write;
    let raw: Raw = if head.routing_mod[0] == 0 {
        Raw::Message(
            if head.routing_mod[1] == 0 {
                RawMessage::Push(buffer)
            } else if head.routing_mod[1] == 1 {
                io_type = IOType::Read;
                RawMessage::Fetch(buffer)
            } else {
                RawMessage::Nop
            },
        )
    } else if head.routing_mod[0] == 1 {
        Raw::Command(
            if head.routing_mod[1] == 0 {
                RawCommand::NewQueue(buffer)
            } else if head.routing_mod[1] == 1 {
                RawCommand::NewExchange(buffer)
            } else if head.routing_mod[1] == 2 {
                RawCommand::NewBinding(buffer)
            } else if head.routing_mod[1] == 3 {
                RawCommand::DropQueue(buffer)
            } else if head.routing_mod[1] == 4 {
                RawCommand::DropExchange(buffer)
            } else if head.routing_mod[1] == 5 {
                RawCommand::DropBinding(buffer)
            } else {
                RawCommand::Nop
            },
        )
    } else {
        Raw::Nop
    };
    let mut segments: Vec<String> = Vec::new();
    segments.push(seg0);
    segments.push(seg1);
    segments.push(seg2);
    segments.push(seg3);
    proof {
        assert(segments.deep_view() =~= seq![
            decode_utf8(segment_bytes(*head)[0]),
            decode_utf8(segment_bytes(*head)[1]),
            decode_utf8(segment_bytes(*head)[2]),
            decode_utf8(segment_bytes(*head)[3]),
        ]);
    }
    let routing_key = if head.routing_mod[2] == 1 {
        RoutingKey::Topic(segments)
    } else if head.routing_mod[2] == 2 {
        RoutingKey::Fanout(segments)
    } else {
        RoutingKey::Direct(segments)
    };
    let rd = RawData { raw, channel, virtual_host, routing_key, io_type };
    proof {
        assert(decode_model(*head, body0) == Some(rd@)) by {
            assert(decode_model(*head, body0).unwrap() =~= rd@);
        }
    }
    Some(rd)
}

/// How large a body the header declares and how many 256-byte slices are
/// read for it: a declared total of zero needs no reads at all, so such a
/// message completes without touching the socket again.
pub fn body_reads(head: &DataHead) -> (r: (u64, u64))
    ensures
        r.0 == head.slice_size as int * head.slice_count as int,
        r.1 == r.0 as int / 256,
        r.0 == 0 ==> r.1 == 0,
{
    proof {
        assert((head.slice_size as u64) * (head.slice_count as u64) <= u64::MAX) by (nonlinear_arith)
            requires
                head.slice_size <= u32::MAX && head.slice_count <= u32::MAX,
        ;
    }
    let total = (head.slice_size as u64) * (head.slice_count as u64);
    (total, total / 256)
}

/// The channel registry after the body of a message was announced on
/// channel `name` with `total` declared bytes: the channel is created if it
/// was missing, and its receiving target is set.
pub open spec fn begin_body_model(
    cs: Seq<ChannelModel>,
    name: Seq<char>,
    total: int,
) -> Seq<ChannelModel> {
    match cm_find(cs, name) {
        Some(i) => cs.update(i, ChannelModel { receiving: total, ..cs[i] }),
        None => cs.push(ChannelModel { name, receiving: total, received: 0, buffer: Seq::empty() }),
    }
}

/// Announce a message body on the channel the header names: look the
/// channel up (creating it if missing), set its receiving target to the
/// declared total, and return the slice count to read together with
/// whether the body is already complete — which it is exactly when the
/// declared total is zero. The registry key is the channel field as it
/// stands, NUL padding included, so every cycle of a transfer addresses
/// the same entry. `None` when the channel name is not valid UTF-8; the
/// registry is then untouched and the connection cycle stops.
pub fn begin_body(manager: &mut ChannelManager, head: &DataHead) -> (r: Option<(u64, bool)>)
    ensures
        match r {
            Some(p) => {
                &&& valid_utf8(head.channel@)
                &&& final(manager)@ == begin_body_model(
                    old(manager)@,
                    decode_utf8(head.channel@),
                    head.slice_size as int * head.slice_count as int,
                )
                &&& p.0 == (head.slice_size as int * head.slice_count as int) / 256
                &&& p.1 == (head.slice_size as int * head.slice_count as int == 0)
            },
            None => !valid_utf8(head.channel@) && final(manager)@ == old(manager)@,
        },
{
    let name = match bytes_to_string(vstd::slice::slice_to_vec(head.channel.as_slice())) {
        Some(s) => s,
        None => {
            return None;
        },
    };
    let (total, slices) = body_reads(head);
    match manager.get_mut(name.as_str()) {
        Some(c) => {
            c.set_receiving(total);
        },
        None => {
            let mut fresh = Channel::new(name);
            fresh.set_receiving(total);
            manager.add(fresh);
        },
    }
    proof {
        assert(final(manager)@ =~~= begin_body_model(
            old(manager)@,
            decode_utf8(head.channel@),
            head.slice_size as int * head.slice_count as int,
        ));
    }
    Some((slices, total == 0))
}

/// The control string that closes a channel, in ASCII: `CLOSE-CH`.
pub open spec fn close_channel_bytes() -> Seq<u8> {
    seq![67u8, 76u8, 79u8, 83u8, 69u8, 45u8, 67u8, 72u8]
}

fn close_marker() -> (r: Vec<u8>)
    ensures
        r@ == close_channel_bytes(),
{
    let mut v: Vec<u8> = Vec::new();
    v.push(67);
    v.push(76);
    v.push(79);
    v.push(83);
    v.push(69);
    v.push(45);
    v.push(67);
    v.push(72);
    proof {
        assert(v@ =~= close_channel_bytes());
    }
    v
}

/// Whether the header's command field, upper-cased and trimmed of NUL
/// padding, orders this channel closed: it must read exactly `CLOSE-CH`.
/// Closing removes the one channel from the registry, not the socket.
pub fn should_close_channel(head: &DataHead) -> (r: bool)
    ensures
        r == (trim_nul(ascii_upper(head.command@)) == close_channel_bytes()),
{
    let upper = to_ascii_upper(head.command.as_slice());
    let trimmed = trim_trailing_nul(upper.as_slice());
    bytes_eq(trimmed.as_slice(), close_marker().as_slice())
}

/// A body padded with zero bytes up to the next multiple of the 256-byte
/// slice size; an already aligned body (the empty one included) is kept
/// as it is.
pub open spec fn pad256(s: Seq<u8>) -> Seq<u8> {
    if s.len() % 256 == 0 {
        s
    } else {
        s + Seq::new((256 - s.len() % 256) as nat, |i: int| 0u8)
    }
}

/// Zero-pad a response body to a multiple of 256 bytes and count its
/// slices, ready to be framed behind a response header.
pub fn pad_to_slices(content: Vec<u8>) -> (r: (Vec<u8>, u32))
    requires
        content@.len() < 0x1_0000_0000,
    ensures
        r.0@ == pad256(content@),
        r.1 == pad256(content@).len() / 256,
{
    let mut out = content;
    let rem: usize = out.len() % 256;
    if rem != 0 {
        let ghost before = out@;
        let pad: usize = 256 - rem;
        let mut k: usize = 0;
        while k < pad
            invariant
                k <= pad,
                pad == 256 - before.len() % 256,
                0 < pad < 256,
                out@ =~= before + Seq::new(k as nat, |i: int| 0u8),
            decreases pad - k,
        {
            out.push(0);
            proof {
                assert(out@ =~= before + Seq::new((k + 1) as nat, |i: int| 0u8));
            }
            k += 1;
        }
        proof {
            assert(out@ =~= pad256(before));
        }
    }
    let count = (out.len() / 256) as u32;
    (out, count)
}

} // verus!
