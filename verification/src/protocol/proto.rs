//! The fixed 256-byte wire header and its byte-exact codec. Every field has a
//! constant width; strings are NUL-padded and multi-byte integers are
//! little-endian. `head_bytes` is the single source of truth for the layout:
//! serialization produces exactly that sequence and deserialization recovers
//! the unique header that produces the input bytes.

use vstd::prelude::*;

verus! {

use vstd::bytes::{
    lemma_auto_spec_u16_to_from_le_bytes,
    lemma_auto_spec_u32_to_from_le_bytes,
    spec_u16_to_le_bytes,
    spec_u32_to_le_bytes,
    u16_from_le_bytes,
    u16_to_le_bytes,
    u32_from_le_bytes,
    u32_to_le_bytes,
};

use vstd::string::StrSliceExecFns;
use crate::host::vhost::VirtualHost;

broadcast use vstd::array::group_array_axioms;

/// The 256-byte wire header that precedes every body. Integer fields are
/// little-endian on the wire; byte-array fields are NUL-padded names that the
/// consumer trims before use.
#[verifier::ext_equal]
pub struct DataHead {
    pub virtual_host: [u8; 32],
    pub channel: [u8; 32],
    pub version: [u8; 4],
    pub routing_mod: [u8; 4],
    pub command: [u8; 24],
    pub route0: [u8; 32],
    pub route1: [u8; 32],
    pub route2: [u8; 32],
    pub route3: [u8; 32],
    pub slice_count: u32,
    pub slice_size: u32,
    pub count: u32,
    pub msg_sign: u16,
    pub ack: u16,
    pub reserved: [u8; 16],
}

/// The exact 256-byte wire image of a header: all fields in layout order.
pub open spec fn head_bytes(h: DataHead) -> Seq<u8> {
    h.virtual_host@ + h.channel@ + h.version@ + h.routing_mod@ + h.command@ + h.route0@ + h.route1@
        + h.route2@ + h.route3@ + spec_u32_to_le_bytes(h.slice_count) + spec_u32_to_le_bytes(
        h.slice_size,
    ) + spec_u32_to_le_bytes(h.count) + spec_u16_to_le_bytes(h.msg_sign) + spec_u16_to_le_bytes(
        h.ack,
    ) + h.reserved@
}

pub proof fn lemma_head_bytes_len(h: DataHead)
    ensures
        head_bytes(h).len() == 256,
{
    lemma_auto_spec_u32_to_from_le_bytes();
    lemma_auto_spec_u16_to_from_le_bytes();
}

/// Each field of the header read back from its slot in the wire image.
pub proof fn lemma_head_bytes_fields(h: DataHead)
    ensures
        head_bytes(h).subrange(0, 32) == h.virtual_host@,
        head_bytes(h).subrange(32, 64) == h.channel@,
        head_bytes(h).subrange(64, 68) == h.version@,
        head_bytes(h).subrange(68, 72) == h.routing_mod@,
        head_bytes(h).subrange(72, 96) == h.command@,
        head_bytes(h).subrange(96, 128) == h.route0@,
        head_bytes(h).subrange(128, 160) == h.route1@,
        head_bytes(h).subrange(160, 192) == h.route2@,
        head_bytes(h).subrange(192, 224) == h.route3@,
        head_bytes(h).subrange(224, 228) == spec_u32_to_le_bytes(h.slice_count),
        head_bytes(h).subrange(228, 232) == spec_u32_to_le_bytes(h.slice_size),
        head_bytes(h).subrange(232, 236) == spec_u32_to_le_bytes(h.count),
        head_bytes(h).subrange(236, 238) == spec_u16_to_le_bytes(h.msg_sign),
        head_bytes(h).subrange(238, 240) == spec_u16_to_le_bytes(h.ack),
        head_bytes(h).subrange(240, 256) == h.reserved@,
{
    lemma_auto_spec_u32_to_from_le_bytes();
    lemma_auto_spec_u16_to_from_le_bytes();
    let s = head_bytes(h);
    assert(s.subrange(0, 32) =~= h.virtual_host@);
    assert(s.subrange(32, 64) =~= h.channel@);
    assert(s.subrange(64, 68) =~= h.version@);
    assert(s.subrange(68, 72) =~= h.routing_mod@);
    assert(s.subrange(72, 96) =~= h.command@);
    assert(s.subrange(96, 128) =~= h.route0@);
    assert(s.subrange(128, 160) =~= h.route1@);
    assert(s.subrange(160, 192) =~= h.route2@);
    assert(s.subrange(192, 224) =~= h.route3@);
    assert(s.subrange(224, 228) =~= spec_u32_to_le_bytes(h.slice_count));
    assert(s.subrange(228, 232) =~= spec_u32_to_le_bytes(h.slice_size));
    assert(s.subrange(232, 236) =~= spec_u32_to_le_bytes(h.count));
    assert(s.subrange(236, 238) =~= spec_u16_to_le_bytes(h.msg_sign));
    assert(s.subrange(238, 240) =~= spec_u16_to_le_bytes(h.ack));
    assert(s.subrange(240, 256) =~= h.reserved@);
}

/// Two headers with the same wire image are the same header, so decoding the
/// 256 bytes written for a header always gives that header back: the
/// round-trip of the codec loses nothing, NUL padding included.
pub proof fn lemma_head_bytes_injective(a: DataHead, b: DataHead)
    requires
        head_bytes(a) == head_bytes(b),
    ensures
        a == b,
{
    lemma_head_bytes_fields(a);
    lemma_head_bytes_fields(b);
    lemma_auto_spec_u32_to_from_le_bytes();
    lemma_auto_spec_u16_to_from_le_bytes();
    assert(a =~= b);
}

/// Encoding to a fixed number of wire bytes.
pub trait Serialize<const N: usize> {
    fn serialize(&self) -> [u8; N];
}

/// Decoding from a fixed number of wire bytes.
pub trait Deserialize<const N: usize> {
    type T;

    fn deserialize(bytes: [u8; N]) -> Self::T;
}

fn push_bytes(out: &mut Vec<u8>, src: &[u8])
    ensures
        final(out)@ == old(out)@ + src@,
{
    let mut i: usize = 0;
    while i < src.len()
        invariant
            i <= src@.len(),
            out@ =~= old(out)@ + src@.subrange(0, i as int),
        decreases src@.len() - i,
    {
        out.push(src[i]);
        proof {
            assert(old(out)@ + src@.subrange(0, i as int) + seq![src@[i as int]] =~= old(out)@
                + src@.subrange(0, i + 1));
        }
        i += 1;
    }
    proof {
        assert(src@.subrange(0, src@.len() as int) =~= src@);
    }
}

fn copy_arr<const N: usize>(data: &[u8], off: usize) -> (r: [u8; N])
    requires
        off + N <= data@.len(),
    ensures
        r@ == data@.subrange(off as int, off + N),
{
    let n: usize = data.len();
    let mut r = [0u8; N];
    let mut i: usize = 0;
    while i < N
        invariant
            i <= N,
            off + N <= n == data@.len(),
            r@.len() == N,
            forall|j: int| 0 <= j < i ==> r@[j] == data@[off + j],
        decreases N - i,
    {
        r[i] = data[off + i];
        i += 1;
    }
    proof {
        assert(r@ =~= data@.subrange(off as int, off + N));
    }
    r
}

/// A byte sequence padded with NULs to a fixed width.
pub open spec fn pad_nul(s: Seq<u8>, width: int) -> Seq<u8>
    recommends
        s.len() <= width,
{
    s + Seq::new((width - s.len()) as nat, |i: int| 0u8)
}

fn arr_from_bytes<const N: usize>(data: &[u8]) -> (r: [u8; N])
    requires
        data@.len() <= N,
    ensures
        r@ == pad_nul(data@, N as int),
{
    let mut r = [0u8; N];
    let mut i: usize = 0;
    while i < data.len()
        invariant
            i <= data@.len() <= N,
            r@.len() == N,
            forall|j: int| 0 <= j < i ==> r@[j] == data@[j],
            forall|j: int| i <= j < N ==> r@[j] == 0u8,
        decreases data@.len() - i,
    {
        r[i] = data[i];
        i += 1;
    }
    proof {
        assert(r@ =~= pad_nul(data@, N as int));
    }
    r
}

impl DataHead {
    /// A fresh header for a message to the given virtual host: the host name
    /// NUL-padded to its field, protocol version 1, the four routing
    /// segments cut from `route`, acknowledgement zero and reserved bytes
    /// clear.
    pub fn new(
        virtual_host: VirtualHost,
        channel: [u8; 32],
        routing_mod: [u8; 4],
        command: [u8; 24],
        route: [u8; 128],
        slice_count: u32,
        slice_size: u32,
        count: u32,
        msg_sign: u16,
    ) -> (r: DataHead)
        requires
            vstd::utf8::encode_utf8(virtual_host@.name).len() <= 32,
        ensures
            r.virtual_host@ == pad_nul(vstd::utf8::encode_utf8(virtual_host@.name), 32),
            r.channel == channel,
            r.version@ == seq![1u8, 0u8, 0u8, 0u8],
            r.routing_mod == routing_mod,
            r.command == command,
            r.route0@ == route@.subrange(0, 32),
            r.route1@ == route@.subrange(32, 64),
            r.route2@ == route@.subrange(64, 96),
            r.route3@ == route@.subrange(96, 128),
            r.slice_count == slice_count,
            r.slice_size == slice_size,
            r.count == count,
            r.msg_sign == msg_sign,
            r.ack == 0,
            r.reserved@ == Seq::new(16, |i: int| 0u8),
    {
        let name_bytes = virtual_host.name().as_str().as_bytes_vec();
        let mut version = [0u8; 4];
        version[0] = 1;
        let r = DataHead {
            virtual_host: arr_from_bytes(name_bytes.as_slice()),
            channel,
            version,
            routing_mod,
            command,
            route0: copy_arr(route.as_slice(), 0),
            route1: copy_arr(route.as_slice(), 32),
            route2: copy_arr(route.as_slice(), 64),
            route3: copy_arr(route.as_slice(), 96),
            slice_count,
            slice_size,
            count,
            msg_sign,
            ack: 0,
            reserved: [0u8; 16],
        };
        proof {
            assert(r.version@ =~= seq![1u8, 0u8, 0u8, 0u8]);
            assert(r.reserved@ =~= Seq::new(16, |i: int| 0u8));
        }
        r
    }

    /// The header's wire image as a growable buffer, for prefixing a body.
    pub fn serialize_vec(&self) -> (r: Vec<u8>)
        ensures
            r@ == head_bytes(*self),
            r@.len() == 256,
    {
        let mut out: Vec<u8> = Vec::new();
        push_bytes(&mut out, self.virtual_host.as_slice());
        push_bytes(&mut out, self.channel.as_slice());
        push_bytes(&mut out, self.version.as_slice());
        push_bytes(&mut out, self.routing_mod.as_slice());
        push_bytes(&mut out, self.command.as_slice());
        push_bytes(&mut out, self.route0.as_slice());
        push_bytes(&mut out, self.route1.as_slice());
        push_bytes(&mut out, self.route2.as_slice());
        push_bytes(&mut out, self.route3.as_slice());
        let mut word = u32_to_le_bytes(self.slice_count);
        out.append(&mut word);
        let mut word = u32_to_le_bytes(self.slice_size);
        out.append(&mut word);
        let mut word = u32_to_le_bytes(self.count);
        out.append(&mut word);
        let mut half = u16_to_le_bytes(self.msg_sign);
        out.append(&mut half);
        let mut half = u16_to_le_bytes(self.ack);
        out.append(&mut half);
        push_bytes(&mut out, self.reserved.as_slice());
        proof {
            lemma_head_bytes_len(*self);
        }
        out
    }
}

impl Serialize<256> for DataHead {
    /// Write the header as exactly its 256-byte wire image.
    fn serialize(&self) -> (r: [u8; 256])
        ensures
            r@ == head_bytes(*self),
    {
        let v = self.serialize_vec();
        let mut r = [0u8; 256];
        let mut i: usize = 0;
        while i < 256
            invariant
                i <= 256,
                v@.len() == 256,
                r@.len() == 256,
                forall|j: int| 0 <= j < i ==> r@[j] == v@[j],
            decreases 256 - i,
        {
            r[i] = v[i];
            i += 1;
        }
        proof {
            assert(r@ =~= v@);
        }
        r
    }
}

impl Deserialize<256> for DataHead {
    type T = DataHead;

    /// Recover the unique header whose wire image is the given 256 bytes.
    fn deserialize(data: [u8; 256]) -> (r: DataHead)
        ensures
            head_bytes(r) == data@,
            r.virtual_host@ == data@.subrange(0, 32),
            r.channel@ == data@.subrange(32, 64),
            r.version@ == data@.subrange(64, 68),
            r.routing_mod@ == data@.subrange(68, 72),
            r.command@ == data@.subrange(72, 96),
            r.route0@ == data@.subrange(96, 128),
            r.route1@ == data@.subrange(128, 160),
            r.route2@ == data@.subrange(160, 192),
            r.route3@ == data@.subrange(192, 224),
            r.slice_count == vstd::bytes::spec_u32_from_le_bytes(data@.subrange(224, 228)),
            r.slice_size == vstd::bytes::spec_u32_from_le_bytes(data@.subrange(228, 232)),
            r.count == vstd::bytes::spec_u32_from_le_bytes(data@.subrange(232, 236)),
            r.msg_sign == vstd::bytes::spec_u16_from_le_bytes(data@.subrange(236, 238)),
            r.ack == vstd::bytes::spec_u16_from_le_bytes(data@.subrange(238, 240)),
            r.reserved@ == data@.subrange(240, 256),
    {
        let slice_count_bytes: [u8; 4] = copy_arr(data.as_slice(), 224);
        let slice_size_bytes: [u8; 4] = copy_arr(data.as_slice(), 228);
        let count_bytes: [u8; 4] = copy_arr(data.as_slice(), 232);
        let msg_sign_bytes: [u8; 2] = copy_arr(data.as_slice(), 236);
        let ack_bytes: [u8; 2] = copy_arr(data.as_slice(), 238);
        let r = DataHead {
            virtual_host: copy_arr(data.as_slice(), 0),
            channel: copy_arr(data.as_slice(), 32),
            version: copy_arr(data.as_slice(), 64),
            routing_mod: copy_arr(data.as_slice(), 68),
            command: copy_arr(data.as_slice(), 72),
            route0: copy_arr(data.as_slice(), 96),
            route1: copy_arr(data.as_slice(), 128),
            route2: copy_arr(data.as_slice(), 160),
            route3: copy_arr(data.as_slice(), 192),
            slice_count: u32_from_le_bytes(slice_count_bytes.as_slice()),
            slice_size: u32_from_le_bytes(slice_size_bytes.as_slice()),
            count: u32_from_le_bytes(count_bytes.as_slice()),
            msg_sign: u16_from_le_bytes(msg_sign_bytes.as_slice()),
            ack: u16_from_le_bytes(ack_bytes.as_slice()),
            reserved: copy_arr(data.as_slice(), 240),
        };
        proof {
            lemma_auto_spec_u32_to_from_le_bytes();
            lemma_auto_spec_u16_to_from_le_bytes();
            assert(head_bytes(r) =~= data@);
        }
        r
    }
}

} // verus!
