//! A connection-scoped channel: the named reassembly buffer for one
//! in-flight transfer. It accumulates body slices against a declared byte
//! target and reports when the body is complete.

use vstd::prelude::*;

verus! {

/// The mathematical value of a channel: its name, the declared target, the
/// bytes counted so far, and the buffered body.
#[verifier::ext_equal]
pub struct ChannelModel {
    pub name: Seq<char>,
    pub receiving: int,
    pub received: int,
    pub buffer: Seq<u8>,
}

/// A named body-reassembly buffer with a declared receiving target.
pub struct Channel {
    pub name: String,
    receiving: u64,
    received: u64,
    buffer: Vec<u8>,
}

impl View for Channel {
    type V = ChannelModel;

    closed spec fn view(&self) -> ChannelModel {
        ChannelModel {
            name: self.name@,
            receiving: self.receiving as int,
            received: self.received as int,
            buffer: self.buffer@,
        }
    }
}

impl Channel {
    /// The channel's client-supplied name.
    pub fn name(&self) -> (r: &String)
        ensures
            r@ == self@.name,
    {
        &self.name
    }

    /// The declared byte target of the current transfer.
    pub fn receiving(&self) -> (r: u64)
        ensures
            r == self@.receiving,
    {
        self.receiving
    }

    /// The bytes counted so far against the target.
    pub fn received(&self) -> (r: u64)
        ensures
            r == self@.received,
    {
        self.received
    }

    pub fn new(name: String) -> (r: Channel)
        ensures
            r@ == (ChannelModel { name: name@, receiving: 0, received: 0, buffer: Seq::empty() }),
    {
        let r = Channel { name, receiving: 0, received: 0, buffer: Vec::new() };
        proof {
            assert(r@ =~~= ChannelModel {
                name: r.name@,
                receiving: 0,
                received: 0,
                buffer: Seq::empty(),
            });
        }
        r
    }

    /// Declare how many body bytes this transfer expects in total.
    pub fn set_receiving(&mut self, receiving: u64)
        ensures
            final(self)@ == (ChannelModel { receiving: receiving as int, ..old(self)@ }),
    {
        self.receiving = receiving;
    }

    /// Append one body slice and count `size` bytes against the target;
    /// returns whether the body is now complete, that is, whether at least
    /// as many bytes were received as declared.
    pub fn write_buffer(&mut self, data: Vec<u8>, size: u64) -> (complete: bool)
        requires
            old(self)@.received + size <= u64::MAX,
        ensures
            final(self)@ == (ChannelModel {
                received: old(self)@.received + size,
                buffer: old(self)@.buffer + data@,
                ..old(self)@
            }),
            complete == (final(self)@.received >= final(self)@.receiving),
    {
        let mut data = data;
        self.buffer.append(&mut data);
        self.received = self.received + size;
        self.received >= self.receiving
    }

    /// Drain the reassembled body and reset the counters for the next
    /// transfer on this channel.
    pub fn read_buffer(&mut self) -> (r: Vec<u8>)
        ensures
            r@ == old(self)@.buffer,
            final(self)@ == (ChannelModel {
                receiving: 0,
                received: 0,
                buffer: Seq::empty(),
                ..old(self)@
            }),
    {
        self.receiving = 0;
        self.received = 0;
        let mut drained: Vec<u8> = Vec::new();
        core::mem::swap(&mut self.buffer, &mut drained);
        drained
    }

    /// A copy of the buffered body, leaving the channel untouched.
    pub fn peek_buffer(&self) -> (r: Vec<u8>)
        ensures
            r@ == self@.buffer,
    {
        let mut r: Vec<u8> = Vec::new();
        let mut i: usize = 0;
        while i < self.buffer.len()
            invariant
                i <= self.buffer@.len(),
                r@ =~= self.buffer@.subrange(0, i as int),
            decreases self.buffer@.len() - i,
        {
            r.push(self.buffer[i]);
            i += 1;
        }
        proof {
            assert(self.buffer@.subrange(0, self.buffer@.len() as int) =~= self.buffer@);
        }
        r
    }
}

} // verus!
