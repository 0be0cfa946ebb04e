//! The per-connection channel registry: channels keyed by their
//! client-supplied names, one per in-flight logical transfer.

use vstd::prelude::*;

verus! {

use crate::common::lookup::{
    first_where,
    lemma_first_where_absent,
    lemma_first_where_found,
};
use crate::net::chan::{Channel, ChannelModel};
use crate::protocol::text::str_eq;

/// The index of the channel named `name` in the registry model, if present.
pub open spec fn cm_find(cs: Seq<ChannelModel>, name: Seq<char>) -> Option<int> {
    first_where(cs, |c: ChannelModel| c.name == name)
}

/// A name-keyed registry of channels.
pub struct ChannelManager {
    channels: Vec<Channel>,
}

impl View for ChannelManager {
    type V = Seq<ChannelModel>;

    closed spec fn view(&self) -> Seq<ChannelModel> {
        Seq::new(self.channels.len() as nat, |i: int| self.channels[i]@)
    }
}

impl ChannelManager {
    pub fn new() -> (r: ChannelManager)
        ensures
            r@ == Seq::<ChannelModel>::empty(),
    {
        let r = ChannelManager { channels: Vec::new() };
        proof {
            assert(r@ =~= Seq::<ChannelModel>::empty());
        }
        r
    }

    fn find(&self, name: &str) -> (r: Option<usize>)
        ensures
            match r {
                Some(i) => i < self@.len() && cm_find(self@, name@) == Some(i as int),
                None => cm_find(self@, name@) is None,
            },
    {
        proof {
            assert(forall|j: int|
                0 <= j < self.channels.len() ==> #[trigger] self@[j] == self.channels[j]@);
        }
        let mut i: usize = 0;
        while i < self.channels.len()
            invariant
                i <= self.channels.len(),
                forall|j: int| 0 <= j < i ==> #[trigger] self@[j].name != name@,
                forall|j: int|
                    0 <= j < self.channels.len() ==> #[trigger] self@[j] == self.channels[j]@,
            decreases self.channels.len() - i,
        {
            if str_eq(self.channels[i].name().as_str(), name) {
                proof {
                    lemma_first_where_found(self@, |c: ChannelModel| c.name == name@, i as int);
                }
                return Some(i);
            }
            i += 1;
        }
        proof {
            lemma_first_where_absent(self@, |c: ChannelModel| c.name == name@);
        }
        None
    }

    /// Register a channel under its name; a channel already registered
    /// under that name is replaced.
    pub fn add(&mut self, channel: Channel)
        ensures
            final(self)@ == match cm_find(old(self)@, channel@.name) {
                Some(i) => old(self)@.update(i, channel@),
                None => old(self)@.push(channel@),
            },
    {
        match self.find(channel.name().as_str()) {
            Some(i) => {
                let slot = &mut self.channels[i];
                *slot = channel;
                proof {
                    assert(after_borrow(self)@ =~= old(self)@.update(
                        cm_find(old(self)@, final(slot)@.name).unwrap(),
                        final(slot)@,
                    ));
                }
            },
            None => {
                self.channels.push(channel);
                proof {
                    assert(self@ =~= old(self)@.push(channel@));
                }
            },
        }
    }

    /// The channel named `name`, if present.
    pub fn get(&self, name: &str) -> (r: Option<&Channel>)
        ensures
            match r {
                Some(c) => {
                    &&& cm_find(self@, name@) is Some
                    &&& c@ == self@[cm_find(self@, name@).unwrap()]
                },
                None => cm_find(self@, name@) is None,
            },
    {
        match self.find(name) {
            Some(i) => {
                proof {
                    assert(self@[i as int] == self.channels[i as int]@);
                }
                Some(&self.channels[i])
            },
            None => None,
        }
    }

    /// Mutable access to the channel named `name`, if present.
    pub fn get_mut(&mut self, name: &str) -> (r: Option<&mut Channel>)
        ensures
            match r {
                Some(c) => {
                    &&& cm_find(old(self)@, name@) is Some
                    &&& c@ == old(self)@[cm_find(old(self)@, name@).unwrap()]
                    &&& final(self)@ == old(self)@.update(
                        cm_find(old(self)@, name@).unwrap(),
                        final(c)@,
                    )
                },
                None => {
                    &&& cm_find(old(self)@, name@) is None
                    &&& final(self)@ == old(self)@
                },
            },
    {
        match self.find(name) {
            Some(i) => {
                proof {
                    assert(old(self)@[i as int] == old(self).channels[i as int]@);
                }
                let c = &mut self.channels[i];
                proof {
                    assert(after_borrow(self)@ =~= old(self)@.update(
                        cm_find(old(self)@, name@).unwrap(),
                        final(c)@,
                    ));
                }
                Some(c)
            },
            None => None,
        }
    }

    /// Remove and return the channel named `name`; absent names remove
    /// nothing.
    pub fn remove(&mut self, name: &str) -> (r: Option<Channel>)
        ensures
            match r {
                Some(c) => {
                    &&& cm_find(old(self)@, name@) is Some
                    &&& c@ == old(self)@[cm_find(old(self)@, name@).unwrap()]
                    &&& final(self)@ == old(self)@.remove(cm_find(old(self)@, name@).unwrap())
                },
                None => {
                    &&& cm_find(old(self)@, name@) is None
                    &&& final(self)@ == old(self)@
                },
            },
    {
        match self.find(name) {
            Some(i) => {
                proof {
                    assert(old(self)@[i as int] == old(self).channels[i as int]@);
                }
                let c = self.channels.remove(i);
                proof {
                    assert(forall|j: int|
                        0 <= j < self.channels.len() ==> #[trigger] self@[j]
                            == self.channels[j]@);
                    assert(self@ =~= old(self)@.remove(cm_find(old(self)@, name@).unwrap()));
                }
                Some(c)
            },
            None => None,
        }
    }

    /// All channels, in registration order.
    pub fn list(&self) -> (r: Vec<&Channel>)
        ensures
            r@.len() == self@.len(),
            forall|i: int| 0 <= i < self@.len() ==> #[trigger] r@[i]@ == self@[i],
    {
        proof {
            assert(forall|j: int|
                0 <= j < self.channels.len() ==> #[trigger] self@[j] == self.channels[j]@);
        }
        let mut r: Vec<&Channel> = Vec::new();
        let mut i: usize = 0;
        while i < self.channels.len()
            invariant
                i <= self.channels.len(),
                r@.len() == i,
                forall|j: int| 0 <= j < i ==> #[trigger] r@[j]@ == self@[j],
                forall|j: int|
                    0 <= j < self.channels.len() ==> #[trigger] self@[j] == self.channels[j]@,
            decreases self.channels.len() - i,
        {
            r.push(&self.channels[i]);
            i += 1;
        }
        r
    }

    /// Whether a channel named `name` is registered.
    pub fn contains(&self, name: &str) -> (r: bool)
        ensures
            r == (cm_find(self@, name@) is Some),
    {
        self.find(name).is_some()
    }
}

} // verus!
