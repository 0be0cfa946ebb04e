//! The host registry: virtual hosts keyed by name. Inbound envelopes are
//! dispatched here and forwarded to the host the envelope names.

use vstd::prelude::*;

verus! {

use crate::common::lookup::{
    first_where,
    lemma_first_where_absent,
    lemma_first_where_found,
};
use crate::host::vhost::{process_model, VHostModel, VirtualHost};
use crate::protocol::raw::RawData;
use crate::protocol::text::str_eq;
use crate::queue::queue_object::QueueObject;

/// One registry entry: the name a host was registered under, and the host.
pub struct HostEntry {
    pub key: String,
    pub host: VirtualHost,
}

/// The mathematical value of a registry entry.
#[verifier::ext_equal]
pub struct HostEntryModel {
    pub key: Seq<char>,
    pub host: VHostModel,
}

impl View for HostEntry {
    type V = HostEntryModel;

    open spec fn view(&self) -> HostEntryModel {
        HostEntryModel { key: self.key@, host: self.host@ }
    }
}

/// The index of the entry registered under `name`, if any.
pub open spec fn hm_find(hs: Seq<HostEntryModel>, name: Seq<char>) -> Option<int> {
    first_where(hs, |h: HostEntryModel| h.key == name)
}

/// A name-keyed registry of virtual hosts.
pub struct HostManager {
    virtual_hosts: Vec<HostEntry>,
}

impl View for HostManager {
    type V = Seq<HostEntryModel>;

    closed spec fn view(&self) -> Seq<HostEntryModel> {
        Seq::new(self.virtual_hosts.len() as nat, |i: int| self.virtual_hosts[i]@)
    }
}

impl HostManager {
    pub fn new() -> (r: HostManager)
        ensures
            r@ == Seq::<HostEntryModel>::empty(),
    {
        let r = HostManager { virtual_hosts: Vec::new() };
        proof {
            assert(r@ =~= Seq::<HostEntryModel>::empty());
        }
        r
    }

    fn find(&self, name: &str) -> (r: Option<usize>)
        ensures
            match r {
                Some(i) => i < self@.len() && hm_find(self@, name@) == Some(i as int),
                None => hm_find(self@, name@) is None,
            },
    {
        proof {
            assert(forall|j: int|
                0 <= j < self.virtual_hosts.len() ==> #[trigger] self@[j]
                    == self.virtual_hosts[j]@);
        }
        let mut i: usize = 0;
        while i < self.virtual_hosts.len()
            invariant
                i <= self.virtual_hosts.len(),
                forall|j: int| 0 <= j < i ==> #[trigger] self@[j].key != name@,
                forall|j: int|
                    0 <= j < self.virtual_hosts.len() ==> #[trigger] self@[j]
                        == self.virtual_hosts[j]@,
            decreases self.virtual_hosts.len() - i,
        {
            if str_eq(self.virtual_hosts[i].key.as_str(), name) {
                proof {
                    lemma_first_where_found(self@, |h: HostEntryModel| h.key == name@, i as int);
                }
                return Some(i);
            }
            i += 1;
        }
        proof {
            lemma_first_where_absent(self@, |h: HostEntryModel| h.key == name@);
        }
        None
    }

    /// Register a virtual host under `name`; a host already registered
    /// under that name is replaced.
    pub fn add(&mut self, name: String, vhost: VirtualHost)
        ensures
            final(self)@ == match hm_find(old(self)@, name@) {
                Some(i) => old(self)@.update(
                    i,
                    HostEntryModel { key: name@, host: vhost@ },
                ),
                None => old(self)@.push(HostEntryModel { key: name@, host: vhost@ }),
            },
    {
        let entry = HostEntry { key: name, host: vhost };
        match self.find(entry.key.as_str()) {
            Some(i) => {
                let slot = &mut self.virtual_hosts[i];
                *slot = entry;
                proof {
                    assert(after_borrow(self)@ =~= old(self)@.update(
                        hm_find(old(self)@, final(slot)@.key).unwrap(),
                        final(slot)@,
                    ));
                }
            },
            None => {
                self.virtual_hosts.push(entry);
                proof {
                    assert(self@ =~= old(self)@.push(entry@));
                }
            },
        }
    }

    /// Mutable access to the host registered under `name`, if any.
    pub fn get(&mut self, name: String) -> (r: Option<&mut VirtualHost>)
        ensures
            match r {
                Some(h) => {
                    &&& hm_find(old(self)@, name@) is Some
                    &&& h@ == old(self)@[hm_find(old(self)@, name@).unwrap()].host
                    &&& final(self)@ == old(self)@.update(
                        hm_find(old(self)@, name@).unwrap(),
                        HostEntryModel {
                            key: old(self)@[hm_find(old(self)@, name@).unwrap()].key,
                            host: final(h)@,
                        },
                    )
                },
                None => {
                    &&& hm_find(old(self)@, name@) is None
                    &&& final(self)@ == old(self)@
                },
            },
    {
        match self.find(name.as_str()) {
            Some(i) => {
                proof {
                    assert(old(self)@[i as int] == old(self).virtual_hosts[i as int]@);
                }
                let h = &mut self.virtual_hosts[i].host;
                proof {
                    assert(after_borrow(self)@ =~= old(self)@.update(
                        hm_find(old(self)@, name@).unwrap(),
                        HostEntryModel {
                            key: old(self)@[hm_find(old(self)@, name@).unwrap()].key,
                            host: final(h)@,
                        },
                    ));
                }
                Some(h)
            },
            None => None,
        }
    }

    /// Remove and return the host registered under `name`; absent names
    /// remove nothing.
    pub fn remove(&mut self, name: String) -> (r: Option<VirtualHost>)
        ensures
            match r {
                Some(h) => {
                    &&& hm_find(old(self)@, name@) is Some
                    &&& h@ == old(self)@[hm_find(old(self)@, name@).unwrap()].host
                    &&& final(self)@ == old(self)@.remove(hm_find(old(self)@, name@).unwrap())
                },
                None => {
                    &&& hm_find(old(self)@, name@) is None
                    &&& final(self)@ == old(self)@
                },
            },
    {
        match self.find(name.as_str()) {
            Some(i) => {
                proof {
                    assert(old(self)@[i as int] == old(self).virtual_hosts[i as int]@);
                }
                let e = self.virtual_hosts.remove(i);
                proof {
                    assert(forall|j: int|
                        0 <= j < self.virtual_hosts.len() ==> #[trigger] self@[j]
                            == self.virtual_hosts[j]@);
                    assert(self@ =~= old(self)@.remove(hm_find(old(self)@, name@).unwrap()));
                }
                Some(e.host)
            },
            None => None,
        }
    }

    /// All registered hosts, in registration order.
    pub fn get_all(&self) -> (r: Vec<&VirtualHost>)
        ensures
            r@.len() == self@.len(),
            forall|i: int| 0 <= i < self@.len() ==> #[trigger] r@[i]@ == self@[i].host,
    {
        proof {
            assert(forall|j: int|
                0 <= j < self.virtual_hosts.len() ==> #[trigger] self@[j]
                    == self.virtual_hosts[j]@);
        }
        let mut r: Vec<&VirtualHost> = Vec::new();
        let mut i: usize = 0;
        while i < self.virtual_hosts.len()
            invariant
                i <= self.virtual_hosts.len(),
                r@.len() == i,
                forall|j: int| 0 <= j < i ==> #[trigger] r@[j]@ == self@[j].host,
                forall|j: int|
                    0 <= j < self.virtual_hosts.len() ==> #[trigger] self@[j]
                        == self.virtual_hosts[j]@,
            decreases self.virtual_hosts.len() - i,
        {
            r.push(&self.virtual_hosts[i].host);
            i += 1;
        }
        r
    }

    /// Dispatch an envelope to the host it names: the named host processes
    /// it as `process_model` states; an unknown host name changes nothing
    /// and returns nothing. The envelope's host name arrives trimmed from
    /// decoding.
    pub fn send_raw_to_host(&mut self, raw: RawData, err_handle: &mut u16) -> (r: Option<
        QueueObject,
    >)
        requires
            raw.routing_key.wf(),
        ensures
            ({
                match hm_find(old(self)@, raw.virtual_host@) {
                    None => {
                        &&& final(self)@ == old(self)@
                        &&& r is None
                        &&& *final(err_handle) == *old(err_handle)
                    },
                    Some(i) => {
                        let (v2, res, flag) = process_model(old(self)@[i].host, raw@);
                        &&& final(self)@ == old(self)@.update(
                            i,
                            HostEntryModel { key: old(self)@[i].key, host: v2 },
                        )
                        &&& match r {
                            Some(obj) => res == Some(obj@),
                            None => res is None,
                        }
                        &&& *final(err_handle) == if flag {
                            0xf
                        } else {
                            *old(err_handle)
                        }
                    },
                }
            }),
    {
        let host_name = raw.virtual_host.clone();
        match self.get(host_name) {
            Some(vhost) => vhost.process_incoming(raw, err_handle),
            None => None,
        }
    }
}

} // verus!
