//! The queue registry of one exchange node: queues keyed by name, created
//! idempotently and removed safely.

use vstd::prelude::*;

verus! {

use crate::common::lookup::{
    first_where,
    lemma_first_where_absent,
    lemma_first_where_found,
};
use crate::queue::qbase::{Queue, QueueModel};
use crate::queue::queue_object::QueueObjectModel;

/// The index of the queue named `name` in the registry model, if present.
pub open spec fn qm_find(qs: Seq<QueueModel>, name: Seq<char>) -> Option<int> {
    first_where(qs, |q: QueueModel| q.name == name)
}

/// A name-keyed registry of queues.
pub struct QueueManager {
    queues: Vec<Queue>,
}

impl View for QueueManager {
    type V = Seq<QueueModel>;

    closed spec fn view(&self) -> Seq<QueueModel> {
        Seq::new(self.queues.len() as nat, |i: int| self.queues[i]@)
    }
}

impl QueueManager {
    pub fn new() -> (r: QueueManager)
        ensures
            r@ == Seq::<QueueModel>::empty(),
    {
        let r = QueueManager { queues: Vec::new() };
        proof {
            assert(r@ =~= Seq::<QueueModel>::empty());
        }
        r
    }

    fn find(&self, name: &String) -> (r: Option<usize>)
        ensures
            match r {
                Some(i) => i < self@.len() && qm_find(self@, name@) == Some(i as int),
                None => qm_find(self@, name@) is None,
            },
    {
        proof {
            assert(forall|j: int|
                0 <= j < self.queues.len() ==> #[trigger] self@[j] == self.queues[j]@);
        }
        let mut i: usize = 0;
        while i < self.queues.len()
            invariant
                i <= self.queues.len(),
                forall|j: int| 0 <= j < i ==> #[trigger] self@[j].name != name@,
                forall|j: int|
                    0 <= j < self.queues.len() ==> #[trigger] self@[j] == self.queues[j]@,
            decreases self.queues.len() - i,
        {
            if *self.queues[i].name() == *name {
                proof {
                    lemma_first_where_found(self@, |q: QueueModel| q.name == name@, i as int);
                }
                return Some(i);
            }
            i += 1;
        }
        proof {
            lemma_first_where_absent(self@, |q: QueueModel| q.name == name@);
        }
        None
    }

    /// Create an empty queue under `name`; an existing queue of that name is
    /// kept untouched.
    pub fn add(&mut self, name: &String)
        ensures
            final(self)@ == if qm_find(old(self)@, name@) is Some {
                old(self)@
            } else {
                old(self)@.push(QueueModel { name: name@, items: Seq::empty() })
            },
    {
        if self.find(name).is_none() {
            self.queues.push(Queue::new(name));
            proof {
                assert(self@ =~= old(self)@.push(
                    QueueModel { name: name@, items: Seq::empty() },
                ));
            }
        } else {
            proof {
                assert(self@ =~= old(self)@);
            }
        }
    }

    /// The queue named `name`, if present.
    pub fn get(&self, name: &String) -> (r: Option<&Queue>)
        ensures
            match r {
                Some(q) => {
                    &&& qm_find(self@, name@) is Some
                    &&& q@ == self@[qm_find(self@, name@).unwrap()]
                },
                None => qm_find(self@, name@) is None,
            },
    {
        match self.find(name) {
            Some(i) => {
                proof {
                    assert(self@[i as int] == self.queues[i as int]@);
                }
                Some(&self.queues[i])
            },
            None => None,
        }
    }

    /// Mutable access to the queue named `name`, if present.
    pub fn get_mut(&mut self, name: &String) -> (r: Option<&mut Queue>)
        ensures
            match r {
                Some(q) => {
                    &&& qm_find(old(self)@, name@) is Some
                    &&& q@ == old(self)@[qm_find(old(self)@, name@).unwrap()]
                    &&& final(self)@ == old(self)@.update(
                        qm_find(old(self)@, name@).unwrap(),
                        final(q)@,
                    )
                },
                None => {
                    &&& qm_find(old(self)@, name@) is None
                    &&& final(self)@ == old(self)@
                },
            },
    {
        match self.find(name) {
            Some(i) => {
                let q = &mut self.queues[i];
                proof {
                    assert(after_borrow(self)@ =~= old(self)@.update(
                        qm_find(old(self)@, name@).unwrap(),
                        final(q)@,
                    ));
                }
                Some(q)
            },
            None => {
                proof {
                    assert(final(self)@ =~= old(self)@);
                }
                None
            },
        }
    }

    /// Remove and return the queue named `name`; absent names remove nothing.
    pub fn remove(&mut self, name: String) -> (r: Option<Queue>)
        ensures
            match r {
                Some(q) => {
                    &&& qm_find(old(self)@, name@) is Some
                    &&& q@ == old(self)@[qm_find(old(self)@, name@).unwrap()]
                    &&& final(self)@ == old(self)@.remove(qm_find(old(self)@, name@).unwrap())
                },
                None => {
                    &&& qm_find(old(self)@, name@) is None
                    &&& final(self)@ == old(self)@
                },
            },
    {
        match self.find(&name) {
            Some(i) => {
                proof {
                    assert(old(self)@[i as int] == old(self).queues[i as int]@);
                }
                let q = self.queues.remove(i);
                proof {
                    assert(forall|j: int|
                        0 <= j < self.queues.len() ==> #[trigger] self@[j] == self.queues[j]@);
                    assert(self@ =~= old(self)@.remove(qm_find(old(self)@, name@).unwrap()));
                }
                Some(q)
            },
            None => None,
        }
    }

    /// All queues, in registration order.
    pub fn get_all(&self) -> (r: &Vec<Queue>)
        ensures
            r@.len() == self@.len(),
            forall|i: int| 0 <= i < self@.len() ==> #[trigger] r@[i]@ == self@[i],
    {
        &self.queues
    }
}

} // verus!
