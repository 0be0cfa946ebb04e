//! The FIFO message queue: push at the tail, pop at the head, non-destructive
//! peek and a full clear. The length is derived from the underlying sequence,
//! so counter and contents can never disagree. The proof at the end states
//! the FIFO law: any number of pushes followed by as many fetches hands the
//! messages back in push order.

use vstd::prelude::*;

verus! {

use crate::queue::queue_object::{QueueObject, QueueObjectModel};

/// The mathematical value of a queue: its name and the ordered messages,
/// head first.
#[verifier::ext_equal]
pub struct QueueModel {
    pub name: Seq<char>,
    pub items: Seq<QueueObjectModel>,
}

/// A named FIFO container of messages.
pub struct Queue {
    name: String,
    data: Vec<QueueObject>,
}

impl View for Queue {
    type V = QueueModel;

    closed spec fn view(&self) -> QueueModel {
        QueueModel {
            name: self.name@,
            items: Seq::new(self.data.len() as nat, |i: int| self.data[i]@),
        }
    }
}

impl Queue {
    pub fn new(name: &String) -> (r: Queue)
        ensures
            r@.name == name@,
            r@.items == Seq::<QueueObjectModel>::empty(),
    {
        let r = Queue { name: name.clone(), data: Vec::new() };
        proof {
            assert(r@.items =~= Seq::<QueueObjectModel>::empty());
        }
        r
    }

    /// The queue's name, as it was registered.
    pub fn name(&self) -> (r: &String)
        ensures
            r@ == self@.name,
    {
        &self.name
    }

    /// The number of pending messages.
    pub fn len(&self) -> (r: usize)
        ensures
            r == self@.items.len(),
    {
        self.data.len()
    }

    /// Append one message at the tail.
    pub fn push_back(&mut self, value: QueueObject)
        ensures
            final(self)@.name == old(self)@.name,
            final(self)@.items == old(self)@.items.push(value@),
    {
        self.data.push(value);
        proof {
            assert(self@.items =~= old(self)@.items.push(value@));
        }
    }

    /// Remove and return the message at the head; `None` on an empty queue,
    /// which is left unchanged.
    pub fn pop_front(&mut self) -> (r: Option<QueueObject>)
        ensures
            match r {
                Some(obj) => old(self)@.items.len() > 0 && obj@ == old(self)@.items.first()
                    && final(self)@.items == old(self)@.items.drop_first(),
                None => old(self)@.items.len() == 0 && final(self)@.items == old(self)@.items,
            },
            final(self)@.name == old(self)@.name,
    {
        if self.is_empty() {
            return None;
        }
        let obj = self.data.remove(0);
        proof {
            assert(self@.items =~= old(self)@.items.drop_first());
        }
        Some(obj)
    }

    /// A copy of the message at the head, without removing it.
    pub fn peek(&self) -> (r: Option<QueueObject>)
        ensures
            match r {
                Some(obj) => self@.items.len() > 0 && obj@ == self@.items.first(),
                None => self@.items.len() == 0,
            },
    {
        if self.is_empty() {
            return None;
        }
        Some(self.data[0].clone())
    }

    pub fn is_empty(&self) -> (r: bool)
        ensures
            r == (self@.items.len() == 0),
    {
        self.data.is_empty()
    }

    /// Drop all pending messages.
    pub fn clear(&mut self)
        ensures
            final(self)@.name == old(self)@.name,
            final(self)@.items == Seq::<QueueObjectModel>::empty(),
    {
        self.data.clear();
        proof {
            assert(self@.items =~= Seq::<QueueObjectModel>::empty());
        }
    }
}

/// The contents of a queue after `n` single pushes of `xs` in order, exactly
/// as `push_back` transforms the model one call at a time.
pub open spec fn after_pushes(
    items: Seq<QueueObjectModel>,
    xs: Seq<QueueObjectModel>,
    n: int,
) -> Seq<QueueObjectModel>
    recommends
        n <= xs.len(),
    decreases n,
{
    if n <= 0 {
        items
    } else {
        after_pushes(items, xs, n - 1).push(xs[n - 1])
    }
}

/// The messages handed back by `n` single fetches, exactly as `pop_front`
/// transforms the model one call at a time; fetching stops early on an empty
/// queue.
pub open spec fn fetch_results(items: Seq<QueueObjectModel>, n: int) -> Seq<QueueObjectModel>
    decreases n,
{
    if n <= 0 || items.len() == 0 {
        Seq::empty()
    } else {
        seq![items.first()] + fetch_results(items.drop_first(), n - 1)
    }
}

proof fn lemma_after_pushes_take(items: Seq<QueueObjectModel>, xs: Seq<QueueObjectModel>, n: int)
    requires
        0 <= n <= xs.len(),
    ensures
        after_pushes(items, xs, n) == items + xs.take(n),
    decreases n,
{
    if n <= 0 {
        assert(after_pushes(items, xs, 0) =~= items + xs.take(0));
    } else {
        lemma_after_pushes_take(items, xs, n - 1);
        assert((items + xs.take(n - 1)).push(xs[n - 1]) =~= items + xs.take(n));
    }
}

proof fn lemma_fetch_results_take(items: Seq<QueueObjectModel>, n: int)
    requires
        0 <= n <= items.len(),
    ensures
        fetch_results(items, n) == items.take(n),
    decreases n,
{
    if n <= 0 || items.len() == 0 {
        assert(fetch_results(items, n) =~= items.take(n));
    } else {
        lemma_fetch_results_take(items.drop_first(), n - 1);
        assert(items.drop_first().take(n - 1) =~= items.subrange(1, n));
        assert(seq![items.first()] + items.subrange(1, n) =~= items.take(n));
    }
}

/// FIFO order: starting from an empty queue, pushing the messages `xs` one by
/// one and then fetching as many times hands back exactly `xs`, in push order.
pub proof fn lemma_fifo_order(xs: Seq<QueueObjectModel>)
    ensures
        fetch_results(after_pushes(Seq::empty(), xs, xs.len() as int), xs.len() as int) == xs,
{
    lemma_after_pushes_take(Seq::empty(), xs, xs.len() as int);
    assert(Seq::empty() + xs.take(xs.len() as int) =~= xs);
    lemma_fetch_results_take(xs, xs.len() as int);
    assert(xs.take(xs.len() as int) =~= xs);
}

} // verus!
