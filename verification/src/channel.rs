//! The in-order message queue that models one direction of a channel
//! pair: senders append at the back, the receiver takes from the front,
//! and nothing is ever reordered, duplicated or dropped.

use vstd::prelude::*;

verus! {

/// One direction of a channel: a strict first-in, first-out queue.
#[derive(Debug)]
pub struct Fifo<T> {
    items: Vec<T>,
}

impl<T> View for Fifo<T> {
    type V = Seq<T>;

    closed spec fn view(&self) -> Seq<T> {
        self.items@
    }
}

impl<T> Fifo<T> {
    /// An empty queue.
    pub fn new() -> (r: Fifo<T>)
        ensures
            r@ == Seq::<T>::empty(),
    {
        let r = Fifo { items: Vec::new() };
        proof {
            assert(r@ =~= Seq::<T>::empty());
        }
        r
    }

    /// How many messages are queued.
    pub fn len(&self) -> (r: usize)
        ensures
            r == self@.len(),
    {
        self.items.len()
    }

    /// Appends one message at the back.
    pub fn send(&mut self, m: T)
        ensures
            final(self)@ == old(self)@.push(m),
    {
        self.items.push(m);
    }

    /// Non-blocking receive: takes the front message, if any.  The front
    /// is always the oldest message still queued.
    pub fn try_recv(&mut self) -> (r: Option<T>)
        ensures
            old(self)@.len() == 0 ==> r is None && final(self)@ == old(self)@,
            old(self)@.len() > 0 ==> (r matches Some(m) && m == old(self)@[0] && final(self)@
                == old(self)@.drop_first()),
    {
        if self.items.len() == 0 {
            None
        } else {
            let m = self.items.remove(0);
            proof {
                assert(self.items@ =~= old(self)@.drop_first());
            }
            Some(m)
        }
    }
}

/// What a receiver that keeps taking the front until the queue is empty
/// observes, given the queued sequence.
pub open spec fn received_in_full<T>(q: Seq<T>) -> Seq<T>
    decreases q,
{
    if q.len() == 0 {
        Seq::empty()
    } else {
        seq![q.first()] + received_in_full(q.drop_first())
    }
}

/// FIFO DELIVERY: for any sequence of messages queued on one direction,
/// a receiver that drains the queue observes exactly that sequence — the
/// same messages, in the same order, none lost, none duplicated and none
/// reordered.  Together with the contracts of `send` (append at the
/// back) and `try_recv` (take the front), this is the ordering guarantee
/// of a channel direction.
pub proof fn lemma_fifo_delivery<T>(q: Seq<T>)
    ensures
        received_in_full(q) == q,
    decreases q,
{
    if q.len() == 0 {
        assert(received_in_full(q) =~= q);
    } else {
        lemma_fifo_delivery(q.drop_first());
        assert(seq![q.first()] + q.drop_first() =~= q);
    }
}

} // verus!
