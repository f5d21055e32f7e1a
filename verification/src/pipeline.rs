//! The delivery pipeline's verified core: the message type, the bounded
//! FIFO queue joining producer threads to the single writer, and the
//! ordering law that holds over it. Threads themselves live with the
//! runner; the queue's contract is what the pipeline's guarantees rest
//! on: messages leave in exactly the order they entered, a full queue
//! rejects (the runner turns that into backpressure), and a drain hands
//! back everything that was pending, in order.

use vstd::prelude::*;
use vstd::seq_lib::*;
use crate::snapshot::Snapshot;

verus! {

/// One message handed to the writer.
pub enum Message {
    /// Deliver this snapshot to these appenders, by table index.
    Entry { appenders: Vec<usize>, snapshot: Snapshot },
    /// Flush every appender.
    Flush,
    /// Flush everything and stop the writer; the queue is drained first.
    Shutdown,
}

/// The bounded FIFO queue between producers and the writer.
pub struct BoundedQueue {
    items: Vec<Message>,
    capacity: usize,
}

impl View for BoundedQueue {
    type V = Seq<Message>;

    closed spec fn view(&self) -> Seq<Message> {
        self.items@
    }
}

impl BoundedQueue {
    /// The queue's fixed capacity.
    pub closed spec fn spec_capacity(&self) -> int {
        self.capacity as int
    }

    /// The queue never holds more than its capacity.
    pub open spec fn wf(&self) -> bool {
        self@.len() <= self.spec_capacity()
    }

    /// An empty queue of the given capacity.
    pub fn new(capacity: usize) -> (r: BoundedQueue)
        requires
            capacity >= 1,
        ensures
            r@ == Seq::<Message>::empty(),
            r.spec_capacity() == capacity,
            r.wf(),
    {
        BoundedQueue { items: Vec::new(), capacity }
    }

    /// How many messages are pending.
    pub fn len(&self) -> (r: usize)
        ensures
            r == self@.len(),
    {
        self.items.len()
    }

    /// Appends a message at the tail, unless the queue is full. The
    /// message is accepted exactly when there is room; a full queue
    /// hands the message back unchanged, and the caller blocks or drops
    /// by its own policy.
    pub fn try_push(&mut self, m: Message) -> (rejected: Option<Message>)
        requires
            old(self).wf(),
        ensures
            rejected is None <==> old(self)@.len() < old(self).spec_capacity(),
            rejected is None ==> final(self)@ == old(self)@.push(m),
            rejected matches Some(back) ==> final(self)@ == old(self)@ && back == m,
            final(self).spec_capacity() == old(self).spec_capacity(),
            final(self).wf(),
    {
        if self.items.len() < self.capacity {
            self.items.push(m);
            None
        } else {
            Some(m)
        }
    }

    /// Removes and returns the oldest message, if any.
    pub fn pop(&mut self) -> (r: Option<Message>)
        ensures
            old(self)@.len() == 0 ==> r is None && final(self)@ == old(self)@,
            old(self)@.len() > 0 ==> r == Some(old(self)@[0]) && final(self)@ == old(
                self,
            )@.drop_first(),
            final(self).spec_capacity() == old(self).spec_capacity(),
    {
        if self.items.len() == 0 {
            None
        } else {
            let m = self.items.remove(0);
            proof {
                assert(self.items@ =~= old(self)@.drop_first());
            }
            Some(m)
        }
    }

    /// Hands back every pending message, in order, leaving the queue
    /// empty: the drain step of the shutdown protocol. Nothing is lost
    /// and nothing is reordered.
    pub fn drain(&mut self) -> (r: Vec<Message>)
        ensures
            r@ == old(self)@,
            final(self)@ == Seq::<Message>::empty(),
            final(self).spec_capacity() == old(self).spec_capacity(),
    {
        let mut out: Vec<Message> = Vec::new();
        core::mem::swap(&mut out, &mut self.items);
        out
    }
}

/// In any interleaved enqueue order, the messages a predicate selects —
/// for instance, one producer thread's messages — stand in their own
/// relative order; what the writer has consumed of them so far is
/// exactly a prefix of that order. `pushed` is the full enqueue order,
/// `delivered` what the writer has taken (the queue is FIFO, so that is
/// a prefix), and `pred` selects one producer's messages.
pub proof fn lemma_fifo_preserves_each_producer_order(
    pushed: Seq<Message>,
    delivered: Seq<Message>,
    pred: spec_fn(Message) -> bool,
    k: int,
)
    requires
        0 <= k <= pushed.len(),
        delivered == pushed.take(k),
    ensures
        delivered.filter(pred).len() <= pushed.filter(pred).len(),
        delivered.filter(pred) == pushed.filter(pred).take(delivered.filter(pred).len() as int),
    decreases pushed.len() - k,
{
    reveal(Seq::filter);
    if k == pushed.len() {
        assert(pushed.take(k) =~= pushed);
        assert(delivered.filter(pred).take(delivered.filter(pred).len() as int) =~= delivered
            .filter(pred));
    } else {
        let next = pushed.take(k + 1);
        lemma_fifo_preserves_each_producer_order(pushed, next, pred, k + 1);
        assert(next.drop_last() =~= delivered);
        assert(next.last() == pushed[k]);
        if pred(pushed[k]) {
            assert(next.filter(pred) == delivered.filter(pred).push(pushed[k]));
            assert(next.filter(pred).take(next.filter(pred).len() - 1) =~= delivered.filter(
                pred,
            ));
            assert(pushed.filter(pred).take(delivered.filter(pred).len() as int) =~= delivered
                .filter(pred));
        } else {
            assert(next.filter(pred) == delivered.filter(pred));
        }
    }
}

} // verus!
