//! The identities that wait for the next frame to be destroyed.

use vstd::prelude::*;

verus! {

/// The queue after `enqueue` with `id`.
pub open spec fn enqueued(waiting: Seq<usize>, id: usize) -> Seq<usize> {
    waiting.push(id)
}

/// The queue after `enqueue` with each of `ids` in turn.
pub open spec fn enqueued_all(waiting: Seq<usize>, ids: Seq<usize>) -> Seq<usize>
    decreases ids.len(),
{
    if ids.len() == 0 {
        waiting
    } else {
        enqueued(enqueued_all(waiting, ids.drop_last()), ids.last())
    }
}

/// What `drain` hands out, and the queue that it leaves.
pub open spec fn drained(waiting: Seq<usize>) -> (Seq<usize>, Seq<usize>) {
    (waiting, Seq::empty())
}

/// A queue of window identities. Whoever may not destroy a window on the
/// spot puts its identity here; the frame driver empties the queue at the
/// start of the next tick, before any other frame work, and destroys what it
/// finds, in the order in which it was put in.
pub struct DestroyQueue {
    pending: Vec<usize>,
}

impl DestroyQueue {
    /// The identities that wait, oldest first.
    pub closed spec fn view(&self) -> Seq<usize> {
        self.pending@
    }

    /// An empty queue.
    pub fn new() -> (queue: Self)
        ensures
            queue@ == Seq::<usize>::empty(),
    {
        DestroyQueue { pending: Vec::new() }
    }

    /// Puts `id` at the end. Nothing is destroyed yet.
    pub fn enqueue(&mut self, id: usize)
        ensures
            final(self)@ == enqueued(old(self)@, id),
    {
        self.pending.push(id);
    }

    /// Empties the queue and hands out what was in it, oldest first.
    pub fn drain(&mut self) -> (ids: Vec<usize>)
        ensures
            (ids@, final(self)@) == drained(old(self)@),
    {
        let mut ids: Vec<usize> = Vec::new();
        std::mem::swap(&mut self.pending, &mut ids);
        ids
    }

    /// How many identities wait.
    pub fn len(&self) -> (n: usize)
        ensures
            n == self@.len(),
    {
        self.pending.len()
    }

    /// Whether nothing waits.
    pub fn is_empty(&self) -> (empty: bool)
        ensures
            empty == (self@.len() == 0),
    {
        self.pending.len() == 0
    }
}

/// First in, first out, and each identity once: what was put into a queue
/// comes out of the next drain behind what waited before, in the order in
/// which it was put in, and a drain right after that finds nothing.
pub proof fn lemma_drain_is_fifo_once(waiting: Seq<usize>, added: Seq<usize>)
    ensures
        drained(enqueued_all(waiting, added)).0 == waiting + added,
        drained(drained(enqueued_all(waiting, added)).1).0 == Seq::<usize>::empty(),
    decreases added.len(),
{
    if added.len() > 0 {
        lemma_drain_is_fifo_once(waiting, added.drop_last());
        assert(waiting + added =~= (waiting + added.drop_last()).push(added.last()));
    } else {
        assert(waiting + added =~= waiting);
    }
}

} // verus!
