//! The queue discipline shared by both lock engines.
//!
//! Waiters are identified by tokens drawn from a counter, so every token in
//! a queue is below the counter's next value, and a freshly drawn token can
//! never collide with a queued one.  The release protocol always grants the
//! front of the queue; `grants` describes the tokens handed out by a run of
//! successive releases, and `lemma_fifo_order` proves that such a run serves
//! the queue strictly in enqueue order.

use vstd::prelude::*;

verus! {

/// Every token in `q` was drawn before `bound`.
pub open spec fn tokens_below(q: Seq<u64>, bound: u64) -> bool {
    forall|i: int| 0 <= i < q.len() ==> q[i] < bound
}

/// The tokens granted by `n` successive runs of the release protocol
/// against a queue that starts as `q`: each run grants the front of the
/// queue and removes it.
pub open spec fn grants(q: Seq<u64>, n: int) -> Seq<u64>
    decreases n,
{
    if n <= 0 || q.len() == 0 {
        Seq::empty()
    } else {
        seq![q[0]] + grants(q.drop_first(), n - 1)
    }
}

/// FIFO ordering: `n` successive releases against a queue of at least `n`
/// waiters grant exactly the first `n` queued tokens, in enqueue order,
/// one at a time.
pub proof fn lemma_fifo_order(q: Seq<u64>, n: int)
    requires
        0 <= n <= q.len(),
    ensures
        grants(q, n) == q.subrange(0, n),
    decreases n,
{
    if n == 0 {
        assert(grants(q, n) == Seq::<u64>::empty());
        assert(q.subrange(0, 0) =~= Seq::<u64>::empty());
    } else {
        lemma_fifo_order(q.drop_first(), n - 1);
        assert(q.drop_first().subrange(0, n - 1) =~= q.subrange(1, n));
        assert(seq![q[0]] + q.subrange(1, n) =~= q.subrange(0, n));
    }
}

/// Enqueueing at the back keeps every queued element queued.
pub proof fn lemma_push_keeps_all<A>(q: Seq<A>, t: A, x: A)
    requires
        q.contains(x),
    ensures
        q.push(t).contains(x),
{
    let j = choose|j: int| 0 <= j < q.len() && q[j] == x;
    assert(q.push(t)[j] == x);
}

/// Granting the front keeps every other queued element queued.
pub proof fn lemma_drop_first_keeps_others<A>(q: Seq<A>, x: A)
    requires
        q.len() > 0,
        q.contains(x),
        q[0] != x,
    ensures
        q.drop_first().contains(x),
{
    let j = choose|j: int| 0 <= j < q.len() && q[j] == x;
    assert(q.drop_first()[j - 1] == x);
}

/// Cancelling one waiter keeps every other queued element queued.
pub proof fn lemma_remove_keeps_others<A>(q: Seq<A>, i: int, x: A)
    requires
        0 <= i < q.len(),
        q.contains(x),
        q[i] != x,
    ensures
        q.remove(i).contains(x),
{
    let j = choose|j: int| 0 <= j < q.len() && q[j] == x;
    if j < i {
        assert(q.remove(i)[j] == x);
    } else {
        assert(q.remove(i)[j - 1] == x);
    }
}

/// A fresh token extends the queue without disturbing the waiters already
/// granted by any number of releases: whatever prefix a run of releases
/// would have served, it still serves, in the same order.
pub proof fn lemma_fifo_stable_under_enqueue(q: Seq<u64>, t: u64, n: int)
    requires
        0 <= n <= q.len(),
    ensures
        grants(q.push(t), n) == grants(q, n),
{
    lemma_fifo_order(q, n);
    lemma_fifo_order(q.push(t), n);
    assert(q.push(t).subrange(0, n) =~= q.subrange(0, n));
}

} // verus!
