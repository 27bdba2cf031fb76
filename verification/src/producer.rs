//! Pull-based sequences: values that hand out one item per call until they
//! signal the end.

use vstd::prelude::*;

verus! {

/// A lazy, non-restartable sequence of items, finite or not.
///
/// The mathematical model of a producer is the stream of answers that its
/// future pulls will give: `ahead(k)` is what the `k`-th call of `next` from
/// now returns. An implementor proves, in `lemma_end_is_final`, that the
/// stream never yields an item after it has signalled the end.
pub trait Producer {
    type Item;

    /// The states in which the producer may be pulled.
    spec fn wf(&self) -> bool;

    /// The answer of the `k`-th pull from now, counting from zero: `Some(x)`
    /// for an item, `None` for the end of the sequence.
    spec fn ahead(&self, k: nat) -> Option<Self::Item>;

    /// After the end has been signalled, the next pull signals it again.
    proof fn lemma_end_is_final(&self, k: nat)
        requires
            self.wf(),
            self.ahead(k) is None,
        ensures
            self.ahead(k + 1) is None,
    ;

    /// Pulls one item. The answer is the head of the stream, and the stream
    /// that remains is the old one without its head. Once the answer is
    /// `None`, it is `None` on every further pull.
    fn next(&mut self) -> (r: Option<Self::Item>)
        requires
            old(self).wf(),
        ensures
            final(self).wf(),
            r == old(self).ahead(0),
            forall|k: nat| #[trigger] final(self).ahead(k) == old(self).ahead(k + 1),
            r is None ==> forall|k: nat| #[trigger] final(self).ahead(k) is None,
    ;
}

/// `p` hands out exactly the items of `s`, in order, and then signals the end
/// on every further pull.
pub open spec fn yields<P: Producer>(p: P, s: Seq<P::Item>) -> bool {
    forall|k: nat|
        #[trigger] p.ahead(k) == if k < s.len() {
            Some(s[k as int])
        } else {
            None
        }
}

/// `p` signals the end on the next pull and on every pull after it.
pub open spec fn exhausted<P: Producer>(p: P) -> bool {
    forall|k: nat| #[trigger] p.ahead(k) is None
}

/// Once a producer has signalled the end, it signals the end on every later
/// pull: an end at position `j` of the stream is an end at every `k >= j`.
pub proof fn lemma_end_persists<P: Producer>(p: P, j: nat, k: nat)
    requires
        p.wf(),
        p.ahead(j) is None,
        j <= k,
    ensures
        p.ahead(k) is None,
    decreases k - j,
{
    if j < k {
        p.lemma_end_is_final(j);
        lemma_end_persists(p, j + 1, k);
    }
}

/// A producer whose next pull signals the end is exhausted for good. Together
/// with the contract of `next`, this says that a pull that returned `None`
/// leaves a producer on which every further pull returns `None`.
pub proof fn lemma_exhaustion_is_idempotent<P: Producer>(p: P)
    requires
        p.wf(),
        p.ahead(0) is None,
    ensures
        exhausted(p),
{
    assert forall|k: nat| #[trigger] p.ahead(k) is None by {
        lemma_end_persists(p, 0, k);
    }
}

} // verus!
