//! A slice of bytes as a producer.

use crate::producer::{yields, Producer};
use vstd::prelude::*;

verus! {

/// Producer over the bytes of a slice, from the first to the last.
pub struct SliceBytes<'a> {
    data: &'a [u8],
    pos: usize,
}

impl<'a> SliceBytes<'a> {
    /// A producer that yields the bytes of `data`.
    pub fn new(data: &'a [u8]) -> (r: Self)
        ensures
            r.wf(),
            r@ == data@,
            yields(r, data@),
    {
        let r = SliceBytes { data, pos: 0 };
        assert(r@ =~= data@);
        r
    }
}

impl<'a> View for SliceBytes<'a> {
    type V = Seq<u8>;

    /// The bytes that are still to come, in the order in which they come.
    closed spec fn view(&self) -> Seq<u8> {
        self.data@.skip(self.pos as int)
    }
}

impl<'a> Producer for SliceBytes<'a> {
    type Item = u8;

    closed spec fn wf(&self) -> bool {
        self.pos <= self.data@.len()
    }

    open spec fn ahead(&self, k: nat) -> Option<u8> {
        if k < self@.len() {
            Some(self@[k as int])
        } else {
            None
        }
    }

    proof fn lemma_end_is_final(&self, k: nat) {
    }

    /// Hands out the first byte that is left, if any is left.
    fn next(&mut self) -> (r: Option<u8>)
        ensures
            old(self)@.len() == 0 ==> final(self)@ == old(self)@,
            old(self)@.len() > 0 ==> final(self)@ == old(self)@.drop_first(),
    {
        if self.pos < self.data.len() {
            let byte = self.data[self.pos];
            self.pos += 1;
            assert(self@ =~= old(self)@.drop_first());
            Some(byte)
        } else {
            None
        }
    }
}

} // verus!
