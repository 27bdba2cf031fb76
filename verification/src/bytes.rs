//! Decomposition of a fixed-width integer into its bytes, most significant
//! byte first.

use crate::producer::{yields, Producer};
use std::mem::size_of;
use vstd::arithmetic::div_mod::{lemma_breakdown, lemma_div_denominator, lemma_small_mod};
use vstd::arithmetic::power2::{
    lemma2_to64, lemma2_to64_rest, lemma_pow2_adds, lemma_pow2_pos, pow2,
};
use vstd::prelude::*;

verus! {

/// Width of a byte, in bits.
const BYTE_WIDTH: usize = 8;

/// Mask to extract the least significant byte from a number.
const BYTE_MASK: u64 = 0xFF;

/// Two to the power `shift`. The powers at the byte boundaries below 64 are
/// written out, so that a byte of a given number at a given place evaluates
/// without a proof; `lemma_place_is_pow2` shows that they are the powers.
pub open spec fn place(shift: nat) -> nat {
    if shift == 0 {
        0x1
    } else if shift == 8 {
        0x100
    } else if shift == 16 {
        0x1_0000
    } else if shift == 24 {
        0x100_0000
    } else if shift == 32 {
        0x1_0000_0000
    } else if shift == 40 {
        0x100_0000_0000
    } else if shift == 48 {
        0x1_0000_0000_0000
    } else if shift == 56 {
        0x100_0000_0000_0000
    } else {
        pow2(shift)
    }
}

/// The eight bits of `p` that start `shift` bits above its least significant
/// bit.
pub open spec fn byte_at(p: nat, shift: nat) -> u8 {
    ((p / place(shift)) % 256) as u8
}

/// The low `8 * n` bits of `p` as `n` bytes, most significant byte first.
pub open spec fn big_endian(p: nat, n: nat) -> Seq<u8> {
    Seq::new(n, |k: int| byte_at(p, (8 * (n - 1 - k)) as nat))
}

/// The number that a sequence of bytes denotes when it is read most
/// significant byte first: the left fold of `acc * 256 + byte` from zero.
pub open spec fn be_value(s: Seq<u8>) -> nat
    decreases s.len(),
{
    if s.len() == 0 {
        0
    } else {
        be_value(s.drop_last()) * 256 + s.last() as nat
    }
}

/// Producer of the bytes of a number, most significant byte first.
///
/// `pos` counts the bits of `item` that have not been handed out yet.
#[derive(Debug, PartialEq, Clone)]
pub struct Bytes<T> {
    pub item: T,
    pub pos: usize,
}

/// Fixed-width integers that can be taken apart into bytes.
pub trait ToBytes: Copy + Sized {
    /// Width of the type in bits.
    spec fn bit_width() -> nat;

    /// The bits of the value read as an unsigned number: the value itself
    /// where it is not negative, and the value plus two to the power
    /// `bit_width()` where it is.
    spec fn bits(self) -> nat;

    /// The value whose bits, read as an unsigned number, are `p`.
    spec fn from_bits(p: nat) -> Self;

    /// The type is 8, 16, 32 or 64 bits wide, and that is its size.
    proof fn lemma_width()
        ensures
            Self::bit_width() == 8 || Self::bit_width() == 16 || Self::bit_width() == 32
                || Self::bit_width() == 64,
            Self::bit_width() == 8 * vstd::layout::size_of::<Self>(),
    ;

    /// The bits of a value fit the width of its type and determine the value.
    proof fn lemma_bits(self)
        ensures
            self.bits() < pow2(Self::bit_width()),
            Self::from_bits(self.bits()) == self,
    ;

    /// Reinterprets the value as its unsigned bit pattern.
    fn to_u64(self) -> (p: u64)
        ensures
            p == self.bits(),
    ;

    /// Get the producer of the value's bytes, with all of them still to
    /// come.
    fn bytes(self) -> (r: Bytes<Self>)
        ensures
            r.item == self,
            r.pos == Self::bit_width(),
            r.pos % 8 == 0,
            8 <= r.pos <= 64,
    {
        proof {
            Self::lemma_width();
        }
        Bytes { item: self, pos: size_of::<Self>() * BYTE_WIDTH }
    }
}

impl<T: ToBytes> Bytes<T> {
    /// The producer that `item.bytes()` returns.
    pub open spec fn of(item: T) -> Self {
        Bytes { item, pos: T::bit_width() as usize }
    }
}

impl<T: ToBytes> View for Bytes<T> {
    type V = Seq<u8>;

    /// The bytes that are still to come, in the order in which they come:
    /// the low `pos` bits of the item, most significant byte first.
    open spec fn view(&self) -> Seq<u8> {
        big_endian(self.item.bits(), (self.pos / 8) as nat)
    }
}

impl<T: ToBytes> Producer for Bytes<T> {
    type Item = u8;

    /// `pos` is a multiple of 8 and at most the width of `T`.
    open spec fn wf(&self) -> bool {
        &&& self.pos % 8 == 0
        &&& self.pos <= T::bit_width()
    }

    open spec fn ahead(&self, k: nat) -> Option<u8> {
        if k < self@.len() {
            Some(self@[k as int])
        } else {
            None
        }
    }

    proof fn lemma_end_is_final(&self, k: nat) {
    }

    /// Hands out the most significant byte that is left, if any is left:
    /// `pos` goes down by 8, and the byte is the one that starts at the new
    /// `pos`. With no bit left it signals the end and changes nothing.
    fn next(&mut self) -> (r: Option<u8>)
        ensures
            final(self).item == old(self).item,
            old(self).pos == 0 ==> r is None && final(self).pos == 0,
            old(self).pos != 0 ==> final(self).pos == old(self).pos - 8 && r == Some(
                byte_at(old(self).item.bits(), (old(self).pos - 8) as nat),
            ),
    {
        match self.pos {
            0 => None,
            _ => {
                proof {
                    T::lemma_width();
                }
                self.pos -= BYTE_WIDTH;
                let shift = self.pos;
                let bits = self.item.to_u64();
                let shifted = bits >> shift;
                let byte = shifted & BYTE_MASK;
                proof {
                    lemma_place_is_pow2(shift as nat);
                    vstd::bits::lemma_u64_shr_is_div(bits, shift as u64);
                    assert(shifted & 0xFF == shifted % 256) by (bit_vector);
                }
                Some(byte as u8)
            },
        }
    }
}

impl ToBytes for u8 {
    open spec fn bit_width() -> nat {
        8
    }

    open spec fn bits(self) -> nat {
        self as nat
    }

    open spec fn from_bits(p: nat) -> Self {
        p as u8
    }

    proof fn lemma_width() {
        broadcast use vstd::layout::layout_of_primitives;

    }

    proof fn lemma_bits(self) {
        lemma2_to64();
    }

    fn to_u64(self) -> (p: u64) {
        self as u64
    }
}

impl ToBytes for u16 {
    open spec fn bit_width() -> nat {
        16
    }

    open spec fn bits(self) -> nat {
        self as nat
    }

    open spec fn from_bits(p: nat) -> Self {
        p as u16
    }

    proof fn lemma_width() {
        broadcast use vstd::layout::layout_of_primitives;

    }

    proof fn lemma_bits(self) {
        lemma2_to64();
    }

    fn to_u64(self) -> (p: u64) {
        self as u64
    }
}

impl ToBytes for u32 {
    open spec fn bit_width() -> nat {
        32
    }

    open spec fn bits(self) -> nat {
        self as nat
    }

    open spec fn from_bits(p: nat) -> Self {
        p as u32
    }

    proof fn lemma_width() {
        broadcast use vstd::layout::layout_of_primitives;

    }

    proof fn lemma_bits(self) {
        lemma2_to64();
    }

    fn to_u64(self) -> (p: u64) {
        self as u64
    }
}

impl ToBytes for u64 {
    open spec fn bit_width() -> nat {
        64
    }

    open spec fn bits(self) -> nat {
        self as nat
    }

    open spec fn from_bits(p: nat) -> Self {
        p as u64
    }

    proof fn lemma_width() {
        broadcast use vstd::layout::layout_of_primitives;

    }

    proof fn lemma_bits(self) {
        lemma2_to64();
    }

    fn to_u64(self) -> (p: u64) {
        self as u64
    }
}

impl ToBytes for i8 {
    open spec fn bit_width() -> nat {
        8
    }

    open spec fn bits(self) -> nat {
        if self >= 0 {
            self as nat
        } else {
            (self + 0x100) as nat
        }
    }

    open spec fn from_bits(p: nat) -> Self {
        if p < 0x80 {
            p as i8
        } else {
            (p - 0x100) as i8
        }
    }

    proof fn lemma_width() {
        broadcast use vstd::layout::layout_of_primitives;

    }

    proof fn lemma_bits(self) {
        lemma2_to64();
    }

    fn to_u64(self) -> (p: u64) {
        let unsigned = self as u8;
        assert(unsigned == if self >= 0 {
            self as int
        } else {
            self + 0x100
        }) by (bit_vector)
            requires
                unsigned == self as u8,
        ;
        unsigned as u64
    }
}

impl ToBytes for i16 {
    open spec fn bit_width() -> nat {
        16
    }

    open spec fn bits(self) -> nat {
        if self >= 0 {
            self as nat
        } else {
            (self + 0x1_0000) as nat
        }
    }

    open spec fn from_bits(p: nat) -> Self {
        if p < 0x8000 {
            p as i16
        } else {
            (p - 0x1_0000) as i16
        }
    }

    proof fn lemma_width() {
        broadcast use vstd::layout::layout_of_primitives;

    }

    proof fn lemma_bits(self) {
        lemma2_to64();
    }

    fn to_u64(self) -> (p: u64) {
        let unsigned = self as u16;
        assert(unsigned == if self >= 0 {
            self as int
        } else {
            self + 0x1_0000
        }) by (bit_vector)
            requires
                unsigned == self as u16,
        ;
        unsigned as u64
    }
}

impl ToBytes for i32 {
    open spec fn bit_width() -> nat {
        32
    }

    open spec fn bits(self) -> nat {
        if self >= 0 {
            self as nat
        } else {
            (self + 0x1_0000_0000) as nat
        }
    }

    open spec fn from_bits(p: nat) -> Self {
        if p < 0x8000_0000 {
            p as i32
        } else {
            (p - 0x1_0000_0000) as i32
        }
    }

    proof fn lemma_width() {
        broadcast use vstd::layout::layout_of_primitives;

    }

    proof fn lemma_bits(self) {
        lemma2_to64();
    }

    fn to_u64(self) -> (p: u64) {
        let unsigned = self as u32;
        assert(unsigned == if self >= 0 {
            self as int
        } else {
            self + 0x1_0000_0000
        }) by (bit_vector)
            requires
                unsigned == self as u32,
        ;
        unsigned as u64
    }
}

impl ToBytes for i64 {
    open spec fn bit_width() -> nat {
        64
    }

    open spec fn bits(self) -> nat {
        if self >= 0 {
            self as nat
        } else {
            (self + 0x1_0000_0000_0000_0000) as nat
        }
    }

    open spec fn from_bits(p: nat) -> Self {
        if p < 0x8000_0000_0000_0000 {
            p as i64
        } else {
            (p - 0x1_0000_0000_0000_0000) as i64
        }
    }

    proof fn lemma_width() {
        broadcast use vstd::layout::layout_of_primitives;

    }

    proof fn lemma_bits(self) {
        lemma2_to64();
    }

    fn to_u64(self) -> (p: u64) {
        let unsigned = self as u64;
        assert(unsigned == if self >= 0 {
            self as int
        } else {
            self + 0x1_0000_0000_0000_0000
        }) by (bit_vector)
            requires
                unsigned == self as u64,
        ;
        unsigned as u64
    }
}

/// `place` is the power of two, at every shift.
pub proof fn lemma_place_is_pow2(shift: nat)
    ensures
        place(shift) == pow2(shift),
{
    lemma2_to64();
    lemma2_to64_rest();
}

/// Dropping the lowest byte of a number moves every other byte down by
/// eight bits.
proof fn lemma_byte_at_shifted(p: nat, shift: nat)
    ensures
        byte_at(p / 256, shift) == byte_at(p, shift + 8),
{
    lemma2_to64();
    lemma_place_is_pow2(shift);
    lemma_place_is_pow2(shift + 8);
    lemma_pow2_pos(shift);
    lemma_pow2_adds(8, shift);
    lemma_div_denominator(p as int, 256, pow2(shift) as int);
}

/// Reading the `n` big-endian bytes of a number back gives its low `8 * n`
/// bits.
pub proof fn lemma_be_value_of_big_endian(p: nat, n: nat)
    ensures
        be_value(big_endian(p, n)) == p % pow2(8 * n),
    decreases n,
{
    lemma2_to64();
    let s = big_endian(p, n);
    if n > 0 {
        let rest = big_endian(p / 256, (n - 1) as nat);
        assert(s.drop_last() =~= rest) by {
            assert forall|k: int| 0 <= k < n - 1 implies s[k] == rest[k] by {
                lemma_byte_at_shifted(p, (8 * (n - 2 - k)) as nat);
            }
        }
        lemma_be_value_of_big_endian(p / 256, (n - 1) as nat);
        let m = pow2((8 * (n - 1)) as nat);
        lemma_pow2_pos((8 * (n - 1)) as nat);
        lemma_pow2_adds(8, (8 * (n - 1)) as nat);
        lemma_breakdown(p as int, 256, m as int);
        assert(s.last() == byte_at(p, 0));
    }
}

/// The producer that `v.bytes()` returns holds one byte for each eight bits
/// of its type: it hands out exactly `T::bit_width() / 8` bytes, those of the
/// bits of `v` from the most significant down, and signals the end on every
/// pull after them.
pub proof fn lemma_decompose_length<T: ToBytes>(v: T)
    ensures
        Bytes::of(v).wf(),
        Bytes::of(v)@.len() == T::bit_width() / 8,
        Bytes::of(v)@ == big_endian(v.bits(), T::bit_width() / 8),
        yields(Bytes::of(v), Bytes::of(v)@),
{
    T::lemma_width();
}

/// Folding the bytes that `v.bytes()` hands out, most significant first,
/// gives back the bits of `v`, and with them `v` itself: also where `v` is
/// negative.
pub proof fn lemma_decompose_round_trip<T: ToBytes>(v: T)
    ensures
        be_value(Bytes::of(v)@) == v.bits(),
        T::from_bits(be_value(Bytes::of(v)@)) == v,
{
    T::lemma_width();
    v.lemma_bits();
    let n = T::bit_width() / 8;
    lemma_be_value_of_big_endian(v.bits(), n);
    lemma_small_mod(v.bits(), pow2(8 * n));
}

} // verus!
