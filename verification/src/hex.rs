//! Lowercase hexadecimal encoding of a stream of bytes, two characters per
//! byte.

use crate::producer::{lemma_end_persists, yields, Producer};
use vstd::prelude::*;

verus! {

/// The sixteen hexadecimal digits, in the order of their values.
pub open spec fn hex_alphabet() -> Seq<char> {
    seq!['0', '1', '2', '3', '4', '5', '6', '7', '8', '9', 'a', 'b', 'c', 'd', 'e', 'f']
}

/// The digit that stands for the nibble `n`.
pub open spec fn hex_digit(n: nat) -> char
    recommends
        n < 16,
{
    hex_alphabet()[n as int]
}

/// The two digits of a byte: that of its high nibble, then that of its low
/// nibble.
pub open spec fn hex_pair(byte: u8) -> (char, char) {
    (hex_digit((byte / 16) as nat), hex_digit((byte % 16) as nat))
}

/// The character at position `j` of the encoding of a stream of bytes, given
/// the byte at position `j / 2` of that stream.
pub open spec fn hex_char(byte: Option<u8>, j: nat) -> Option<char> {
    match byte {
        Some(b) => Some(
            if j % 2 == 0 {
                hex_pair(b).0
            } else {
                hex_pair(b).1
            },
        ),
        None => None,
    }
}

/// The encoding of a sequence of bytes: for each byte in turn, its two
/// digits.
pub open spec fn hex_string(bytes: Seq<u8>) -> Seq<char> {
    Seq::new(
        2 * bytes.len(),
        |j: int|
            if j % 2 == 0 {
                hex_pair(bytes[j / 2]).0
            } else {
                hex_pair(bytes[j / 2]).1
            },
    )
}

/// The digit of a nibble.
fn digit(nibble: u8) -> (c: char)
    requires
        nibble < 16,
    ensures
        c == hex_digit(nibble as nat),
{
    if nibble < 10 {
        ('0' as u8 + nibble) as char
    } else {
        ('a' as u8 + (nibble - 10)) as char
    }
}

/// Hex-encodes a single byte.
pub fn to_hex(byte: u8) -> (r: (char, char))
    ensures
        r == hex_pair(byte),
{
    // split first four and last four bits
    let first = byte >> 4;
    let second = byte & 0b00001111;
    assert(byte >> 4 == byte / 16 && byte & 0b00001111 == byte % 16) by (bit_vector);
    (digit(first), digit(second))
}

/// Producer adaptor that hex-encodes data.
///
/// `store` holds the second digit of the byte that was pulled last, from the
/// moment its first digit is handed out until it is handed out itself.
pub struct ToHexIter<T: Producer<Item = u8>> {
    input: T,
    store: Option<char>,
}

impl<T: Producer<Item = u8>> ToHexIter<T> {
    /// The producer of bytes that is being encoded.
    pub closed spec fn source(&self) -> T {
        self.input
    }

    /// The digit that is waiting to be handed out, if one is.
    pub closed spec fn pending(&self) -> Option<char> {
        self.store
    }

    /// Create a new `ToHexIter` from a producer of bytes.
    pub fn new(iter: T) -> (r: Self)
        ensures
            r.source() == iter,
            r.pending() is None,
    {
        ToHexIter { input: iter, store: None }
    }
}

impl<T: Producer<Item = u8>> Producer for ToHexIter<T> {
    type Item = char;

    open spec fn wf(&self) -> bool {
        self.source().wf()
    }

    /// The pending digit, if there is one, and then two digits for each byte
    /// that the source has ahead.
    open spec fn ahead(&self, k: nat) -> Option<char> {
        match self.pending() {
            Some(c) => if k == 0 {
                Some(c)
            } else {
                hex_char(self.source().ahead((k - 1) as nat / 2), (k - 1) as nat)
            },
            None => hex_char(self.source().ahead(k / 2), k),
        }
    }

    proof fn lemma_end_is_final(&self, k: nat) {
        let src = self.source();
        match self.pending() {
            Some(_) => {
                if k > 0 {
                    lemma_end_persists(src, (k - 1) as nat / 2, k / 2);
                }
            },
            None => {
                lemma_end_persists(src, k / 2, (k + 1) / 2);
            },
        }
    }

    /// Hands out the pending digit if there is one, and leaves the source
    /// alone. Otherwise pulls once from the source: for a byte it hands out
    /// the first digit and keeps the second, for the end it signals the end.
    /// So each character that is handed out flips whether a digit is pending.
    fn next(&mut self) -> (r: Option<char>)
        ensures
            r is Some ==> (final(self).pending() is Some <==> old(self).pending() is None),
            r is None ==> final(self).pending() is None,
            old(self).pending() is Some ==> ({
                &&& final(self).pending() is None
                &&& final(self).source() == old(self).source()
            }),
            old(self).pending() is None ==> ({
                &&& final(self).pending() == hex_char(old(self).source().ahead(0), 1)
                &&& forall|k: nat| #[trigger]
                    final(self).source().ahead(k) == old(self).source().ahead(k + 1)
            }),
    {
        let store = self.store;
        match store {
            Some(val) => {
                self.store = None;
                Some(val)
            },
            None => {
                let next = self.input.next();
                match next {
                    None => None,
                    Some(val) => {
                        let (first, second) = to_hex(val);
                        self.store = Some(second);
                        Some(first)
                    },
                }
            },
        }
    }
}

/// Turn an arbitrary producer of bytes into a `ToHexIter`.
pub trait ToHex: Producer<Item = u8> + Sized {
    fn to_hex(self) -> (r: ToHexIter<Self>)
        ensures
            r.source() == self,
            r.pending() is None,
    {
        ToHexIter::new(self)
    }
}

impl<T> ToHex for T where T: Producer<Item = u8> {
}

/// An encoder with no digit pending hands out two characters for each byte
/// of its source: where the source yields the `n` bytes of `bytes`, the
/// encoder yields the `2 * n` characters of `hex_string(bytes)`, of which
/// those at `2 * i` and `2 * i + 1` are the two digits of `bytes[i]`.
pub proof fn lemma_hex_stream<T: Producer<Item = u8>>(encoder: ToHexIter<T>, bytes: Seq<u8>)
    requires
        encoder.pending() is None,
        yields(encoder.source(), bytes),
    ensures
        yields(encoder, hex_string(bytes)),
        hex_string(bytes).len() == 2 * bytes.len(),
        forall|i: int|
            #![trigger bytes[i]]
            0 <= i < bytes.len() ==> (hex_string(bytes)[2 * i], hex_string(bytes)[2 * i + 1])
                == hex_pair(bytes[i]),
{
    let src = encoder.source();
    assert forall|k: nat|
        #[trigger] encoder.ahead(k) == if k < hex_string(bytes).len() {
            Some(hex_string(bytes)[k as int])
        } else {
            None
        } by {
        assert(src.ahead(k / 2) == if k / 2 < bytes.len() {
            Some(bytes[(k / 2) as int])
        } else {
            None
        });
    }
}

} // verus!
