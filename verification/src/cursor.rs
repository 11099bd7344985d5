//! A read position over a byte slice, for decoders that parse a
//! value embedded in a larger byte stream and continue after it.

use crate::uleb128::{lemma_pow128_values, lemma_uleb128_decode_bound, pow128, uleb128_decode, uleb128_scan};
use vstd::prelude::*;

verus! {

/// A byte slice with a read position.  The position may lie past
/// the end of the slice, where every read fails.
pub struct Cursor<'a> {
    inner: &'a [u8],
    pos: u64,
}

impl<'a> Cursor<'a> {
    /// The bytes being read.
    pub closed spec fn data(&self) -> Seq<u8> {
        self.inner@
    }

    /// The read position.
    pub closed spec fn pos(&self) -> nat {
        self.pos as nat
    }

    /// A cursor at the start of `inner`.
    pub fn new(inner: &'a [u8]) -> (r: Self)
        ensures
            r.data() == inner@,
            r.pos() == 0,
    {
        Cursor { inner, pos: 0 }
    }

    /// The read position.
    pub fn position(&self) -> (r: u64)
        ensures
            r == self.pos(),
    {
        self.pos
    }

    /// Moves the read position.
    pub fn set_position(&mut self, pos: u64)
        ensures
            final(self).data() == old(self).data(),
            final(self).pos() == pos,
    {
        self.pos = pos;
    }

    /// The bytes being read.
    pub fn get_ref(&self) -> (r: &'a [u8])
        ensures
            r@ == self.data(),
    {
        self.inner
    }

    /// The read position is at or past the end of the bytes.
    pub fn at_end(&self) -> (r: bool)
        ensures
            r == (self.pos() >= self.data().len()),
    {
        self.pos >= self.inner.len() as u64
    }

    /// Takes the next `n` bytes, or nothing (leaving the cursor as it
    /// is) when fewer than `n` remain.
    pub fn take(&mut self, n: usize) -> (r: Option<&'a [u8]>)
        ensures
            final(self).data() == old(self).data(),
            old(self).pos() + n > old(self).data().len() ==> r is None && final(self).pos() == old(
                self,
            ).pos(),
            old(self).pos() + n <= old(self).data().len() ==> (r matches Some(b) && b@ == old(
                self,
            ).data().subrange(old(self).pos() as int, old(self).pos() + n) && final(self).pos() == old(
                self,
            ).pos() + n),
    {
        let len = self.inner.len() as u64;
        if self.pos > len || len - self.pos < n as u64 {
            return None;
        }
        let start = self.pos as usize;
        let out = vstd::slice::slice_subrange(self.inner, start, start + n);
        self.pos = self.pos + n as u64;
        Some(out)
    }

    /// Reads one byte.
    pub fn read_u8(&mut self) -> (r: Option<u8>)
        ensures
            final(self).data() == old(self).data(),
            old(self).pos() >= old(self).data().len() ==> r is None && final(self).pos() == old(
                self,
            ).pos(),
            old(self).pos() < old(self).data().len() ==> r == Some(
                old(self).data()[old(self).pos() as int],
            ) && final(self).pos() == old(self).pos() + 1,
    {
        if self.pos >= self.inner.len() as u64 {
            return None;
        }
        let b = self.inner[self.pos as usize];
        self.pos = self.pos + 1;
        Some(b)
    }

    /// Reads a ULEB128 value.  On success the cursor is past the
    /// value; on failure it is past the byte at which reading failed
    /// (or where it was, when no byte was left).
    pub fn read_uleb128(&mut self) -> (r: Result<u64, ()>)
        ensures
            final(self).data() == old(self).data(),
            match uleb128_decode(old(self).data(), old(self).pos() as int) {
                Ok((v, q)) => r == Ok::<u64, ()>(v as u64) && final(self).pos() == q,
                Err(f) => r is Err && final(self).pos() == f,
            },
    {
        proof {
            lemma_uleb128_decode_bound(self.data(), self.pos() as int);
            assert(pow128(0) == 1);
        }
        let ghost s = self.data();
        let ghost start = self.pos() as int;
        let len = self.inner.len() as u64;
        let mut value: u64 = 0;
        let mut mult: u64 = 1;
        let mut i: u64 = 0;
        loop
            invariant
                self.data() == s,
                s == old(self).data(),
                start == old(self).pos(),
                i <= 9,
                mult == pow128(i as nat),
                value < pow128(i as nat),
                self.pos() == start + i,
                start >= 0,
                len == s.len(),
                self.pos() <= u64::MAX,
                uleb128_decode(s, start) == uleb128_scan(s, self.pos() as int, i as nat, value as nat),
                uleb128_decode(s, start) matches Ok((w, q)) ==> w <= u64::MAX,
            decreases 10 - i,
        {
            proof {
                lemma_pow128_values();
                assert(pow128(0) == 1);
            }
            if self.pos >= len {
                return Err(());
            }
            let b = self.inner[self.pos as usize];
            self.pos = self.pos + 1;
            let cur = (b % 128) as u64;
            if i == 9 && cur > 1 {
                return Err(());
            }
            proof {
                if i < 9 {
                    assert(cur * mult <= 127 * mult) by (nonlinear_arith)
                        requires
                            cur <= 127,
                    ;
                    assert(128 * pow128(i as nat) == pow128((i + 1) as nat));
                    crate::uleb128::lemma_pow128_monotone((i + 1) as nat, 9);
                } else {
                    assert(cur * mult <= mult) by (nonlinear_arith)
                        requires
                            cur <= 1,
                    ;
                }
            }
            let ghost before = value;
            value = value + cur * mult;
            if b < 128 {
                if i > 0 && cur == 0 {
                    return Err(());
                }
                return Ok(value);
            }
            if i == 9 {
                return Err(());
            }
            proof {
                assert(pow128((i + 1) as nat) == 128 * pow128(i as nat));
                assert(value < pow128((i + 1) as nat)) by (nonlinear_arith)
                    requires
                        value == before + cur * mult,
                        before < mult,
                        cur <= 127,
                        pow128((i + 1) as nat) == 128 * mult,
                ;
            }
            mult = mult * 128;
            i = i + 1;
        }
    }
}

} // verus!
