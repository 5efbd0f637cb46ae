//! A position-tracked reader over an in-memory byte buffer.
//!
//! Every multi-byte read states exactly which bytes it consumed and
//! what integer they denote, through the `be_value` / `le_value`
//! spec functions. Reading past the end of the buffer is reported as
//! `DecodeError::TruncatedInput`, never a panic.

use vstd::prelude::*;

use crate::error::DecodeError;
use crate::utils::Endianness;

verus! {

/// The unsigned integer denoted by `s` read big-endian
/// (first byte most significant).
pub open spec fn be_value(s: Seq<u8>) -> nat
    decreases s.len(),
{
    if s.len() == 0 {
        0
    } else {
        (be_value(s.drop_last()) * 256 + s.last()) as nat
    }
}

/// The unsigned integer denoted by `s` read little-endian
/// (first byte least significant).
pub open spec fn le_value(s: Seq<u8>) -> nat
    decreases s.len(),
{
    if s.len() == 0 {
        0
    } else {
        (le_value(s.skip(1)) * 256 + s.first()) as nat
    }
}

/// The unsigned integer denoted by `s` in byte order `e`.
pub open spec fn scalar_value(s: Seq<u8>, e: Endianness) -> nat {
    match e {
        Endianness::Big => be_value(s),
        Endianness::Little => le_value(s),
    }
}

/// 256 raised to `n`: the weight of a byte `n` places above the
/// least significant one.
pub open spec fn shift256(n: nat) -> nat
    decreases n,
{
    if n == 0 {
        1
    } else {
        (256 * shift256((n - 1) as nat)) as nat
    }
}

/// Splitting a big-endian byte string: the left part is shifted up
/// by the width of the right part.
pub proof fn lemma_be_value_concat(a: Seq<u8>, b: Seq<u8>)
    ensures
        be_value(a + b) == be_value(a) * shift256(b.len()) + be_value(b),
    decreases b.len(),
{
    if b.len() == 0 {
        assert(a + b =~= a);
        assert(be_value(b) == 0);
        assert(shift256(0) == 1);
    } else {
        lemma_be_value_concat(a, b.drop_last());
        let va = be_value(a);
        let s1 = shift256((b.len() - 1) as nat);
        let vd = be_value(b.drop_last());
        let l = b.last();
        assert((a + b).drop_last() =~= a + b.drop_last());
        assert((a + b).last() == b.last());
        assert(be_value(a + b.drop_last()) == va * s1 + vd);
        assert(be_value(a + b) == (va * s1 + vd) * 256 + l);
        assert((va * s1 + vd) * 256 + l == va * (256 * s1) + (vd * 256 + l))
            by (nonlinear_arith);
        assert(shift256(b.len()) == 256 * s1);
        assert(va * (256 * s1) == va * shift256(b.len()));
        assert(vd * 256 + l == be_value(b));
    }
}

/// Splitting a little-endian byte string: the right part is shifted
/// up by the width of the left part.
pub proof fn lemma_le_value_concat(a: Seq<u8>, b: Seq<u8>)
    ensures
        le_value(a + b) == le_value(a) + shift256(a.len()) * le_value(b),
    decreases a.len(),
{
    if a.len() == 0 {
        assert(a + b =~= b);
        assert(le_value(a) == 0);
        assert(shift256(0) == 1);
    } else {
        lemma_le_value_concat(a.skip(1), b);
        let vr = le_value(a.skip(1));
        let s1 = shift256((a.len() - 1) as nat);
        let vb = le_value(b);
        let f = a.first();
        assert((a + b).skip(1) =~= a.skip(1) + b);
        assert((a + b).first() == a.first());
        assert(a.skip(1).len() == a.len() - 1);
        assert(le_value(a.skip(1) + b) == vr + s1 * vb);
        assert(le_value(a + b) == (vr + s1 * vb) * 256 + f);
        assert((vr + s1 * vb) * 256 + f == (vr * 256 + f) + (256 * s1) * vb)
            by (nonlinear_arith);
        assert(shift256(a.len()) == 256 * s1);
        assert((256 * s1) * vb == shift256(a.len()) * vb);
        assert(vr * 256 + f == le_value(a));
    }
}

/// A one-byte string denotes its single byte, in either byte order.
pub proof fn lemma_single_byte_value(s: Seq<u8>)
    requires
        s.len() == 1,
    ensures
        be_value(s) == s[0],
        le_value(s) == s[0],
{
    assert(s.drop_last() =~= Seq::<u8>::empty());
    assert(s.skip(1) =~= Seq::<u8>::empty());
    assert(be_value(Seq::<u8>::empty()) == 0);
    assert(le_value(Seq::<u8>::empty()) == 0);
    assert(be_value(s) == be_value(s.drop_last()) * 256 + s.last());
    assert(le_value(s) == le_value(s.skip(1)) * 256 + s.first());
    assert(s.last() == s[0]);
    assert(s.first() == s[0]);
}

/// A two-byte string denotes its bytes with the first most
/// significant (big-endian) or least significant (little-endian).
pub proof fn lemma_pair_value(s: Seq<u8>)
    requires
        s.len() == 2,
    ensures
        be_value(s) == s[0] * 256 + s[1],
        le_value(s) == s[0] + s[1] * 256,
{
    let a = s.subrange(0, 1);
    let b = s.subrange(1, 2);
    assert(s =~= a + b);
    lemma_single_byte_value(a);
    lemma_single_byte_value(b);
    lemma_be_value_concat(a, b);
    lemma_le_value_concat(a, b);
    assert(shift256(0) == 1);
    assert(shift256(1) == 256);
    assert(a[0] == s[0]);
    assert(b[0] == s[1]);
}

/// A three-byte string read big-endian.
pub proof fn lemma_triple_be_value(s: Seq<u8>)
    requires
        s.len() == 3,
    ensures
        be_value(s) == s[0] * 0x1_0000 + s[1] * 256 + s[2],
{
    let ab = s.subrange(0, 2);
    let c = s.subrange(2, 3);
    assert(s =~= ab + c);
    lemma_pair_value(ab);
    lemma_single_byte_value(c);
    lemma_be_value_concat(ab, c);
    assert(shift256(0) == 1);
    assert(shift256(1) == 256);
    assert(ab[0] == s[0] && ab[1] == s[1] && c[0] == s[2]);
    assert(be_value(s) == (s[0] * 256 + s[1]) * 256 + s[2]);
}

/// Splitting a byte string at `k`: the big-endian value shifts the
/// left part up by the width of the right part, the little-endian
/// value shifts the right part up by the width of the left part.
pub proof fn lemma_split_value(s: Seq<u8>, k: int)
    requires
        0 <= k <= s.len(),
    ensures
        be_value(s) == be_value(s.subrange(0, k)) * shift256((s.len() - k) as nat) + be_value(
            s.subrange(k, s.len() as int),
        ),
        le_value(s) == le_value(s.subrange(0, k)) + shift256(k as nat) * le_value(
            s.subrange(k, s.len() as int),
        ),
{
    let a = s.subrange(0, k);
    let b = s.subrange(k, s.len() as int);
    assert(s =~= a + b);
    lemma_be_value_concat(a, b);
    lemma_le_value_concat(a, b);
}

/// The two's-complement reading of an 8-bit unsigned value.
pub open spec fn as_signed_8(v: nat) -> int {
    if v < 0x80 {
        v as int
    } else {
        v - 0x100
    }
}

/// The two's-complement reading of a 16-bit unsigned value.
pub open spec fn as_signed_16(v: nat) -> int {
    if v < 0x8000 {
        v as int
    } else {
        v - 0x10000
    }
}

/// The two's-complement reading of a 32-bit unsigned value.
pub open spec fn as_signed_32(v: nat) -> int {
    if v < 0x8000_0000 {
        v as int
    } else {
        v - 0x1_0000_0000
    }
}

/// A sequential reader over `data`, positioned at byte `pos`.
///
/// `pos` may point anywhere, including past the end of the buffer
/// (absolute seeks are unchecked, as reads past the end fail with a
/// typed error anyway).
pub struct ByteCursor<'a> {
    pub data: &'a [u8],
    pub pos: u64,
}

impl<'a> ByteCursor<'a> {
    pub fn new(data: &'a [u8]) -> (c: Self)
        ensures
            c.data@ == data@,
            c.pos == 0,
    {
        ByteCursor { data, pos: 0 }
    }

    /// The current read position.
    pub fn position(&self) -> (p: u64)
        ensures
            p == self.pos,
    {
        self.pos
    }

    /// The total length of the underlying buffer.
    pub fn length(&self) -> (n: usize)
        ensures
            n == self.data@.len(),
    {
        self.data.len()
    }

    /// The number of bytes between the current position and the end
    /// of the buffer (zero when positioned at or past the end).
    pub fn remaining(&self) -> (n: u64)
        ensures
            n == if self.pos <= self.data@.len() {
                self.data@.len() - self.pos
            } else {
                0
            },
    {
        let len = self.data.len() as u64;
        if self.pos <= len {
            len - self.pos
        } else {
            0
        }
    }

    /// Moves the read position to the absolute offset `p`.
    pub fn seek(&mut self, p: u64)
        ensures
            final(self).data@ == old(self).data@,
            final(self).pos == p,
    {
        self.pos = p;
    }

    /// Reads the next `n` bytes and advances past them; fails with
    /// `TruncatedInput` (and leaves the position alone) when fewer
    /// than `n` bytes remain.
    pub fn read_bytes(&mut self, n: u64) -> (r: Result<Vec<u8>, DecodeError>)
        ensures
            final(self).data@ == old(self).data@,
            match r {
                Ok(v) => {
                    &&& old(self).pos + n <= old(self).data@.len()
                    &&& v@ == old(self).data@.subrange(
                        old(self).pos as int,
                        old(self).pos + n,
                    )
                    &&& final(self).pos == old(self).pos + n
                },
                Err(e) => {
                    &&& old(self).pos + n > old(self).data@.len()
                    &&& e == (DecodeError::TruncatedInput { offset: old(self).pos, expected: n })
                    &&& *final(self) == *old(self)
                },
            },
    {
        let len = self.data.len() as u64;
        if self.pos > len || n > len - self.pos {
            return Err(DecodeError::TruncatedInput { offset: self.pos, expected: n });
        }
        let start = self.pos as usize;
        let end = (self.pos + n) as usize;
        let part = vstd::slice::slice_subrange(self.data, start, end);
        let v = vstd::slice::slice_to_vec(part);
        self.pos = self.pos + n;
        Ok(v)
    }

    /// Reads one byte.
    pub fn read_u8(&mut self) -> (r: Result<u8, DecodeError>)
        ensures
            final(self).data@ == old(self).data@,
            match r {
                Ok(v) => {
                    &&& old(self).pos + 1 <= old(self).data@.len()
                    &&& v == old(self).data@[old(self).pos as int]
                    &&& final(self).pos == old(self).pos + 1
                },
                Err(e) => {
                    &&& old(self).pos + 1 > old(self).data@.len()
                    &&& e == (DecodeError::TruncatedInput { offset: old(self).pos, expected: 1 })
                    &&& *final(self) == *old(self)
                },
            },
    {
        let len = self.data.len() as u64;
        if self.pos >= len {
            return Err(DecodeError::TruncatedInput { offset: self.pos, expected: 1 });
        }
        let b = *vstd::slice::slice_index_get(self.data, self.pos as usize);
        self.pos = self.pos + 1;
        Ok(b)
    }

    /// Reads a 2-byte unsigned integer in byte order `e`.
    pub fn read_u16(&mut self, e: Endianness) -> (r: Result<u16, DecodeError>)
        ensures
            final(self).data@ == old(self).data@,
            match r {
                Ok(v) => {
                    &&& old(self).pos + 2 <= old(self).data@.len()
                    &&& v == scalar_value(
                        old(self).data@.subrange(old(self).pos as int, old(self).pos + 2),
                        e,
                    )
                    &&& final(self).pos == old(self).pos + 2
                },
                Err(err) => {
                    &&& old(self).pos + 2 > old(self).data@.len()
                    &&& err == (DecodeError::TruncatedInput { offset: old(self).pos, expected: 2 })
                    &&& *final(self) == *old(self)
                },
            },
    {
        let len = self.data.len() as u64;
        if self.pos > len || 2 > len - self.pos {
            return Err(DecodeError::TruncatedInput { offset: self.pos, expected: 2 });
        }
        let b0 = *vstd::slice::slice_index_get(self.data, self.pos as usize) as u16;
        let b1 = *vstd::slice::slice_index_get(self.data, (self.pos + 1) as usize) as u16;
        let v = match e {
            Endianness::Big => b0 * 256 + b1,
            Endianness::Little => b1 * 256 + b0,
        };
        proof {
            let p = self.pos as int;
            let s = self.data@.subrange(p, p + 2);
            lemma_pair_value(s);
            assert(s[0] == b0 && s[1] == b1);
        }
        self.pos = self.pos + 2;
        Ok(v)
    }

    /// Reads a 4-byte unsigned integer in byte order `e`.
    pub fn read_u32(&mut self, e: Endianness) -> (r: Result<u32, DecodeError>)
        ensures
            final(self).data@ == old(self).data@,
            match r {
                Ok(v) => {
                    &&& old(self).pos + 4 <= old(self).data@.len()
                    &&& v == scalar_value(
                        old(self).data@.subrange(old(self).pos as int, old(self).pos + 4),
                        e,
                    )
                    &&& final(self).pos == old(self).pos + 4
                },
                Err(err) => {
                    &&& old(self).pos + 4 > old(self).data@.len()
                    &&& err == (DecodeError::TruncatedInput { offset: old(self).pos, expected: 4 })
                    &&& *final(self) == *old(self)
                },
            },
    {
        let len = self.data.len() as u64;
        if self.pos > len || 4 > len - self.pos {
            return Err(DecodeError::TruncatedInput { offset: self.pos, expected: 4 });
        }
        let ghost p = self.pos as int;
        let a = match self.read_u16(e) {
            Ok(x) => x,
            Err(err) => {
                return Err(err);
            },
        };
        let b = match self.read_u16(e) {
            Ok(x) => x,
            Err(err) => {
                return Err(err);
            },
        };
        let v = match e {
            Endianness::Big => (a as u32) * 0x10000 + (b as u32),
            Endianness::Little => (a as u32) + (b as u32) * 0x10000,
        };
        proof {
            let s = self.data@.subrange(p, p + 4);
            lemma_split_value(s, 2);
            assert(s.subrange(0, 2) =~= self.data@.subrange(p, p + 2));
            assert(s.subrange(2, 4) =~= self.data@.subrange(p + 2, p + 4));
            assert(shift256(0) == 1);
            assert(shift256(1) == 256);
            assert(shift256(2) == 0x10000);
            assert(be_value(s) == be_value(s.subrange(0, 2)) * 0x10000 + be_value(
                s.subrange(2, 4),
            ));
            assert(le_value(s) == le_value(s.subrange(0, 2)) + 0x10000 * le_value(
                s.subrange(2, 4),
            ));
        }
        Ok(v)
    }

    /// Reads an 8-byte unsigned integer in byte order `e`.
    pub fn read_u64(&mut self, e: Endianness) -> (r: Result<u64, DecodeError>)
        ensures
            final(self).data@ == old(self).data@,
            match r {
                Ok(v) => {
                    &&& old(self).pos + 8 <= old(self).data@.len()
                    &&& v == scalar_value(
                        old(self).data@.subrange(old(self).pos as int, old(self).pos + 8),
                        e,
                    )
                    &&& final(self).pos == old(self).pos + 8
                },
                Err(err) => {
                    &&& old(self).pos + 8 > old(self).data@.len()
                    &&& err == (DecodeError::TruncatedInput { offset: old(self).pos, expected: 8 })
                    &&& *final(self) == *old(self)
                },
            },
    {
        let len = self.data.len() as u64;
        if self.pos > len || 8 > len - self.pos {
            return Err(DecodeError::TruncatedInput { offset: self.pos, expected: 8 });
        }
        let ghost p = self.pos as int;
        let a = match self.read_u32(e) {
            Ok(x) => x,
            Err(err) => {
                return Err(err);
            },
        };
        let b = match self.read_u32(e) {
            Ok(x) => x,
            Err(err) => {
                return Err(err);
            },
        };
        let v = match e {
            Endianness::Big => (a as u64) * 0x1_0000_0000 + (b as u64),
            Endianness::Little => (a as u64) + (b as u64) * 0x1_0000_0000,
        };
        proof {
            let s = self.data@.subrange(p, p + 8);
            lemma_split_value(s, 4);
            assert(s.subrange(0, 4) =~= self.data@.subrange(p, p + 4));
            assert(s.subrange(4, 8) =~= self.data@.subrange(p + 4, p + 8));
            assert(shift256(0) == 1);
            assert(shift256(1) == 256);
            assert(shift256(2) == 0x10000);
            assert(shift256(3) == 0x100_0000);
            assert(shift256(4) == 0x1_0000_0000);
            assert(be_value(s) == be_value(s.subrange(0, 4)) * 0x1_0000_0000 + be_value(
                s.subrange(4, 8),
            ));
            assert(le_value(s) == le_value(s.subrange(0, 4)) + 0x1_0000_0000 * le_value(
                s.subrange(4, 8),
            ));
        }
        Ok(v)
    }

    /// Reads a 2-byte two's-complement signed integer in byte order `e`.
    pub fn read_i16(&mut self, e: Endianness) -> (r: Result<i16, DecodeError>)
        ensures
            final(self).data@ == old(self).data@,
            match r {
                Ok(v) => {
                    &&& old(self).pos + 2 <= old(self).data@.len()
                    &&& v == as_signed_16(
                        scalar_value(
                            old(self).data@.subrange(old(self).pos as int, old(self).pos + 2),
                            e,
                        ),
                    )
                    &&& final(self).pos == old(self).pos + 2
                },
                Err(err) => {
                    &&& old(self).pos + 2 > old(self).data@.len()
                    &&& err == (DecodeError::TruncatedInput { offset: old(self).pos, expected: 2 })
                    &&& *final(self) == *old(self)
                },
            },
    {
        let u = match self.read_u16(e) {
            Ok(x) => x,
            Err(err) => {
                return Err(err);
            },
        };
        if u < 0x8000 {
            Ok(u as i16)
        } else {
            Ok((u - 0x8000) as i16 + i16::MIN)
        }
    }

    /// Reads a 4-byte two's-complement signed integer in byte order `e`.
    pub fn read_i32(&mut self, e: Endianness) -> (r: Result<i32, DecodeError>)
        ensures
            final(self).data@ == old(self).data@,
            match r {
                Ok(v) => {
                    &&& old(self).pos + 4 <= old(self).data@.len()
                    &&& v == as_signed_32(
                        scalar_value(
                            old(self).data@.subrange(old(self).pos as int, old(self).pos + 4),
                            e,
                        ),
                    )
                    &&& final(self).pos == old(self).pos + 4
                },
                Err(err) => {
                    &&& old(self).pos + 4 > old(self).data@.len()
                    &&& err == (DecodeError::TruncatedInput { offset: old(self).pos, expected: 4 })
                    &&& *final(self) == *old(self)
                },
            },
    {
        let u = match self.read_u32(e) {
            Ok(x) => x,
            Err(err) => {
                return Err(err);
            },
        };
        if u < 0x8000_0000 {
            Ok(u as i32)
        } else {
            Ok((u - 0x8000_0000) as i32 + i32::MIN)
        }
    }
}

} // verus!
