//! Little-endian views of byte sequences, and verified multi-byte accessors
//! on a `Region`.
//!
//! Every fixed-layout record in this crate is specified through `le_at_n`:
//! the value of the `n` bytes starting at an offset, least significant byte
//! first. All processes here share one host, so one byte order serves as the
//! wire format.

use vstd::prelude::*;

use crate::region::Region;

verus! {

/// Byte `k` (from the least significant end) of `v`.
pub open spec fn le_byte(v: u64, k: int) -> u8 {
    (v >> (8 * k)) as u8
}

/// The value of the `n` bytes at `off` in `s`, least significant first.
pub open spec fn le_at_n(s: Seq<u8>, off: int, n: int) -> u64
    decreases n,
{
    if n <= 0 {
        0u64
    } else {
        le_at_n(s, off, n - 1) | ((s[off + n - 1] as u64) << (8 * (n - 1)))
    }
}

pub open spec fn u64_at(s: Seq<u8>, off: int) -> u64 {
    le_at_n(s, off, 8)
}

pub open spec fn u32_at(s: Seq<u8>, off: int) -> u32 {
    le_at_n(s, off, 4) as u32
}

pub open spec fn u16_at(s: Seq<u8>, off: int) -> u16 {
    le_at_n(s, off, 2) as u16
}

/// `le_at_n` reads only the bytes it names: sequences that agree there give
/// the same value.
pub proof fn lemma_le_at_n_agree(s1: Seq<u8>, s2: Seq<u8>, off: int, n: int)
    requires
        0 <= n,
        0 <= off,
        off + n <= s1.len(),
        off + n <= s2.len(),
        s1.subrange(off, off + n) == s2.subrange(off, off + n),
    ensures
        le_at_n(s1, off, n) == le_at_n(s2, off, n),
    decreases n,
{
    if n > 0 {
        let a = s1.subrange(off, off + n);
        let b = s2.subrange(off, off + n);
        assert(s1[off + (n - 1)] == a[n - 1]);
        assert(s2[off + (n - 1)] == b[n - 1]);
        assert(s1.subrange(off, off + (n - 1)) =~= a.subrange(0, n - 1));
        assert(s2.subrange(off, off + (n - 1)) =~= b.subrange(0, n - 1));
        lemma_le_at_n_agree(s1, s2, off, n - 1);
    }
}

/// Reading eight bytes that spell `v` gives `v` back.
pub proof fn lemma_le_u64_roundtrip(s: Seq<u8>, off: int, v: u64)
    requires
        forall|k: int| 0 <= k < 8 ==> 0 <= off + k < s.len() && s[off + k] == le_byte(v, k),
    ensures
        u64_at(s, off) == v,
{
    assert(s[off + 0] == le_byte(v, 0));
    assert(s[off + 1] == le_byte(v, 1));
    assert(s[off + 2] == le_byte(v, 2));
    assert(s[off + 3] == le_byte(v, 3));
    assert(s[off + 4] == le_byte(v, 4));
    assert(s[off + 5] == le_byte(v, 5));
    assert(s[off + 6] == le_byte(v, 6));
    assert(s[off + 7] == le_byte(v, 7));
    let b0 = s[off + 0] as u64;
    let b1 = s[off + 1] as u64;
    let b2 = s[off + 2] as u64;
    let b3 = s[off + 3] as u64;
    let b4 = s[off + 4] as u64;
    let b5 = s[off + 5] as u64;
    let b6 = s[off + 6] as u64;
    let b7 = s[off + 7] as u64;
    assert(le_at_n(s, off, 8) == ((((((((0u64 | (b0 << 0)) | (b1 << 8)) | (b2 << 16)) | (b3
        << 24)) | (b4 << 32)) | (b5 << 40)) | (b6 << 48)) | (b7 << 56))) by {
        reveal_with_fuel(le_at_n, 9);
    }
    assert(((((((((0u64 | (((v >> 0) as u8) as u64) << 0) | (((v >> 8) as u8) as u64) << 8) | (((v
        >> 16) as u8) as u64) << 16) | (((v >> 24) as u8) as u64) << 24) | (((v >> 32) as u8)
        as u64) << 32) | (((v >> 40) as u8) as u64) << 40) | (((v >> 48) as u8) as u64) << 48) | (((
    v >> 56) as u8) as u64) << 56) == v) by (bit_vector);
}

/// Reading back `n < 8` bytes that spell `v` gives `v`, provided `v` fits.
pub proof fn lemma_le_u32_roundtrip(s: Seq<u8>, off: int, v: u64)
    requires
        v < 0x1_0000_0000,
        forall|k: int| 0 <= k < 4 ==> 0 <= off + k < s.len() && s[off + k] == le_byte(v, k),
    ensures
        le_at_n(s, off, 4) == v,
{
    assert(s[off + 0] == le_byte(v, 0));
    assert(s[off + 1] == le_byte(v, 1));
    assert(s[off + 2] == le_byte(v, 2));
    assert(s[off + 3] == le_byte(v, 3));
    let b0 = s[off + 0] as u64;
    let b1 = s[off + 1] as u64;
    let b2 = s[off + 2] as u64;
    let b3 = s[off + 3] as u64;
    assert(le_at_n(s, off, 4) == ((((0u64 | (b0 << 0)) | (b1 << 8)) | (b2 << 16)) | (b3
        << 24))) by {
        reveal_with_fuel(le_at_n, 5);
    }
    assert(v < 0x1_0000_0000 ==> ((((0u64 | (((v >> 0) as u8) as u64) << 0) | (((v >> 8) as u8)
        as u64) << 8) | (((v >> 16) as u8) as u64) << 16) | (((v >> 24) as u8) as u64) << 24)
        == v) by (bit_vector);
}

pub proof fn lemma_le_u16_roundtrip(s: Seq<u8>, off: int, v: u64)
    requires
        v < 0x1_0000,
        forall|k: int| 0 <= k < 2 ==> 0 <= off + k < s.len() && s[off + k] == le_byte(v, k),
    ensures
        le_at_n(s, off, 2) == v,
{
    assert(s[off + 0] == le_byte(v, 0));
    assert(s[off + 1] == le_byte(v, 1));
    let b0 = s[off + 0] as u64;
    let b1 = s[off + 1] as u64;
    assert(le_at_n(s, off, 2) == ((0u64 | (b0 << 0)) | (b1 << 8))) by {
        reveal_with_fuel(le_at_n, 3);
    }
    assert(v < 0x1_0000 ==> ((0u64 | (((v >> 0) as u8) as u64) << 0) | (((v >> 8) as u8) as u64)
        << 8) == v) by (bit_vector);
}

impl Region {
    /// The `n`-byte little-endian value at `off`.
    pub fn read_le(&self, off: usize, n: usize) -> (v: u64)
        requires
            n <= 8,
            off + n <= usize::MAX,
            off + n <= self@.len(),
        ensures
            v == le_at_n(self@, off as int, n as int),
    {
        let mut v: u64 = 0;
        let mut i: usize = 0;
        while i < n
            invariant
                i <= n,
                n <= 8,
                off + n <= usize::MAX,
                off + n <= self@.len(),
                v == le_at_n(self@, off as int, i as int),
            decreases n - i,
        {
            let b = self.read_byte(off + i);
            v = v | ((b as u64) << (8 * (i as u64)));
            i = i + 1;
        }
        v
    }

    /// Write `v` as `n` little-endian bytes at `off`; every other byte of
    /// the region keeps its value.
    pub fn write_le(&mut self, off: usize, n: usize, v: u64)
        requires
            n <= 8,
            off + n <= usize::MAX,
            off + n <= old(self)@.len(),
        ensures
            final(self)@.len() == old(self)@.len(),
            forall|j: int| 0 <= j < final(self)@.len() ==> final(self)@[j] == (if off <= j < off
                + n {
                le_byte(v, j - off)
            } else {
                old(self)@[j]
            }),
    {
        let mut i: usize = 0;
        while i < n
            invariant
                i <= n,
                n <= 8,
                off + n <= usize::MAX,
                off + n <= old(self)@.len(),
                self@.len() == old(self)@.len(),
                forall|j: int| 0 <= j < self@.len() ==> self@[j] == (if off <= j < off + i {
                    le_byte(v, j - off)
                } else {
                    old(self)@[j]
                }),
            decreases n - i,
        {
            self.write_byte(off + i, ((v >> (8 * (i as u64))) as u8));
            assert(((v >> (8 * (i as u64))) as u8) == le_byte(v, i as int));
            i = i + 1;
        }
    }

    pub fn read_u64(&self, off: usize) -> (v: u64)
        requires
            off + 8 <= usize::MAX,
            off + 8 <= self@.len(),
        ensures
            v == u64_at(self@, off as int),
    {
        self.read_le(off, 8)
    }

    pub fn write_u64(&mut self, off: usize, v: u64)
        requires
            off + 8 <= usize::MAX,
            off + 8 <= old(self)@.len(),
        ensures
            final(self)@.len() == old(self)@.len(),
            u64_at(final(self)@, off as int) == v,
            forall|j: int| 0 <= j < final(self)@.len() && !(off <= j < off + 8) ==> final(self)@[j] == old(self)@[j],
    {
        self.write_le(off, 8, v);
        proof {
            lemma_le_u64_roundtrip(self@, off as int, v);
        }
    }

    pub fn read_u32(&self, off: usize) -> (v: u32)
        requires
            off + 4 <= usize::MAX,
            off + 4 <= self@.len(),
        ensures
            v == u32_at(self@, off as int),
    {
        let w = self.read_le(off, 4);
        proof {
            lemma_le_at_n_bound(self@, off as int, 4);
        }
        w as u32
    }

    pub fn write_u32(&mut self, off: usize, v: u32)
        requires
            off + 4 <= usize::MAX,
            off + 4 <= old(self)@.len(),
        ensures
            final(self)@.len() == old(self)@.len(),
            u32_at(final(self)@, off as int) == v,
            forall|j: int| 0 <= j < final(self)@.len() && !(off <= j < off + 4) ==> final(self)@[j] == old(self)@[j],
    {
        self.write_le(off, 4, v as u64);
        proof {
            lemma_le_u32_roundtrip(self@, off as int, v as u64);
        }
    }

    pub fn read_u16(&self, off: usize) -> (v: u16)
        requires
            off + 2 <= usize::MAX,
            off + 2 <= self@.len(),
        ensures
            v == u16_at(self@, off as int),
    {
        let w = self.read_le(off, 2);
        proof {
            lemma_le_at_n_bound(self@, off as int, 2);
        }
        w as u16
    }

    pub fn write_u16(&mut self, off: usize, v: u16)
        requires
            off + 2 <= usize::MAX,
            off + 2 <= old(self)@.len(),
        ensures
            final(self)@.len() == old(self)@.len(),
            u16_at(final(self)@, off as int) == v,
            forall|j: int| 0 <= j < final(self)@.len() && !(off <= j < off + 2) ==> final(self)@[j] == old(self)@[j],
    {
        self.write_le(off, 2, v as u64);
        proof {
            lemma_le_u16_roundtrip(self@, off as int, v as u64);
        }
    }
}

impl Region {
    /// Set every byte of the region to zero.
    pub fn fill_zero(&mut self)
        ensures
            final(self)@ == Seq::new(old(self)@.len(), |i: int| 0u8),
    {
        let n = self.len();
        let mut i: usize = 0;
        while i < n
            invariant
                i <= n,
                n == self@.len(),
                self@.len() == old(self)@.len(),
                forall|j: int| 0 <= j < i ==> self@[j] == 0,
            decreases n - i,
        {
            self.write_byte(i, 0);
            i = i + 1;
        }
        assert(self@ =~= Seq::new(old(self)@.len(), |j: int| 0u8));
    }
}

/// An `n`-byte value is below 2^(8n).
pub proof fn lemma_le_at_n_bound(s: Seq<u8>, off: int, n: int)
    requires
        0 <= n < 8,
    ensures
        le_at_n(s, off, n) < (1u64 << (8 * n)),
    decreases n,
{
    if n == 0 {
        assert(0u64 < (1u64 << 0)) by (bit_vector);
    } else {
        lemma_le_at_n_bound(s, off, n - 1);
        let lo = le_at_n(s, off, n - 1);
        let b = s[off + n - 1] as u64;
        let nu = (n - 1) as u64;
        assert(nu < 7 && lo < (1u64 << (8 * nu)) && b < 256 ==> (lo | (b << (8 * nu))) < (1u64 << (
        8 * (nu + 1)))) by (bit_vector);
    }
}

/// `n` zero bytes read back as zero.
pub proof fn lemma_le_at_n_zero(s: Seq<u8>, off: int, n: int)
    requires
        0 <= n <= 8,
        0 <= off,
        off + n <= s.len(),
        s.subrange(off, off + n) == Seq::new(n as nat, |i: int| 0u8),
    ensures
        le_at_n(s, off, n) == 0,
    decreases n,
{
    if n > 0 {
        let z = s.subrange(off, off + n);
        assert(s[off + (n - 1)] == z[n - 1]);
        assert(s.subrange(off, off + (n - 1)) =~= Seq::new((n - 1) as nat, |i: int| 0u8)) by {
            assert(forall|i: int| 0 <= i < n - 1 ==> s.subrange(off, off + (n - 1))[i] == z[i]);
        }
        lemma_le_at_n_zero(s, off, n - 1);
        let b = s[off + n - 1] as u64;
        let sh = (8 * (n - 1)) as u64;
        assert(b == 0 && sh <= 63 ==> (0u64 | (b << sh)) == 0) by (bit_vector);
    }
}

} // verus!
