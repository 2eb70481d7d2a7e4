//! The boundary to memory-mapped shared memory.
//!
//! A `Region` owns one `memmap2::MmapMut` mapping and presents it as a
//! sequence of bytes. The mapping itself is opaque: everything the rest of
//! the crate knows about it goes through `region_bytes` and the small
//! trusted accessors below. All multi-byte encoding and decoding is built,
//! and verified, on top of single-byte loads and stores.

use vstd::prelude::*;

verus! {

#[verifier::external_type_specification]
#[verifier::external_body]
pub struct ExMmapMut(memmap2::MmapMut);

/// The bytes currently held by a mapping, in address order.
pub uninterp spec fn region_bytes(m: memmap2::MmapMut) -> Seq<u8>;

/// Relies on memmap2::MmapMut dereferencing to a byte slice whose length is
/// the length of the mapping.
#[verifier::external_body]
fn map_len(m: &memmap2::MmapMut) -> (n: usize)
    ensures
        n == region_bytes(*m).len(),
{
    (**m).len()
}

/// Relies on memmap2::MmapMut dereferencing to the mapped bytes; reads the
/// byte at index `i`.
#[verifier::external_body]
fn load_byte(m: &memmap2::MmapMut, i: usize) -> (b: u8)
    requires
        i < region_bytes(*m).len(),
    ensures
        b == region_bytes(*m)[i as int],
{
    m[i]
}

/// Relies on memmap2::MmapMut dereferencing to the mapped bytes; writes the
/// byte at index `i` and leaves every other byte as it was.
#[verifier::external_body]
fn store_byte(m: &mut memmap2::MmapMut, i: usize, b: u8)
    requires
        i < region_bytes(*old(m)).len(),
    ensures
        region_bytes(*final(m)) == region_bytes(*old(m)).update(i as int, b),
{
    m[i] = b;
}

/// Relies on memmap2::MmapMut::map_anon: on success the mapping is `len`
/// bytes long and, being a fresh anonymous mapping, zero-initialized by the
/// operating system.
#[verifier::external_body]
fn map_zeroed(len: usize) -> (r: Option<memmap2::MmapMut>)
    ensures
        r matches Some(m) ==> region_bytes(m) == Seq::new(len as nat, |i: int| 0u8),
{
    memmap2::MmapMut::map_anon(len).ok()
}

/// A fixed-size block of shared memory, viewed as its bytes.
pub struct Region {
    map: memmap2::MmapMut,
}

impl View for Region {
    type V = Seq<u8>;

    closed spec fn view(&self) -> Seq<u8> {
        region_bytes(self.map)
    }
}

impl Region {
    /// A fresh private region of `len` zero bytes, or `None` if the mapping
    /// cannot be made.
    pub fn new_zeroed(len: usize) -> (r: Option<Region>)
        ensures
            r matches Some(reg) ==> reg@ == Seq::new(len as nat, |i: int| 0u8),
    {
        match map_zeroed(len) {
            Some(map) => Some(Region { map }),
            None => None,
        }
    }

    /// Wrap an existing mapping (for callers that map a named segment
    /// themselves); nothing is known about its bytes beyond their count.
    pub fn from_map(map: memmap2::MmapMut) -> (r: Region)
        ensures
            r@ == region_bytes(map),
    {
        Region { map }
    }

    /// Hand the mapping back (for callers that flush or unmap it).
    pub fn into_map(self) -> (m: memmap2::MmapMut)
        ensures
            region_bytes(m) == self@,
    {
        self.map
    }

    pub fn len(&self) -> (n: usize)
        ensures
            n == self@.len(),
    {
        map_len(&self.map)
    }

    pub fn read_byte(&self, i: usize) -> (b: u8)
        requires
            i < self@.len(),
        ensures
            b == self@[i as int],
    {
        load_byte(&self.map, i)
    }

    pub fn write_byte(&mut self, i: usize, b: u8)
        requires
            i < old(self)@.len(),
        ensures
            final(self)@ == old(self)@.update(i as int, b),
    {
        store_byte(&mut self.map, i, b);
    }
}

} // verus!
