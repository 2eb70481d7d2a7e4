//! Update Bitmap — per-source blocks of pending-update bits.
//!
//! Each source owns a 128-byte block: 16 words of 64 bits, 1024 bits in
//! all, one per symbol. A set bit means "update pending, not yet consumed".
//! The feed sets single bits; the consumer drains whole words by swapping
//! them to zero.

use vstd::prelude::*;

use crate::bytes::{lemma_le_at_n_agree, lemma_le_at_n_zero, u64_at};
use crate::region::Region;
use crate::types::{SegmentError, MAX_SYMBOLS, NUM_SOURCES};

verus! {

/// Bytes per source block.
pub const BLOCK_SIZE: usize = 128;

/// 64-bit words per source block.
pub const WORDS_PER_BLOCK: usize = 16;

/// Size of the bitmap segment in bytes.
pub const BITMAP_SIZE: usize = 1024;

/// The word at (source block, word index) spelled by a segment's bytes.
pub open spec fn word_of(s: Seq<u8>, source: int, w: int) -> u64 {
    u64_at(s, source * BLOCK_SIZE + w * 8)
}

/// Handle to a mapped bitmap segment.
pub struct UpdateBitmap {
    region: Region,
}

impl UpdateBitmap {
    pub closed spec fn wf(&self) -> bool {
        self.region@.len() >= BITMAP_SIZE
    }

    /// The current value of one word of one source's block.
    pub closed spec fn word(&self, source: int, w: int) -> u64 {
        word_of(self.region@, source, w)
    }

    /// Initialize a bitmap segment: zero it, so no update is pending
    /// anywhere. Refuses a region too small for the layout.
    pub fn create(region: Region) -> (r: Result<UpdateBitmap, SegmentError>)
        ensures
            region@.len() >= BITMAP_SIZE ==> (r matches Ok(b) && b.wf() && forall|s: int, w: int|
                0 <= s < NUM_SOURCES && 0 <= w < WORDS_PER_BLOCK ==> b.word(s, w) == 0),
            region@.len() < BITMAP_SIZE ==> r == Err::<UpdateBitmap, SegmentError>(
                SegmentError::WrongSize,
            ),
    {
        let mut region = region;
        if region.len() < BITMAP_SIZE {
            return Err(SegmentError::WrongSize);
        }
        region.fill_zero();
        let bitmap = UpdateBitmap { region };
        proof {
            assert forall|s: int, w: int|
                0 <= s < NUM_SOURCES && 0 <= w < WORDS_PER_BLOCK implies bitmap.word(s, w)
                == 0 by {
                let off = s * BLOCK_SIZE + w * 8;
                assert(bitmap.region@.subrange(off, off + 8) =~= Seq::new(8nat, |i: int| 0u8));
                lemma_le_at_n_zero(bitmap.region@, off, 8);
            }
        }
        Ok(bitmap)
    }

    /// Attach to an existing bitmap segment without touching its bytes.
    /// Refuses a region too small for the layout.
    pub fn open(region: Region) -> (r: Result<UpdateBitmap, SegmentError>)
        ensures
            region@.len() >= BITMAP_SIZE ==> (r matches Ok(b) && b.wf() && forall|s: int, w: int|
                0 <= s < NUM_SOURCES && 0 <= w < WORDS_PER_BLOCK ==> b.word(s, w) == word_of(
                    region@,
                    s,
                    w,
                )),
            region@.len() < BITMAP_SIZE ==> r == Err::<UpdateBitmap, SegmentError>(
                SegmentError::WrongSize,
            ),
    {
        if region.len() < BITMAP_SIZE {
            return Err(SegmentError::WrongSize);
        }
        Ok(UpdateBitmap { region })
    }

    /// Hand the underlying region back, contents intact.
    pub fn into_region(self) -> (r: Region)
        requires
            self.wf(),
        ensures
            r@.len() >= BITMAP_SIZE,
            forall|s: int, w: int|
                0 <= s < NUM_SOURCES && 0 <= w < WORDS_PER_BLOCK ==> word_of(r@, s, w)
                    == self.word(s, w),
    {
        self.region
    }

    /// Byte offset of a block word.
    fn word_offset(source_id: u8, word_idx: usize) -> (off: usize)
        requires
            source_id < NUM_SOURCES,
            word_idx < WORDS_PER_BLOCK,
        ensures
            off == source_id * BLOCK_SIZE + word_idx * 8,
            off + 8 <= BITMAP_SIZE,
    {
        source_id as usize * BLOCK_SIZE + word_idx * 8
    }

    /// Every word other than the written one keeps its value when 8 bytes
    /// at that word's offset change.
    proof fn lemma_other_words_keep(pre: Seq<u8>, post: Seq<u8>, source: int, w: int)
        requires
            pre.len() >= BITMAP_SIZE,
            post.len() == pre.len(),
            0 <= source < NUM_SOURCES,
            0 <= w < WORDS_PER_BLOCK,
            forall|j: int|
                0 <= j < post.len() && !(source * BLOCK_SIZE + w * 8 <= j < source * BLOCK_SIZE + w
                    * 8 + 8) ==> post[j] == pre[j],
        ensures
            forall|s2: int, w2: int|
                0 <= s2 < NUM_SOURCES && 0 <= w2 < WORDS_PER_BLOCK && !(s2 == source && w2 == w)
                    ==> word_of(post, s2, w2) == word_of(pre, s2, w2),
    {
        assert forall|s2: int, w2: int|
            0 <= s2 < NUM_SOURCES && 0 <= w2 < WORDS_PER_BLOCK && !(s2 == source && w2 == w)
            implies word_of(post, s2, w2) == word_of(pre, s2, w2) by {
            let off2 = s2 * BLOCK_SIZE + w2 * 8;
            let off = source * BLOCK_SIZE + w * 8;
            assert(off2 + 8 <= off || off + 8 <= off2);
            assert(post.subrange(off2, off2 + 8) =~= pre.subrange(off2, off2 + 8));
            lemma_le_at_n_agree(post, pre, off2, 8);
        }
    }

    /// Mark `symbol_id` on `source_id` as having a pending update: OR the
    /// symbol's bit into word `symbol_id / 64` of the source's block, at bit
    /// position `symbol_id % 64`.
    pub fn set(&mut self, source_id: u8, symbol_id: u16)
        requires
            old(self).wf(),
            source_id < NUM_SOURCES,
            symbol_id < MAX_SYMBOLS,
        ensures
            final(self).wf(),
            final(self).word(source_id as int, symbol_id as int / 64) == (old(self).word(
                source_id as int,
                symbol_id as int / 64,
            ) | (1u64 << (symbol_id as u64 % 64))),
            forall|s2: int, w2: int|
                0 <= s2 < NUM_SOURCES && 0 <= w2 < WORDS_PER_BLOCK && !(s2 == source_id && w2
                    == symbol_id as int / 64) ==> final(self).word(s2, w2) == old(self).word(
                    s2,
                    w2,
                ),
    {
        let word_idx = symbol_id as usize / 64;
        let bit_idx = symbol_id as usize % 64;
        let mask = 1u64 << (bit_idx as u64);
        let off = Self::word_offset(source_id, word_idx);
        let w = self.region.read_u64(off);
        self.region.write_u64(off, w | mask);
        proof {
            Self::lemma_other_words_keep(
                old(self).region@,
                self.region@,
                source_id as int,
                word_idx as int,
            );
        }
    }

    /// Swap one word of a source's block to zero and return its old value:
    /// the consumer drains up to 64 pending bits in one step.
    pub fn swap_word(&mut self, source_id: u8, word_idx: usize) -> (r: u64)
        requires
            old(self).wf(),
            source_id < NUM_SOURCES,
            word_idx < WORDS_PER_BLOCK,
        ensures
            final(self).wf(),
            r == old(self).word(source_id as int, word_idx as int),
            final(self).word(source_id as int, word_idx as int) == 0,
            forall|s2: int, w2: int|
                0 <= s2 < NUM_SOURCES && 0 <= w2 < WORDS_PER_BLOCK && !(s2 == source_id && w2
                    == word_idx) ==> final(self).word(s2, w2) == old(self).word(s2, w2),
    {
        let off = Self::word_offset(source_id, word_idx);
        let w = self.region.read_u64(off);
        self.region.write_u64(off, 0);
        proof {
            Self::lemma_other_words_keep(
                old(self).region@,
                self.region@,
                source_id as int,
                word_idx as int,
            );
        }
        w
    }

    /// Whether any bit is pending for a source: true exactly when some word
    /// of its block is nonzero.
    pub fn has_updates(&self, source_id: u8) -> (r: bool)
        requires
            self.wf(),
            source_id < NUM_SOURCES,
        ensures
            r == exists|w: int|
                0 <= w < WORDS_PER_BLOCK && #[trigger] self.word(source_id as int, w) != 0,
    {
        let mut i: usize = 0;
        while i < WORDS_PER_BLOCK
            invariant
                self.wf(),
                source_id < NUM_SOURCES,
                i <= WORDS_PER_BLOCK,
                forall|w: int| 0 <= w < i ==> #[trigger] self.word(source_id as int, w) == 0,
            decreases WORDS_PER_BLOCK - i,
        {
            let off = Self::word_offset(source_id, i);
            if self.region.read_u64(off) != 0 {
                assert(self.word(source_id as int, i as int) != 0);
                return true;
            }
            i = i + 1;
        }
        false
    }

    /// Number of 64-bit words in each source's block.
    pub fn words_per_block(&self) -> (r: usize)
        ensures
            r == WORDS_PER_BLOCK,
    {
        WORDS_PER_BLOCK
    }
}

} // verus!
