//! The bitmap of build rows that some probe row has matched.

use vstd::prelude::*;

verus! {

/// Bit `b` of a word.
pub open spec fn bit_of(word: u64, b: u64) -> bool {
    (word >> b) & 1 == 1
}

proof fn lemma_set_bit(word: u64, b: u64, c: u64)
    requires
        b < 64,
        c < 64,
    ensures
        bit_of(word | (1u64 << b), c) == (bit_of(word, c) || b == c),
{
    assert(((word | (1u64 << b)) >> c) & 1 == 1 <==> (((word >> c) & 1 == 1) || b == c))
        by (bit_vector)
        requires
            b < 64,
            c < 64,
    ;
}

proof fn lemma_zero_word(c: u64)
    requires
        c < 64,
    ensures
        !bit_of(0, c),
{
    assert((0u64 >> c) & 1 == 0) by (bit_vector);
}

/// One bit per build row, packed into words. A bit, once set, stays set.
pub struct VisitedBitmap {
    words: Vec<u64>,
    rows: usize,
}

impl VisitedBitmap {
    pub closed spec fn well_formed(&self) -> bool {
        self.words.len() == self.rows / 64 + 1
    }

    /// The number of rows the bitmap covers.
    pub closed spec fn rows(&self) -> usize {
        self.rows
    }

    /// The bits, one per row.
    pub closed spec fn bits(&self) -> Seq<bool> {
        Seq::new(self.rows as nat, |j: int| bit_of(self.words[j / 64], (j % 64) as u64))
    }

    /// The bitmap holds one bit for each row.
    pub proof fn lemma_bits_len(&self)
        ensures
            self.bits().len() == self.rows(),
    {
    }

    /// A bitmap over `rows` rows with no bit set.
    pub fn new(rows: usize) -> (bitmap: VisitedBitmap)
        ensures
            bitmap.well_formed(),
            bitmap.rows() == rows,
            bitmap.bits() == Seq::new(rows as nat, |j: int| false),
    {
        let count: usize = rows / 64 + 1;
        let mut words: Vec<u64> = Vec::new();
        let mut w: usize = 0;
        while w < count
            invariant
                w <= count,
                words.len() == w,
                forall|t: int| 0 <= t < w ==> (#[trigger] words[t]) == 0,
            decreases count - w,
        {
            words.push(0);
            w = w + 1;
        }
        let bitmap = VisitedBitmap { words, rows };
        proof {
            assert forall|j: int| 0 <= j < rows implies (#[trigger] bitmap.bits()[j]) == false by {
                lemma_zero_word((j % 64) as u64);
            }
            assert(bitmap.bits() =~= Seq::new(rows as nat, |j: int| false));
        }
        bitmap
    }

    pub fn len(&self) -> (rows: usize)
        ensures
            rows == self.rows(),
    {
        self.rows
    }

    /// Whether row `j` has been visited.
    pub fn is_set(&self, j: usize) -> (set: bool)
        requires
            self.well_formed(),
            j < self.rows(),
        ensures
            set == self.bits()[j as int],
    {
        let word: u64 = self.words[j / 64];
        let b: u64 = (j % 64) as u64;
        (word >> b) & 1 == 1
    }

    /// Marks row `j` visited. Returns whether this call was the one that set
    /// the bit: of all the claims on a row, exactly the first returns true.
    pub fn claim(&mut self, j: usize) -> (first: bool)
        requires
            old(self).well_formed(),
            j < old(self).rows(),
        ensures
            final(self).well_formed(),
            final(self).rows() == old(self).rows(),
            first == !old(self).bits()[j as int],
            final(self).bits() == old(self).bits().update(j as int, true),
    {
        let idx: usize = j / 64;
        let b: u64 = (j % 64) as u64;
        let word: u64 = self.words[idx];
        let first: bool = (word >> b) & 1 != 1;
        let ghost before = *self;
        self.words.set(idx, word | (1u64 << b));
        proof {
            assert forall|k: int| 0 <= k < self.rows implies (#[trigger] self.bits()[k])
                == before.bits().update(j as int, true)[k] by {
                if k / 64 == idx as int {
                    lemma_set_bit(word, b, (k % 64) as u64);
                }
            }
            assert(self.bits() =~= before.bits().update(j as int, true));
        }
        first
    }
}

} // verus!
