//! Gathers the row numbers that a merge hands on, block by block, and gives
//! them out as one block at the end.

use vstd::prelude::*;
use crate::plans::task::DataType;

verus! {

/// A column of numbers with its type.
pub struct NumberColumn {
    pub data_type: DataType,
    pub values: Vec<u64>,
}

/// A block: columns of equal length.
pub struct NumberBlock {
    pub columns: Vec<NumberColumn>,
}

impl NumberBlock {
    /// The number of rows: the length of the first column, none without
    /// columns.
    pub open spec fn rows(&self) -> nat {
        if self.columns.len() == 0 {
            0
        } else {
            self.columns[0].values.len() as nat
        }
    }

    /// Whether the block holds row numbers and nothing else: one column of
    /// unsigned 64-bit numbers.
    pub open spec fn holds_row_numbers(&self) -> bool {
        self.columns.len() == 1 && self.columns[0].data_type == DataType::UInt64
    }

    /// The row numbers of the block; none for a block without rows.
    pub open spec fn row_numbers(&self) -> Seq<u64> {
        if self.rows() == 0 {
            Seq::empty()
        } else {
            self.columns[0].values@
        }
    }

    pub fn is_empty(&self) -> (empty: bool)
        ensures
            empty == (self.rows() == 0),
    {
        self.columns.len() == 0 || self.columns[0].values.len() == 0
    }

    pub fn num_columns(&self) -> (count: usize)
        ensures
            count == self.columns.len(),
    {
        self.columns.len()
    }

    /// Says whether `accumulate` can take the block.
    pub fn can_accumulate(&self) -> (ok: bool)
        ensures
            ok == (self.rows() == 0 || self.holds_row_numbers()),
    {
        if self.is_empty() {
            true
        } else if self.columns.len() != 1 {
            false
        } else {
            match self.columns[0].data_type {
                DataType::UInt64 => true,
                _ => false,
            }
        }
    }
}

/// The row numbers of some blocks, one block after the other.
pub open spec fn all_row_numbers(blocks: Seq<NumberBlock>) -> Seq<u64>
    decreases blocks.len(),
{
    if blocks.len() == 0 {
        Seq::empty()
    } else {
        let n = blocks.len() - 1;
        all_row_numbers(blocks.take(n)) + blocks[n].row_numbers()
    }
}

/// Why no block could be given out.
#[derive(Clone, Copy, Debug, PartialEq, Eq, Structural)]
pub enum AccumulateError {
    /// No block was gathered.
    NoBlocks,
}

pub struct AccumulateRowNumber {
    data_blocks: Vec<NumberBlock>,
}

impl AccumulateRowNumber {
    /// The blocks gathered so far.
    pub closed spec fn blocks(&self) -> Seq<NumberBlock> {
        self.data_blocks@
    }

    pub fn create() -> (accumulator: AccumulateRowNumber)
        ensures
            accumulator.blocks() == Seq::<NumberBlock>::empty(),
    {
        AccumulateRowNumber { data_blocks: Vec::new() }
    }

    /// Takes one block. A block with rows must hold row numbers and nothing
    /// else; a block without rows, as comes when every row found its match,
    /// may have any columns.
    pub fn accumulate(&mut self, data_block: NumberBlock)
        requires
            data_block.rows() == 0 || data_block.holds_row_numbers(),
        ensures
            final(self).blocks() == old(self).blocks().push(data_block),
    {
        self.data_blocks.push(data_block);
    }

    /// Gives out, as one block, all the row numbers gathered, in the order
    /// they came.
    pub fn apply(&self) -> (res: Result<Vec<u64>, AccumulateError>)
        ensures
            self.blocks().len() == 0 ==> res == Err::<Vec<u64>, AccumulateError>(
                AccumulateError::NoBlocks,
            ),
            self.blocks().len() > 0 ==> (res matches Ok(numbers) && numbers@ == all_row_numbers(
                self.blocks(),
            )),
    {
        if self.data_blocks.len() == 0 {
            return Err(AccumulateError::NoBlocks);
        }
        let mut numbers: Vec<u64> = Vec::new();
        let mut b: usize = 0;
        while b < self.data_blocks.len()
            invariant
                b <= self.data_blocks.len(),
                numbers@ == all_row_numbers(self.data_blocks@.take(b as int)),
            decreases self.data_blocks.len() - b,
        {
            let block: &NumberBlock = &self.data_blocks[b];
            let ghost before = numbers@;
            proof {
                assert(self.data_blocks@.take(b + 1).take(b as int) == self.data_blocks@.take(
                    b as int,
                ));
            }
            if !block.is_empty() {
                let values: &Vec<u64> = &block.columns[0].values;
                let mut i: usize = 0;
                while i < values.len()
                    invariant
                        i <= values.len(),
                        numbers@ == before + values@.take(i as int),
                    decreases values.len() - i,
                {
                    numbers.push(values[i]);
                    proof {
                        assert(values@.take(i + 1) =~= values@.take(i as int).push(values@[i as int]));
                        assert(numbers@ =~= before + values@.take(i + 1));
                    }
                    i = i + 1;
                }
                proof {
                    assert(values@.take(values.len() as int) == values@);
                }
            } else {
                proof {
                    assert(before + Seq::<u64>::empty() =~= before);
                }
            }
            b = b + 1;
        }
        proof {
            assert(self.data_blocks@.take(self.data_blocks.len() as int) == self.data_blocks@);
        }
        Ok(numbers)
    }
}

} // verus!
