use vstd::prelude::*;

verus! {

/// Difficulty of the genesis block.
pub const GENESIS_DIFF: u8 = 10;

/// Expected time between two blocks, in seconds.
pub const BLOCK_TIME: u32 = 120;

/// Why no next difficulty could be given.
#[derive(Debug, Clone, Copy, PartialEq, Eq, Structural)]
pub enum DifficultyError {
    /// Lowering the difficulty would go below zero.
    Underflow,
    /// Raising the difficulty would go above `u8::MAX`.
    Overflow,
}

/// Lower edge of the tolerance band: `floor(BLOCK_TIME * 0.75)`.
pub open spec fn lower_limit() -> int {
    (BLOCK_TIME as int * 3) / 4
}

/// Upper edge of the tolerance band: `floor(BLOCK_TIME * 1.25)`.
pub open spec fn upper_limit() -> int {
    (BLOCK_TIME as int * 5) / 4
}

/// The next difficulty, as a mathematical function of the previous block.
pub open spec fn next_difficulty(height: u8, prev_diff: u8, prev_blocktime: u32) -> Result<u8, DifficultyError> {
    if height == 0 && prev_blocktime == 0 {
        Ok(GENESIS_DIFF)
    } else if (prev_blocktime as int) < lower_limit() {
        if prev_diff == u8::MAX {
            Err(DifficultyError::Overflow)
        } else {
            Ok((prev_diff + 1) as u8)
        }
    } else if (prev_blocktime as int) > upper_limit() {
        if prev_diff == 0 {
            Err(DifficultyError::Underflow)
        } else {
            Ok((prev_diff - 1) as u8)
        }
    } else {
        Ok(prev_diff)
    }
}

/// Computes the difficulty of the next block from the chain height, the
/// previous difficulty and the time the previous block took.
///
/// The genesis block (height and block time both zero) gets `GENESIS_DIFF`.
/// A block faster than the lower edge of the band raises the difficulty by
/// one, a block slower than the upper edge lowers it by one, anything in
/// between keeps it. Stepping outside `0..=255` is an error.
pub fn calculate_diff(height: u8, prev_diff: u8, prev_blocktime: u32) -> (r: Result<u8, DifficultyError>)
    ensures
        r == next_difficulty(height, prev_diff, prev_blocktime),
{
    if height == 0 && prev_blocktime == 0 {
        return Ok(GENESIS_DIFF);
    }
    let upper_limit: u32 = BLOCK_TIME * 5 / 4;
    let lower_limit: u32 = BLOCK_TIME * 3 / 4;
    if prev_blocktime < lower_limit {
        if prev_diff == u8::MAX {
            Err(DifficultyError::Overflow)
        } else {
            Ok(prev_diff + 1)
        }
    } else if prev_blocktime > upper_limit {
        if prev_diff == 0 {
            Err(DifficultyError::Underflow)
        } else {
            Ok(prev_diff - 1)
        }
    } else {
        Ok(prev_diff)
    }
}

/// A block that took exactly the target interval leaves the difficulty
/// unchanged.
pub proof fn lemma_on_target_keeps_difficulty(height: u8, prev_diff: u8)
    ensures
        next_difficulty(height, prev_diff, BLOCK_TIME) == Ok::<u8, DifficultyError>(prev_diff),
{
}

/// A block that took 70% of the target interval raises the difficulty by
/// one, unless it is already at its largest value.
pub proof fn lemma_fast_block_raises_difficulty(height: u8, prev_diff: u8)
    requires
        prev_diff < u8::MAX,
    ensures
        next_difficulty(height, prev_diff, (BLOCK_TIME * 7 / 10) as u32) == Ok::<u8, DifficultyError>(
            (prev_diff + 1) as u8,
        ),
{
}

/// A block that took 130% of the target interval lowers the difficulty by
/// one, unless it is already zero.
pub proof fn lemma_slow_block_lowers_difficulty(height: u8, prev_diff: u8)
    requires
        prev_diff > 0,
    ensures
        next_difficulty(height, prev_diff, (BLOCK_TIME * 13 / 10) as u32) == Ok::<u8, DifficultyError>(
            (prev_diff - 1) as u8,
        ),
{
}

} // verus!
