use rusty_chain::difficulty::{calculate_diff, DifficultyError, BLOCK_TIME, GENESIS_DIFF};

#[test]
fn calculate_genesis_diff() {
    let height: u8 = 0;
    let prev_diff: u8 = 0;
    let prev_time: u32 = 0;

    assert_eq!(Ok(GENESIS_DIFF), calculate_diff(height, prev_diff, prev_time));
}

#[test]
fn calculate_diff_static() {
    let height: u8 = 10;
    let prev_diff: u8 = 10;
    let prev_time: u32 = BLOCK_TIME;

    assert_eq!(Ok(prev_diff), calculate_diff(height, prev_diff, prev_time));
}

#[test]
fn calculate_diff_increase() {
    let height: u8 = 10;
    let prev_diff: u8 = 10;
    let prev_time: u32 = (BLOCK_TIME as f32 * 0.7).floor() as u32;

    assert_eq!(Ok(prev_diff + 1), calculate_diff(height, prev_diff, prev_time));
}

#[test]
fn calculate_diff_decrease() {
    let height: u8 = 10;
    let prev_diff: u8 = 10;
    let prev_time: u32 = (BLOCK_TIME as f32 * 1.3).floor() as u32;

    assert_eq!(Ok(prev_diff - 1), calculate_diff(height, prev_diff, prev_time));
}

#[test]
fn band_edges_keep_difficulty() {
    assert_eq!(Ok(7), calculate_diff(3, 7, 90));
    assert_eq!(Ok(7), calculate_diff(3, 7, 150));
    assert_eq!(Ok(8), calculate_diff(3, 7, 89));
    assert_eq!(Ok(6), calculate_diff(3, 7, 151));
}

#[test]
fn genesis_needs_zero_height_and_time() {
    assert_eq!(Ok(1), calculate_diff(0, 0, 1));
    assert_eq!(Ok(1), calculate_diff(1, 0, 0));
}

#[test]
fn lowering_zero_difficulty_is_an_error() {
    assert_eq!(Err(DifficultyError::Underflow), calculate_diff(5, 0, 1000));
}

#[test]
fn raising_largest_difficulty_is_an_error() {
    assert_eq!(Err(DifficultyError::Overflow), calculate_diff(5, 255, 10));
    assert_eq!(Ok(255), calculate_diff(5, 255, 120));
}
