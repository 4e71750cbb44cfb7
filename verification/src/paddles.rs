//! Who drives each paddle. The movement itself (axis scaling, CPU tracking,
//! clamping to the court) is float arithmetic done by the host.

use vstd::prelude::*;
use crate::types::GameMode;

verus! {

/// In single player the lone human gets both players' devices on the left
/// paddle; in two player the left paddle is player 1's alone.
pub fn left_paddle_merges_both_players(mode: GameMode) -> (b: bool)
    ensures
        b == (mode == GameMode::SinglePlayer),
{
    match mode {
        GameMode::SinglePlayer => true,
        GameMode::TwoPlayer => false,
    }
}

/// The right paddle is the CPU in single player and player 2 otherwise.
pub fn right_paddle_is_cpu(mode: GameMode) -> (b: bool)
    ensures
        b == (mode == GameMode::SinglePlayer),
{
    match mode {
        GameMode::SinglePlayer => true,
        GameMode::TwoPlayer => false,
    }
}

} // verus!
