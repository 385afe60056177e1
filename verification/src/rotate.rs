//! Rotation of the session token between visits.

use vstd::prelude::*;

verus! {

/// The number of slots by which a token moves on between two visits, unless
/// a rotator is built with another one.
pub const ROTATION_OFFSET: u32 = 2;

/// The slot that follows `slot` on a grid of `grid_size` slots when tokens
/// move on by `offset`.
pub open spec fn rotated(slot: int, grid_size: int, offset: int) -> int {
    (slot + offset) % grid_size
}

/// Computes the token that a visitor carries to the next visit.
#[derive(Clone, Copy, Debug, PartialEq, Eq)]
pub struct TokenRotator {
    pub rotation_offset: u32,
}

impl TokenRotator {
    /// A rotator that moves tokens on by `rotation_offset` slots.
    pub fn new(rotation_offset: u32) -> (rotator: Self)
        ensures
            rotator.rotation_offset == rotation_offset,
    {
        TokenRotator { rotation_offset }
    }

    /// The token for the next visit: the current slot moved on by the
    /// rotation offset, wrapping around at the end of the grid.
    pub fn next_token(&self, current_slot: u32, grid_size: u32) -> (next: u32)
        requires
            grid_size > 0,
        ensures
            next == rotated(current_slot as int, grid_size as int, self.rotation_offset as int),
            next < grid_size,
            0 < self.rotation_offset < grid_size ==> next != current_slot,
    {
        let sum: u64 = current_slot as u64 + self.rotation_offset as u64;
        let next: u64 = sum % (grid_size as u64);
        proof {
            lemma_rotation_moves(
                current_slot as int,
                grid_size as int,
                self.rotation_offset as int,
            );
        }
        next as u32
    }
}

impl Default for TokenRotator {
    fn default() -> (rotator: Self)
        ensures
            rotator.rotation_offset == ROTATION_OFFSET,
    {
        TokenRotator { rotation_offset: ROTATION_OFFSET }
    }
}

/// A rotated token names a slot of the grid, and a rotation by more than
/// nothing and less than the whole grid never hands a slot back to itself.
pub proof fn lemma_rotation_moves(slot: int, grid_size: int, offset: int)
    requires
        0 <= slot,
        0 <= offset,
        0 < grid_size,
    ensures
        0 <= rotated(slot, grid_size, offset) < grid_size,
        0 < offset < grid_size ==> rotated(slot, grid_size, offset) != slot,
{
    let sum = slot + offset;
    vstd::arithmetic::div_mod::lemma_mod_pos_bound(sum, grid_size);
    if 0 < offset < grid_size && slot < grid_size {
        if sum < grid_size {
            vstd::arithmetic::div_mod::lemma_small_mod(sum as nat, grid_size as nat);
        } else {
            vstd::arithmetic::div_mod::lemma_mod_sub_multiples_vanish(sum, grid_size);
            vstd::arithmetic::div_mod::lemma_small_mod((sum - grid_size) as nat, grid_size as nat);
        }
    }
}

} // verus!
