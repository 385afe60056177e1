//! The library's one source of chance.

use vstd::prelude::*;

verus! {

/// Draws a number below `bound`.
///
/// This is `rand::Rng::gen_range` on the generator that `rand::thread_rng`
/// hands out, over the range from zero up to, and without, `bound`.
/// `gen_range` panics on an empty range, which the precondition excludes.
/// All that is claimed of the number drawn is that it lies in the range;
/// nothing is claimed of how the numbers are spread, and two calls may
/// differ. The generator seeds itself from the operating system on first
/// use and panics where the system gives it no seed: no precondition can
/// exclude that.
#[verifier::external_body]
pub(crate) fn random_below(bound: u64) -> (drawn: u64)
    requires
        bound > 0,
    ensures
        drawn < bound,
{
    rand::Rng::gen_range(&mut rand::thread_rng(), 0..bound)
}

/// Picks one of `items` at random.
pub fn pick_randomly<'a>(items: &'a [&str]) -> (picked: &'a str)
    requires
        items.len() > 0,
    ensures
        exists|i: int| 0 <= i < items.len() && picked == #[trigger] items[i],
{
    let index = random_below(items.len() as u64) as usize;
    items[index]
}

} // verus!
