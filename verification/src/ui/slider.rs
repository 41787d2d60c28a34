//! The steps of a slider's levels, coarse to exact.

use vstd::prelude::*;

verus! {

/// The level at which a drag is exact: the position's own value, no steps.
pub const EXACT: usize = 3;

/// Ten to the power `e`.
pub open spec fn ten_to(e: nat) -> nat
    decreases e,
{
    if e == 0 {
        1
    } else {
        10 * ten_to((e - 1) as nat)
    }
}

/// How many steps a level cuts the whole track into: ten, and ten in each of those at every
/// level finer. None at exact.
pub fn steps(level: usize) -> (r: Option<u32>)
    ensures
        level < EXACT ==> r == Some(ten_to((level + 1) as nat) as u32),
        level >= EXACT ==> r is None,
{
    proof {
        reveal_with_fuel(ten_to, 4);
    }
    if level == 0 {
        Some(10)
    } else if level == 1 {
        Some(100)
    } else if level == 2 {
        Some(1000)
    } else {
        None
    }
}


/// The byte `step` of `n` steps along a file of `size` bytes stands for: that share of the file,
/// rounded to the nearest byte, half a step's byte rounding up.
pub open spec fn part_of(step: nat, n: nat, size: nat) -> nat {
    (step * size + n / 2) / n
}

/// The byte a handle at `step` of the `n` steps of a drag's level stands for. The step is where
/// the handle sits, so at most `n`; the byte is then never past the file.
pub fn part_at_step(step: u32, n: u32, size: u64) -> (r: u64)
    requires
        0 < n,
        step <= n,
    ensures
        r == part_of(step as nat, n as nat, size as nat),
        r <= size,
{
    proof {
        assert((step as u128) * (size as u128) <= (n as u128) * (size as u128)) by (nonlinear_arith)
            requires
                step <= n,
        ;
        assert((n as u128) * (size as u128) <= 0xffff_ffff * 0xffff_ffff_ffff_ffff) by (nonlinear_arith)
            requires
                n <= 0xffff_ffff,
                size <= 0xffff_ffff_ffff_ffff,
        ;
        assert(((step as nat) * (size as nat) + (n as nat) / 2) / (n as nat) <= size as nat) by (nonlinear_arith)
            requires
                0 < n,
                step <= n,
        ;
    }
    let product = (step as u128) * (size as u128);
    let whole = product + (n as u128) / 2;
    (whole / (n as u128)) as u64
}

/// Every level cuts the track ten times finer than the one before: ten steps at the coarsest,
/// then a hundred, then a thousand, then exact.
pub proof fn law_every_level_is_ten_times_finer(level: nat)
    ensures
        ten_to(1) == 10,
        ten_to(level + 1) == 10 * ten_to(level),
        level < EXACT ==> ten_to(level + 1) <= 1000,
{
    reveal_with_fuel(ten_to, 4);
}

} // verus!
