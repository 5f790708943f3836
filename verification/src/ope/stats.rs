//! Uniform sampling from an interval, driven by the coin tape.

use crate::ope::range::Range;
use crate::ope::tape::{generate_tape, PRNG};
use vstd::arithmetic::power2::{lemma2_to64, lemma_pow2_unfold, pow2};
use vstd::prelude::*;

verus! {

/// The element that a bisection of `range` ends in when it reads `coins` from
/// position `index` on: the interval is halved at its middle, a zero coin keeps
/// the lower half and any other coin the upper half, until one element is left.
pub open spec fn uniform_walk(range: Range, coins: Seq<u32>, index: nat) -> u64
    decreases range.end - range.start,
{
    if range.start >= range.end {
        range.start
    } else {
        let mid = (range.start + (range.end - range.start) / 2) as u64;
        if coins[index as int] == 0 {
            uniform_walk(Range { start: range.start, end: mid }, coins, index + 1)
        } else {
            uniform_walk(Range { start: (mid + 1) as u64, end: range.end }, coins, index + 1)
        }
    }
}

/// The element of `range` that `prng` selects.
pub open spec fn spec_uniform_sample(range: Range, prng: PRNG) -> u64 {
    uniform_walk(range, prng.spec_tape(), 0)
}

/// A bisection ends inside the interval it started from.
pub proof fn lemma_uniform_walk_in_range(range: Range, coins: Seq<u32>, index: nat)
    requires
        range.start <= range.end,
    ensures
        range.spec_contains(uniform_walk(range, coins, index)),
    decreases range.end - range.start,
{
    if range.start < range.end {
        let mid = (range.start + (range.end - range.start) / 2) as u64;
        if coins[index as int] == 0 {
            lemma_uniform_walk_in_range(Range { start: range.start, end: mid }, coins, index + 1);
        } else {
            lemma_uniform_walk_in_range(
                Range { start: (mid + 1) as u64, end: range.end },
                coins,
                index + 1,
            );
        }
    }
}

/// Selects an element of `in_range` by bisection, one coin of the next reading
/// of `prng` for each halving.
pub fn uniform_sample(in_range: Range, prng: PRNG) -> (sample: u64)
    requires
        in_range.start <= in_range.end,
    ensures
        sample == spec_uniform_sample(in_range, prng),
        in_range.spec_contains(sample),
{
    let mut prng = prng;
    let ghost tape = prng.spec_tape();
    let coins = generate_tape(&mut prng);
    let mut cur = in_range.copy();
    let mut index: usize = 0;
    proof {
        lemma2_to64();
        lemma_uniform_walk_in_range(in_range, tape, 0);
    }
    while cur.start < cur.end
        invariant
            coins@ == tape,
            index <= 64,
            cur.start <= cur.end,
            cur.end - cur.start < pow2((64 - index) as nat),
            uniform_walk(in_range, tape, 0) == uniform_walk(cur, tape, index as nat),
        decreases cur.end - cur.start,
    {
        proof {
            lemma2_to64();
            if index < 64 {
                lemma_pow2_unfold((64 - index) as nat);
            }
        }
        let mid = cur.start + (cur.end - cur.start) / 2;
        if coins[index] == 0 {
            cur.end = mid;
        } else {
            cur.start = mid + 1;
        }
        index = index + 1;
    }
    cur.start
}

} // verus!
