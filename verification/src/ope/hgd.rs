//! Hypergeometric sampling of the point at which an input interval is split.
//!
//! The number of successes itself is drawn by a variate function that the
//! caller supplies: from the number of marked items, the size of the
//! population, the number of draws and a source of coins it returns how many
//! of the draws are marked.

use crate::ope::range::Range;
use crate::ope::tape::PRNG;
use vstd::prelude::*;

verus! {

/// The variate function may be called on every population that has marked and
/// unmarked items and of which at least one item is drawn.
pub open spec fn accepts_populations<F: Fn(u64, u64, u64, PRNG) -> u64>(variate: &F) -> bool {
    forall|marked: u64, population: u64, draws: u64, coins: PRNG|
        1 <= marked < population && 1 <= draws <= population ==> call_requires(
            *variate,
            (marked, population, draws, coins),
        )
}

/// The variate function answers each question in one way only.
pub open spec fn single_valued<F: Fn(u64, u64, u64, PRNG) -> u64>(variate: &F) -> bool {
    forall|marked: u64, population: u64, draws: u64, coins: PRNG, a: u64, b: u64|
        call_ensures(*variate, (marked, population, draws, coins), a) && call_ensures(
            *variate,
            (marked, population, draws, coins),
            b,
        ) ==> a == b
}

/// The variate function answers within the support of the hypergeometric
/// distribution: not more than there are marked items, not more than there are
/// draws, and not fewer than the draws that the unmarked items cannot fill.
pub open spec fn in_support<F: Fn(u64, u64, u64, PRNG) -> u64>(variate: &F) -> bool {
    forall|marked: u64, population: u64, draws: u64, coins: PRNG, count: u64|
        call_ensures(*variate, (marked, population, draws, coins), count) ==> count <= marked
            && count <= draws && count + population >= draws + marked
}

/// The last element of `ins` that is counted among the first `count`: the
/// first element when the count is zero, and never beyond the last.
pub open spec fn split_point(ins: Range, count: u64) -> u64 {
    if count == 0 {
        ins.start
    } else if count - 1 >= ins.end - ins.start {
        ins.end
    } else {
        (ins.start + count - 1) as u64
    }
}

/// `sample` is a point at which `hypergeo_sample` may split `ins`, given that
/// the elements of `outs` up to `seed` are drawn. Intervals of one size are
/// split where `seed` splits `outs`. Otherwise the variate function says how
/// many elements of `ins` fall among the draws.
pub open spec fn hypergeo_outcome<F: Fn(u64, u64, u64, PRNG) -> u64>(
    variate: &F,
    ins: Range,
    outs: Range,
    seed: u64,
    coins: PRNG,
    sample: u64,
) -> bool {
    if ins.spec_size() == outs.spec_size() {
        sample == ins.start + (seed - outs.start)
    } else {
        exists|count: u64|
            #[trigger] call_ensures(
                *variate,
                (
                    ins.spec_size() as u64,
                    outs.spec_size() as u64,
                    (seed - outs.start + 1) as u64,
                    coins,
                ),
                count,
            ) && sample == split_point(ins, count)
    }
}

/// Samples the point at which the input interval is split when the output
/// interval is split at `seed`: the last input element that is mapped to an
/// output element not above `seed`.
pub fn hypergeo_sample<F: Fn(u64, u64, u64, PRNG) -> u64>(
    in_start: u64,
    in_end: u64,
    out_start: u64,
    out_end: u64,
    seed: u64,
    coins: PRNG,
    variate: &F,
) -> (sample: u64)
    requires
        (Range { start: in_start, end: in_end }).wf(),
        (Range { start: out_start, end: out_end }).wf(),
        in_end - in_start <= out_end - out_start,
        out_start <= seed <= out_end,
        accepts_populations(variate),
    ensures
        hypergeo_outcome(
            variate,
            Range { start: in_start, end: in_end },
            Range { start: out_start, end: out_end },
            seed,
            coins,
            sample,
        ),
        in_start <= sample <= in_end,
{
    let in_range = Range { start: in_start, end: in_end };
    let out_range = Range { start: out_start, end: out_end };
    let in_size = in_range.size();
    let out_size = out_range.size();
    let index: u64 = seed - out_range.start + 1;
    if in_size == out_size {
        in_range.start + (seed - out_range.start)
    } else {
        let count = variate(in_size, out_size, index, coins);
        if count == 0 {
            in_range.start
        } else if count - 1 >= in_end - in_start {
            in_range.end
        } else {
            in_range.start + count - 1
        }
    }
}

} // verus!
