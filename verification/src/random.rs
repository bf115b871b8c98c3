//! The pseudorandom draws of the game, taken from the `quad_rand` crate.
//!
//! Nothing in this module is proved: each function states what the source of
//! `quad_rand` shows of the call it makes, and the rest of the crate is
//! verified against these statements for every value that a draw may return.

use quad_rand::{ChooseRandom, RandGenerator, RandomRange};
use vstd::prelude::*;

use crate::cell::Cell;

verus! {

/// A pseudorandom generator with a state of its own, `quad_rand::RandGenerator`.
#[verifier::external_type_specification]
#[verifier::external_body]
pub struct ExRandGenerator(RandGenerator);

/// Calls `gen_range` of `quad_rand::RandomRange` for `u8`, which draws from
/// the generator that the whole process shares. It scales a fraction from
/// the half-open unit interval to the span from `low` to `high` and cuts
/// off what follows the point, so an ascending range yields `low` or more
/// and less than `high`, and any other range a value from `high` to `low`.
#[verifier::external_body]
pub(crate) fn gen_range_u8(low: u8, high: u8) -> (r: u8)
    ensures
        low < high ==> low <= r < high,
        low >= high ==> high <= r <= low,
{
    u8::gen_range(low, high)
}

/// Calls `gen_range_with_state` of `quad_rand::RandomRange` for `u8`, which
/// draws from `state` and is otherwise the same computation as `gen_range`.
#[verifier::external_body]
pub(crate) fn gen_range_u8_with_state(state: &RandGenerator, low: u8, high: u8) -> (r: u8)
    ensures
        low < high ==> low <= r < high,
        low >= high ==> high <= r <= low,
{
    u8::gen_range_with_state(state, low, high)
}

/// Calls `choose` of `quad_rand::ChooseRandom` on the cells, which draws an
/// index below the length from the generator that the whole process shares
/// and looks it up. An empty list yields nothing; a list of up to `2^20`
/// cells, for which the scaling of the index is exact, yields one of its
/// cells.
#[verifier::external_body]
pub(crate) fn choose_cell(cells: &Vec<Cell>) -> (r: Option<Cell>)
    ensures
        r matches Some(c) ==> cells@.contains(c),
        cells@.len() == 0 ==> r is None,
        0 < cells@.len() <= 0x10_0000 ==> r is Some,
{
    cells.choose().copied()
}

} // verus!
