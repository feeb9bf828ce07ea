//! Weighted selection of opcode ids from a table of rates.

use crate::random::sample_range;
use rand::rngs::StdRng;
use vstd::prelude::*;

verus! {

/// One row of a rate table: an opcode id and the weight with which it is
/// drawn. Weights are relative to the sum of the table they stand in.
#[derive(Clone, Copy, Debug, PartialEq, Eq, Structural)]
pub struct Rate {
    pub weight: u32,
    pub opcode: usize,
}

/// The rates at which the leaf operators are drawn, in hundredths.
pub open spec fn leaf_rate_table() -> Seq<Rate> {
    seq![
        Rate { weight: 1, opcode: 1 },
        Rate { weight: 200, opcode: 2 },
        Rate { weight: 400, opcode: 3 },
        Rate { weight: 100, opcode: 4 },
        Rate { weight: 200, opcode: 5 },
        Rate { weight: 200, opcode: 6 },
    ]
}

/// The rates at which the combinators are drawn, in hundredths.
pub open spec fn op_rate_table() -> Seq<Rate> {
    seq![
        Rate { weight: 20, opcode: 8 },
        Rate { weight: 10, opcode: 9 },
        Rate { weight: 30, opcode: 10 },
        Rate { weight: 30, opcode: 11 },
        Rate { weight: 30, opcode: 12 },
        Rate { weight: 30, opcode: 13 },
        Rate { weight: 50, opcode: 14 },
        Rate { weight: 50, opcode: 15 },
        Rate { weight: 0, opcode: 16 },
        Rate { weight: 0, opcode: 17 },
        Rate { weight: 20, opcode: 18 },
        Rate { weight: 200, opcode: 19 },
    ]
}

/// Sum of the weights of [`leaf_rate_table`].
pub const LEAF_RATE_TOTAL: u64 = 1101;

/// Sum of the weights of [`op_rate_table`].
pub const OP_RATE_TOTAL: u64 = 470;

/// The standard leaf rates.
pub fn leaf_rates() -> (rates: Vec<Rate>)
    ensures
        rates@ == leaf_rate_table(),
{
    vec![
        Rate { weight: 1, opcode: 1 },
        Rate { weight: 200, opcode: 2 },
        Rate { weight: 400, opcode: 3 },
        Rate { weight: 100, opcode: 4 },
        Rate { weight: 200, opcode: 5 },
        Rate { weight: 200, opcode: 6 },
    ]
}

/// The standard combinator rates.
pub fn op_rates() -> (rates: Vec<Rate>)
    ensures
        rates@ == op_rate_table(),
{
    vec![
        Rate { weight: 20, opcode: 8 },
        Rate { weight: 10, opcode: 9 },
        Rate { weight: 30, opcode: 10 },
        Rate { weight: 30, opcode: 11 },
        Rate { weight: 30, opcode: 12 },
        Rate { weight: 30, opcode: 13 },
        Rate { weight: 50, opcode: 14 },
        Rate { weight: 50, opcode: 15 },
        Rate { weight: 0, opcode: 16 },
        Rate { weight: 0, opcode: 17 },
        Rate { weight: 20, opcode: 18 },
        Rate { weight: 200, opcode: 19 },
    ]
}

/// Sum of all weights of a table.
pub open spec fn weight_sum(rates: Seq<Rate>) -> nat
    decreases rates.len(),
{
    if rates.len() == 0 {
        0
    } else {
        weight_sum(rates.drop_last()) + rates.last().weight as nat
    }
}

/// Index of the row that the draw `f` falls on: the first row at which the
/// running sum of weights exceeds `f`.
pub open spec fn selected(rates: Seq<Rate>, f: nat) -> int
    decreases rates.len(),
{
    if rates.len() == 0 {
        0
    } else if f < weight_sum(rates.drop_last()) {
        selected(rates.drop_last(), f)
    } else {
        rates.len() - 1
    }
}

/// Whether some draw below the table's total lands on a row with opcode `id`.
pub open spec fn drawable(rates: Seq<Rate>, id: usize) -> bool {
    exists|f: nat| f < weight_sum(rates) && rates[#[trigger] selected(rates, f)].opcode == id
}

/// The totals of the standard tables are what the two constants say.
pub proof fn lemma_standard_totals()
    ensures
        weight_sum(leaf_rate_table()) == LEAF_RATE_TOTAL,
        weight_sum(op_rate_table()) == OP_RATE_TOTAL,
{
    let l = leaf_rate_table();
    assert forall|i: int| 0 < i <= l.len() implies weight_sum(#[trigger] l.take(i)) == weight_sum(
        l.take(i - 1),
    ) + l[i - 1].weight by {
        assert(l.take(i).drop_last() =~= l.take(i - 1));
    }
    let o = op_rate_table();
    assert forall|i: int| 0 < i <= o.len() implies weight_sum(#[trigger] o.take(i)) == weight_sum(
        o.take(i - 1),
    ) + o[i - 1].weight by {
        assert(o.take(i).drop_last() =~= o.take(i - 1));
    }
}

/// Running sums never shrink as rows are added.
pub proof fn lemma_weight_sum_monotone(rates: Seq<Rate>, i: int, j: int)
    requires
        0 <= i <= j <= rates.len(),
    ensures
        weight_sum(rates.take(i)) <= weight_sum(rates.take(j)),
    decreases j - i,
{
    if i < j {
        lemma_weight_sum_monotone(rates, i, j - 1);
        assert(rates.take(j).drop_last() =~= rates.take(j - 1));
    }
}

/// A running sum of `i` weights is at most `i` times the largest weight.
pub proof fn lemma_weight_sum_bound(rates: Seq<Rate>)
    ensures
        weight_sum(rates) <= rates.len() * u32::MAX,
    decreases rates.len(),
{
    if rates.len() > 0 {
        lemma_weight_sum_bound(rates.drop_last());
    }
}

/// Each row owns the interval of draws between the running sum before it and
/// the running sum after it, and no other draw selects it. A row of weight
/// `w` is therefore selected by exactly `w` of the `weight_sum` equally likely
/// draws.
pub proof fn lemma_selection_interval(rates: Seq<Rate>, f: nat, i: int)
    requires
        f < weight_sum(rates),
        0 <= i < rates.len(),
    ensures
        selected(rates, f) == i <==> weight_sum(rates.take(i)) <= f < weight_sum(rates.take(i))
            + rates[i].weight,
        0 <= selected(rates, f) < rates.len(),
    decreases rates.len(),
{
    let n = rates.len() as int;
    let front = rates.drop_last();
    if f < weight_sum(front) {
        if i < n - 1 {
            lemma_selection_interval(front, f, i);
            assert(front.take(i) =~= rates.take(i));
        } else {
            lemma_selection_interval(front, f, 0);
        }
    } else {
        if i < n - 1 {
            lemma_weight_sum_monotone(rates, i + 1, n - 1);
            assert(rates.take(i + 1).drop_last() =~= rates.take(i));
        }
    }
}

/// The row a draw falls on has a weight above zero.
pub proof fn lemma_selected_has_weight(rates: Seq<Rate>, f: nat)
    requires
        f < weight_sum(rates),
    ensures
        0 <= selected(rates, f) < rates.len(),
        rates[selected(rates, f)].weight > 0,
{
    lemma_selection_interval(rates, f, 0);
    lemma_selection_interval(rates, f, selected(rates, f));
}

/// Opcode id of the row that the draw `f` falls on.
pub fn select(rates: &[Rate], f: u64) -> (id: usize)
    requires
        f < weight_sum(rates@),
    ensures
        id == rates@[selected(rates@, f as nat)].opcode,
{
    let mut i: usize = 0;
    let mut acc: u128 = 0;
    while acc <= f as u128
        invariant
            i <= rates.len(),
            acc == weight_sum(rates@.take(i as int)),
            f < weight_sum(rates@),
            i > 0 ==> weight_sum(rates@.take(i - 1)) <= f,
        decreases rates.len() - i,
    {
        proof {
            assert(rates@.take(rates.len() as int) =~= rates@);
            assert(rates@.take(i + 1).drop_last() =~= rates@.take(i as int));
            lemma_weight_sum_bound(rates@.take(i + 1));
            let rows = rates@.take(i + 1).len();
            assert(rows * u32::MAX <= usize::MAX * u32::MAX) by (nonlinear_arith)
                requires
                    rows <= usize::MAX,
            ;
        }
        acc = acc + rates[i].weight as u128;
        i = i + 1;
    }
    proof {
        assert(rates@.take(i as int).drop_last() =~= rates@.take(i - 1));
        lemma_selection_interval(rates@, f as nat, i - 1);
    }
    rates[i - 1].opcode
}

/// Sum of the weights of a table, or `None` if it does not fit in 64 bits.
pub fn total_weight(rates: &[Rate]) -> (total: Option<u64>)
    ensures
        match total {
            Some(t) => t == weight_sum(rates@),
            None => weight_sum(rates@) > u64::MAX,
        },
{
    let mut total: u64 = 0;
    let mut i: usize = 0;
    while i < rates.len()
        invariant
            i <= rates.len(),
            total == weight_sum(rates@.take(i as int)),
        decreases rates.len() - i,
    {
        proof {
            assert(rates@.take(i + 1).drop_last() =~= rates@.take(i as int));
        }
        match total.checked_add(rates[i].weight as u64) {
            Some(next) => {
                total = next;
            },
            None => {
                proof {
                    lemma_weight_sum_monotone(rates@, i + 1, rates.len() as int);
                    assert(rates@.take(rates.len() as int) =~= rates@);
                }
                return None;
            },
        }
        i = i + 1;
    }
    proof {
        assert(rates@.take(rates.len() as int) =~= rates@);
    }
    Some(total)
}

/// Picks an opcode id at random, each row of `rates` with a probability
/// proportional to its weight. `total` is the sum of all weights.
///
/// One value is drawn uniformly below `total`; [`select`] says which id a
/// given draw yields.
pub fn guided_random_walk(rng: &mut StdRng, rates: &[Rate], total: u64) -> (id: usize)
    requires
        total == weight_sum(rates@),
        0 < total <= i64::MAX,
    ensures
        drawable(rates@, id),
{
    let f = sample_range(rng, 0, total as i64) as u64;
    select(rates, f)
}

} // verus!
