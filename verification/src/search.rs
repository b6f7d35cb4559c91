//! Integer rounding search: enumerate every combination of rounding each
//! holding's fractional target up or down, keep the combinations whose total
//! cost stays within the cash amount, and choose the one that spends the
//! most (the first such combination in enumeration order).

use vstd::arithmetic::power2::pow2;
use vstd::prelude::*;

use crate::combos::combo_bit;
use crate::combos::get_rounding_combinations;
use crate::frac::frac_ceil;
use crate::frac::frac_ceil_exec;
use crate::frac::frac_floor;
use crate::frac::frac_floor_exec;
use crate::frac::frac_ok;
use crate::frac::Frac;
use crate::model::cash_ok;
use crate::model::holdings_ok;
use crate::model::sel_ok;
use crate::model::stock_ok;
use crate::model::Portfolio;
use crate::model::ReinvestError;
use crate::model::Stock;
use crate::model::NUM_MAX;
use crate::model::SELECTED_MAX;
use crate::model::TERM_MAX;

verus! {

/// The whole-unit delta of holding `j` under combination `k`: the ceiling
/// of its fractional target where the combination's flag is set, else the
/// floor.
pub open spec fn combo_delta(fracs: Seq<Frac>, k: int, j: int) -> int {
    if combo_bit(k, j, fracs.len() as int) {
        frac_ceil(fracs[j].num as int, fracs[j].den as int)
    } else {
        frac_floor(fracs[j].num as int, fracs[j].den as int)
    }
}

/// Cost of the first `j` holdings of combination `k`: the sum of each
/// rounded delta times the holding's price.
pub open spec fn cost_prefix(
    stocks: Seq<Stock>,
    sel: Seq<usize>,
    fracs: Seq<Frac>,
    k: int,
    j: int,
) -> int
    decreases j,
{
    if j <= 0 {
        0
    } else {
        cost_prefix(stocks, sel, fracs, k, j - 1) + combo_delta(fracs, k, j - 1) * stocks[sel[j
            - 1] as int].Price
    }
}

/// Total cost of rounding combination `k`.
pub open spec fn combo_cost(stocks: Seq<Stock>, sel: Seq<usize>, fracs: Seq<Frac>, k: int) -> int {
    cost_prefix(stocks, sel, fracs, k, sel.len() as int)
}

/// A combination is feasible when its total cost does not exceed the cash
/// amount; spending exactly the cash amount is feasible.
pub open spec fn feasible(
    stocks: Seq<Stock>,
    sel: Seq<usize>,
    fracs: Seq<Frac>,
    cash: int,
    k: int,
) -> bool {
    combo_cost(stocks, sel, fracs, k) <= cash
}

/// Combination `k` is the one the search picks: feasible, of maximal cost
/// among all feasible combinations, and the first in enumeration order to
/// reach that cost.
pub open spec fn is_chosen(
    stocks: Seq<Stock>,
    sel: Seq<usize>,
    fracs: Seq<Frac>,
    cash: int,
    k: int,
) -> bool {
    &&& 0 <= k < pow2(fracs.len())
    &&& feasible(stocks, sel, fracs, cash, k)
    &&& (forall|k2: int|
        0 <= k2 < k && #[trigger] feasible(stocks, sel, fracs, cash, k2) ==> combo_cost(
            stocks,
            sel,
            fracs,
            k2,
        ) < combo_cost(stocks, sel, fracs, k))
    &&& (forall|k2: int|
        0 <= k2 < pow2(fracs.len()) && #[trigger] feasible(stocks, sel, fracs, cash, k2)
            ==> combo_cost(stocks, sel, fracs, k2) <= combo_cost(stocks, sel, fracs, k))
}

/// At most one combination is the chosen one.
pub proof fn lemma_chosen_unique(
    stocks: Seq<Stock>,
    sel: Seq<usize>,
    fracs: Seq<Frac>,
    cash: int,
    k1: int,
    k2: int,
)
    requires
        is_chosen(stocks, sel, fracs, cash, k1),
        is_chosen(stocks, sel, fracs, cash, k2),
    ensures
        k1 == k2,
{
    if k1 < k2 {
        assert(feasible(stocks, sel, fracs, cash, k1));
        assert(combo_cost(stocks, sel, fracs, k1) < combo_cost(stocks, sel, fracs, k2));
        assert(combo_cost(stocks, sel, fracs, k2) <= combo_cost(stocks, sel, fracs, k1));
    }
    if k2 < k1 {
        assert(feasible(stocks, sel, fracs, cash, k2));
        assert(combo_cost(stocks, sel, fracs, k2) < combo_cost(stocks, sel, fracs, k1));
        assert(combo_cost(stocks, sel, fracs, k1) <= combo_cost(stocks, sel, fracs, k2));
    }
}

/// Everything the rounding search promises of its result.
pub open spec fn search_post(
    stocks: Seq<Stock>,
    sel: Seq<usize>,
    fracs: Seq<Frac>,
    cash: int,
    r: Result<(i128, Vec<i128>), ReinvestError>,
) -> bool {
    match r {
        Result::Err(e) => {
            ||| (e == ReinvestError::TooManyHoldings && fracs.len() > SELECTED_MAX)
            ||| (e == ReinvestError::Infeasible && fracs.len() <= SELECTED_MAX && (forall|k: int|
                0 <= k < pow2(fracs.len()) ==> !#[trigger] feasible(stocks, sel, fracs, cash, k)))
        },
        Result::Ok((spent, deltas)) => {
            &&& fracs.len() <= SELECTED_MAX
            &&& spent <= cash
            &&& deltas@.len() == fracs.len()
            &&& (exists|k: int|
                {
                    &&& #[trigger] is_chosen(stocks, sel, fracs, cash, k)
                    &&& spent == combo_cost(stocks, sel, fracs, k)
                    &&& (forall|j: int|
                        0 <= j < fracs.len() ==> #[trigger] deltas@[j] == combo_delta(fracs, k, j))
                })
        },
    }
}

/// Searches every rounding combination of the selected holdings' fractional
/// targets for the feasible one that spends the most.
pub fn search_optimal_rounding(
    portfolio: &Portfolio,
    sel: &Vec<usize>,
    fracs: &Vec<Frac>,
    reinvest: i64,
) -> (r: Result<(i128, Vec<i128>), ReinvestError>)
    requires
        holdings_ok(portfolio.Stocks@),
        sel_ok(portfolio.Stocks@, sel@),
        cash_ok(reinvest),
        fracs@.len() == sel@.len(),
        forall|j: int| 0 <= j < fracs@.len() ==> frac_ok(#[trigger] fracs@[j]),
    ensures
        search_post(portfolio.Stocks@, sel@, fracs@, reinvest as int, r),
{
    let ghost stocks = portfolio.Stocks@;
    let n = sel.len();
    if n > SELECTED_MAX {
        return Err(ReinvestError::TooManyHoldings);
    }
    let combos = get_rounding_combinations(n);
    let limit = combos.len();
    let mut best: Option<(i128, Vec<i128>)> = None;
    let ghost mut best_k: int = 0;
    let mut k: usize = 0;
    while k < limit
        invariant
            k <= limit,
            n == sel@.len(),
            n == fracs@.len(),
            n <= SELECTED_MAX,
            limit == pow2(n as nat),
            stocks == portfolio.Stocks@,
            holdings_ok(stocks),
            sel_ok(stocks, sel@),
            cash_ok(reinvest),
            forall|j: int| 0 <= j < fracs@.len() ==> frac_ok(#[trigger] fracs@[j]),
            combos@.len() == limit,
            forall|t: int| 0 <= t < limit ==> (#[trigger] combos@[t])@.len() == n,
            forall|t: int, j: int|
                0 <= t < limit && 0 <= j < n ==> (#[trigger] combos@[t]@[j]) == combo_bit(
                    t,
                    j,
                    n as int,
                ),
            best is None ==> forall|t: int|
                0 <= t < k ==> !#[trigger] feasible(stocks, sel@, fracs@, reinvest as int, t),
            best matches Some(b) ==> {
                &&& 0 <= best_k < k
                &&& feasible(stocks, sel@, fracs@, reinvest as int, best_k)
                &&& b.0 == combo_cost(stocks, sel@, fracs@, best_k)
                &&& b.1@.len() == n
                &&& (forall|j: int|
                    0 <= j < n ==> #[trigger] b.1@[j] == combo_delta(fracs@, best_k, j))
                &&& (forall|t: int|
                    0 <= t < best_k && #[trigger] feasible(stocks, sel@, fracs@, reinvest as int, t)
                        ==> combo_cost(stocks, sel@, fracs@, t) < b.0)
                &&& (forall|t: int|
                    0 <= t < k && #[trigger] feasible(stocks, sel@, fracs@, reinvest as int, t)
                        ==> combo_cost(stocks, sel@, fracs@, t) <= b.0)
            },
        decreases limit - k,
    {
        let combo = &combos[k];
        let mut deltas: Vec<i128> = Vec::new();
        let mut cost: i128 = 0;
        let mut j: usize = 0;
        while j < n
            invariant
                j <= n,
                n == sel@.len(),
                n == fracs@.len(),
                n <= SELECTED_MAX,
                k < limit,
                stocks == portfolio.Stocks@,
                holdings_ok(stocks),
                sel_ok(stocks, sel@),
                forall|t: int| 0 <= t < fracs@.len() ==> frac_ok(#[trigger] fracs@[t]),
                combo@.len() == n,
                forall|t: int|
                    0 <= t < n ==> (#[trigger] combo@[t]) == combo_bit(k as int, t, n as int),
                deltas@.len() == j,
                forall|t: int|
                    0 <= t < j ==> #[trigger] deltas@[t] == combo_delta(fracs@, k as int, t),
                cost == cost_prefix(stocks, sel@, fracs@, k as int, j as int),
                -(j as int) * TERM_MAX <= cost <= (j as int) * TERM_MAX,
            decreases n - j,
        {
            let f = &fracs[j];
            let d: i128 = if combo[j] {
                frac_ceil_exec(f.num, f.den)
            } else {
                frac_floor_exec(f.num, f.den)
            };
            let idx = sel[j];
            let s = &portfolio.Stocks[idx];
            assert(stock_ok(stocks[idx as int]));
            assert(-TERM_MAX <= d * (s.Price as int) <= TERM_MAX) by (nonlinear_arith)
                requires
                    -NUM_MAX <= d <= NUM_MAX,
                    0 <= s.Price <= 100_000_000,
                    NUM_MAX == 3_000_000_000_000_000_000_000_000_000,
                    TERM_MAX == 300_000_000_000_000_000_000_000_000_000_000_000,
            ;
            let term: i128 = d * (s.Price as i128);
            cost = cost + term;
            deltas.push(d);
            j = j + 1;
        }
        assert(cost == combo_cost(stocks, sel@, fracs@, k as int));

        if cost <= (reinvest as i128) {
            let replace = match &best {
                Option::None => true,
                Option::Some(b) => cost > b.0,
            };
            if replace {
                best = Some((cost, deltas));
                proof {
                    best_k = k as int;
                }
            }
        }
        k = k + 1;
    }
    match best {
        Option::None => Err(ReinvestError::Infeasible),
        Option::Some(b) => {
            proof {
                assert(is_chosen(stocks, sel@, fracs@, reinvest as int, best_k));
            }
            Ok(b)
        },
    }
}

} // verus!
