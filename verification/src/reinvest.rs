//! The combined entry point: validate the inputs, resolve the fractional
//! unit targets, search the rounding combinations, and return the chosen
//! purchase plan with its total cost.

use vstd::arithmetic::power2::pow2;
use vstd::prelude::*;

use crate::frac::lemma_round_nonneg;
use crate::frac::Frac;
use crate::model::cash_ok;
use crate::model::holdings_ok;
use crate::model::size_ok;
use crate::model::Portfolio;
use crate::model::ReinvestError;
use crate::model::Stock;
use crate::model::CASH_MAX;
use crate::model::PORTFOLIO_MAX;
use crate::model::SELECTED_MAX;
use crate::resolve::degenerate;
use crate::resolve::final_selection;
use crate::resolve::frac_den_of;
use crate::resolve::frac_num_of;
use crate::resolve::get_fractional_reinvest_amounts;
use crate::search::combo_cost;
use crate::search::combo_delta;
use crate::search::feasible;
use crate::search::is_chosen;
use crate::search::lemma_chosen_unique;
use crate::search::search_optimal_rounding;

verus! {

/// The fractional unit targets of the final selection, as the resolver
/// computes them.
pub open spec fn final_fracs(stocks: Seq<Stock>, cash: int, no_selling: bool) -> Seq<Frac> {
    let fs = final_selection(stocks, cash, no_selling);
    Seq::new(
        fs.len(),
        |j: int|
            Frac {
                num: frac_num_of(stocks, fs, cash, fs[j]) as i128,
                den: frac_den_of(stocks, fs, fs[j]) as i128,
            },
    )
}

/// Everything the combined entry point promises of its result: each error
/// kind comes exactly on the inputs that trigger it, and a returned plan is
/// the first feasible rounding combination of maximal cost, listed in
/// selection order under the selected holdings' identifiers.
pub open spec fn reinvest_post(
    stocks: Seq<Stock>,
    cash: i64,
    no_selling: bool,
    r: Result<(i128, Vec<(String, i128)>), ReinvestError>,
) -> bool {
    let fs = final_selection(stocks, cash as int, no_selling);
    let fr = final_fracs(stocks, cash as int, no_selling);
    let inputs_ok = holdings_ok(stocks) && size_ok(stocks) && cash_ok(cash);
    match r {
        Result::Err(e) => {
            ||| (e == ReinvestError::InvalidHolding && !holdings_ok(stocks))
            ||| (e == ReinvestError::TooManyHoldings && holdings_ok(stocks) && (!size_ok(stocks)
                || (cash_ok(cash) && !degenerate(stocks, no_selling) && fs.len() > SELECTED_MAX)))
            ||| (e == ReinvestError::CashOutOfRange && holdings_ok(stocks) && size_ok(stocks)
                && !cash_ok(cash))
            ||| (e == ReinvestError::DegenerateRatios && inputs_ok && degenerate(
                stocks,
                no_selling,
            ))
            ||| (e == ReinvestError::Infeasible && inputs_ok && !degenerate(stocks, no_selling)
                && fs.len() <= SELECTED_MAX && (forall|k: int|
                0 <= k < pow2(fr.len()) ==> !#[trigger] feasible(stocks, fs, fr, cash as int, k)))
        },
        Result::Ok((spent, entries)) => {
            &&& inputs_ok
            &&& !degenerate(stocks, no_selling)
            &&& fs.len() <= SELECTED_MAX
            &&& spent <= cash
            &&& entries@.len() == fs.len()
            &&& (forall|j: int|
                0 <= j < fs.len() ==> (#[trigger] entries@[j]).0@ == stocks[fs[j] as int].WKN@)
            &&& (exists|k: int|
                {
                    &&& #[trigger] is_chosen(stocks, fs, fr, cash as int, k)
                    &&& spent == combo_cost(stocks, fs, fr, k)
                    &&& (forall|j: int|
                        0 <= j < fs.len() ==> (#[trigger] entries@[j]).1 == combo_delta(fr, k, j))
                })
        },
    }
}

/// Two results agree: the same error, or the same total cost and the same
/// plan entries (identifiers compared as character sequences).
pub open spec fn reinvest_equiv(
    r1: Result<(i128, Vec<(String, i128)>), ReinvestError>,
    r2: Result<(i128, Vec<(String, i128)>), ReinvestError>,
) -> bool {
    match (r1, r2) {
        (Result::Err(e1), Result::Err(e2)) => e1 == e2,
        (Result::Ok(p1), Result::Ok(p2)) => {
            &&& p1.0 == p2.0
            &&& p1.1@.len() == p2.1@.len()
            &&& (forall|j: int|
                0 <= j < p1.1@.len() ==> (#[trigger] p1.1@[j]).0@ == p2.1@[j].0@ && p1.1@[j].1
                    == p2.1@[j].1)
        },
        _ => false,
    }
}

/// Idempotence: the computation is a function of its inputs, so any two
/// results that satisfy its contract for the same portfolio, cash amount
/// and selling flag agree.
pub proof fn lemma_reinvest_idempotent(
    stocks: Seq<Stock>,
    cash: i64,
    no_selling: bool,
    r1: Result<(i128, Vec<(String, i128)>), ReinvestError>,
    r2: Result<(i128, Vec<(String, i128)>), ReinvestError>,
)
    requires
        reinvest_post(stocks, cash, no_selling, r1),
        reinvest_post(stocks, cash, no_selling, r2),
    ensures
        reinvest_equiv(r1, r2),
{
    let fs = final_selection(stocks, cash as int, no_selling);
    let fr = final_fracs(stocks, cash as int, no_selling);
    match (r1, r2) {
        (Result::Ok(p1), Result::Ok(p2)) => {
            let k1 = choose|k: int|
                {
                    &&& #[trigger] is_chosen(stocks, fs, fr, cash as int, k)
                    &&& p1.0 == combo_cost(stocks, fs, fr, k)
                    &&& (forall|j: int|
                        0 <= j < fs.len() ==> (#[trigger] p1.1@[j]).1 == combo_delta(fr, k, j))
                };
            let k2 = choose|k: int|
                {
                    &&& #[trigger] is_chosen(stocks, fs, fr, cash as int, k)
                    &&& p2.0 == combo_cost(stocks, fs, fr, k)
                    &&& (forall|j: int|
                        0 <= j < fs.len() ==> (#[trigger] p2.1@[j]).1 == combo_delta(fr, k, j))
                };
            lemma_chosen_unique(stocks, fs, fr, cash as int, k1, k2);
        },
        (Result::Ok(p1), Result::Err(e2)) => {
            let k1 = choose|k: int| #[trigger] is_chosen(stocks, fs, fr, cash as int, k);
            assert(feasible(stocks, fs, fr, cash as int, k1));
        },
        (Result::Err(e1), Result::Ok(p2)) => {
            let k2 = choose|k: int| #[trigger] is_chosen(stocks, fs, fr, cash as int, k);
            assert(feasible(stocks, fs, fr, cash as int, k2));
        },
        (Result::Err(e1), Result::Err(e2)) => {
        },
    }
}

/// Computes the optimal whole-unit purchase plan for reinvesting the cash
/// amount: the plan maps each selected holding's identifier to its unit
/// delta, and no feasible rounding combination spends more.
pub fn calculate_optimal_reinvest(portfolio: &Portfolio, reinvest_amount: i64, no_selling: bool)
    -> (r: Result<(i128, Vec<(String, i128)>), ReinvestError>)
    ensures
        reinvest_post(portfolio.Stocks@, reinvest_amount, no_selling, r),
        r matches Ok(p) ==> p.0 <= reinvest_amount,
        no_selling ==> (r matches Ok(p) ==> forall|j: int|
            0 <= j < p.1@.len() ==> (#[trigger] p.1@[j]).1 >= 0),
{
    let ghost stocks = portfolio.Stocks@;
    if !crate::model::holdings_all_ok(portfolio) {
        return Err(ReinvestError::InvalidHolding);
    }
    if portfolio.Stocks.len() > PORTFOLIO_MAX {
        return Err(ReinvestError::TooManyHoldings);
    }
    if reinvest_amount < -CASH_MAX || reinvest_amount > CASH_MAX {
        return Err(ReinvestError::CashOutOfRange);
    }

    let resolved = get_fractional_reinvest_amounts(portfolio, reinvest_amount, no_selling);
    let (sel, fracs) = match resolved {
        Ok(v) => v,
        Err(e) => {
            return Err(e);
        },
    };
    let ghost fs = final_selection(stocks, reinvest_amount as int, no_selling);
    let ghost fr = final_fracs(stocks, reinvest_amount as int, no_selling);
    proof {
        assert(fracs@ =~= fr);
    }

    let searched = search_optimal_rounding(portfolio, &sel, &fracs, reinvest_amount);
    let (spent, deltas) = match searched {
        Ok(v) => v,
        Err(e) => {
            return Err(e);
        },
    };

    let n = sel.len();
    let mut entries: Vec<(String, i128)> = Vec::new();
    let mut j: usize = 0;
    while j < n
        invariant
            j <= n,
            n == sel@.len(),
            stocks == portfolio.Stocks@,
            sel@ == fs,
            crate::model::sel_ok(stocks, sel@),
            deltas@.len() == n,
            entries@.len() == j,
            forall|t: int|
                0 <= t < j ==> (#[trigger] entries@[t]).0@ == stocks[sel@[t] as int].WKN@
                    && entries@[t].1 == deltas@[t],
        decreases n - j,
    {
        let idx = sel[j];
        let wkn = portfolio.Stocks[idx].WKN.clone();
        entries.push((wkn, deltas[j]));
        j = j + 1;
    }

    proof {
        if no_selling {
            assert forall|t: int| 0 <= t < entries@.len() implies (#[trigger] entries@[t]).1
                >= 0 by {
                let k = choose|k: int|
                    {
                        &&& #[trigger] is_chosen(stocks, fs, fr, reinvest_amount as int, k)
                        &&& spent == combo_cost(stocks, fs, fr, k)
                        &&& (forall|j: int|
                            0 <= j < fr.len() ==> #[trigger] deltas@[j] == combo_delta(fr, k, j))
                    };
                assert(fr[t].num > 0 && fr[t].den > 0);
                lemma_round_nonneg(fr[t].num as int, fr[t].den as int);
                assert(entries@[t].1 == combo_delta(fr, k, t));
            }
        }
    }

    Ok((spent, entries))
}

} // verus!
