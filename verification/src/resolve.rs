//! Fractional target resolver: for each selected holding, the exact rational
//! number of additional units that reaches its target ratio of the goal
//! total, with the iterated exclusion of holdings that would be sold when
//! selling is disallowed.

use vstd::prelude::*;

use crate::frac::frac_ok;
use crate::frac::Frac;
use crate::model::cash_ok;
use crate::model::holdings_ok;
use crate::model::sel_ok;
use crate::model::size_ok;
use crate::model::stock_ok;
use crate::model::value_sum;
use crate::model::weight_sum;
use crate::model::Portfolio;
use crate::model::ReinvestError;
use crate::model::Stock;
use crate::model::DEN_MAX;
use crate::model::GOAL_MAX;
use crate::model::NUM_MAX;
use crate::model::WEIGHT_SUM_MAX;

verus! {

/// The selection `0, 1, ..., n - 1`: every holding of the portfolio.
pub open spec fn init_sel(n: nat) -> Seq<usize> {
    Seq::new(n, |i: int| i as usize)
}

/// Numerator of holding `i`'s fractional unit target, judged against the
/// selection `sel`: with `g` the goal total and `w` the ratio sum, the
/// target is `(ratio_i / w) * g / price_i - shares_i`, which as a fraction
/// over the denominator `w * price_i` has this numerator.
pub open spec fn frac_num_of(stocks: Seq<Stock>, sel: Seq<usize>, cash: int, i: usize) -> int {
    let g = value_sum(stocks, sel) + cash;
    stocks[i as int].GoalRatio * g - stocks[i as int].Shares * (weight_sum(stocks, sel)
        * stocks[i as int].Price)
}

/// Denominator of holding `i`'s fractional unit target against `sel`.
pub open spec fn frac_den_of(stocks: Seq<Stock>, sel: Seq<usize>, i: usize) -> int {
    weight_sum(stocks, sel) * stocks[i as int].Price
}

/// The holdings kept among the first `j` entries of `sel` after one
/// exclusion step: those whose fractional unit target, judged against the
/// whole of `sel`, is strictly positive.
pub open spec fn keep_prefix(stocks: Seq<Stock>, sel: Seq<usize>, cash: int, j: int) -> Seq<usize>
    decreases j,
{
    if j <= 0 {
        Seq::empty()
    } else {
        let prev = keep_prefix(stocks, sel, cash, j - 1);
        if frac_num_of(stocks, sel, cash, sel[j - 1]) > 0 {
            prev.push(sel[j - 1])
        } else {
            prev
        }
    }
}

/// One exclusion step: the sub-selection of `sel` whose fractional unit
/// targets are strictly positive.
pub open spec fn step_keep(stocks: Seq<Stock>, sel: Seq<usize>, cash: int) -> Seq<usize> {
    keep_prefix(stocks, sel, cash, sel.len() as int)
}

proof fn lemma_keep_prefix_len(stocks: Seq<Stock>, sel: Seq<usize>, cash: int, j: int)
    requires
        0 <= j,
    ensures
        keep_prefix(stocks, sel, cash, j).len() <= j,
    decreases j,
{
    if j > 0 {
        lemma_keep_prefix_len(stocks, sel, cash, j - 1);
    }
}

proof fn lemma_keep_prefix_subset(stocks: Seq<Stock>, sel: Seq<usize>, cash: int, j: int)
    requires
        0 <= j <= sel.len(),
    ensures
        forall|t: int|
            0 <= t < keep_prefix(stocks, sel, cash, j).len() ==> sel.contains(
                #[trigger] keep_prefix(stocks, sel, cash, j)[t],
            ),
    decreases j,
{
    if j > 0 {
        lemma_keep_prefix_subset(stocks, sel, cash, j - 1);
        let prev = keep_prefix(stocks, sel, cash, j - 1);
        let kp = keep_prefix(stocks, sel, cash, j);
        if frac_num_of(stocks, sel, cash, sel[j - 1]) > 0 {
            assert(sel.contains(sel[j - 1])) by {
                assert(0 <= j - 1 < sel.len() && sel[j - 1] == sel[j - 1]);
            }
            assert forall|t: int| 0 <= t < kp.len() implies sel.contains(kp[t]) by {
                if t < prev.len() {
                    assert(kp[t] == prev[t]);
                } else {
                    assert(kp[t] == sel[j - 1]);
                }
            }
        }
    }
}

/// One exclusion step never grows the selection, and keeps only holdings
/// that were already selected; with the bound below zero this makes the
/// iterated exclusion terminate.
pub proof fn lemma_monotone_exclusion(stocks: Seq<Stock>, sel: Seq<usize>, cash: int)
    ensures
        step_keep(stocks, sel, cash).len() <= sel.len(),
        forall|t: int|
            0 <= t < step_keep(stocks, sel, cash).len() ==> sel.contains(
                #[trigger] step_keep(stocks, sel, cash)[t],
            ),
{
    lemma_keep_prefix_len(stocks, sel, cash, sel.len() as int);
    lemma_keep_prefix_subset(stocks, sel, cash, sel.len() as int);
}

/// The fixed point of the exclusion step, starting from `sel`: repeat the
/// step until it keeps the selection unchanged.
pub open spec fn resolve_sel(stocks: Seq<Stock>, sel: Seq<usize>, cash: int) -> Seq<usize>
    decreases sel.len(),
    via resolve_sel_dec
{
    let kept = step_keep(stocks, sel, cash);
    if kept.len() == sel.len() {
        sel
    } else {
        resolve_sel(stocks, kept, cash)
    }
}

#[via_fn]
proof fn resolve_sel_dec(stocks: Seq<Stock>, sel: Seq<usize>, cash: int) {
    lemma_keep_prefix_len(stocks, sel, cash, sel.len() as int);
}

/// A sum of target ratios is never negative.
proof fn lemma_weight_sum_nonneg(stocks: Seq<Stock>, sel: Seq<usize>)
    ensures
        weight_sum(stocks, sel) >= 0,
    decreases sel.len(),
{
    if sel.len() > 0 {
        lemma_weight_sum_nonneg(stocks, sel.drop_last());
    }
}

/// If the ratio sum over a selection is zero, every selected ratio is zero.
proof fn lemma_weight_sum_zero(stocks: Seq<Stock>, sel: Seq<usize>, j: int)
    requires
        weight_sum(stocks, sel) == 0,
        0 <= j < sel.len(),
    ensures
        stocks[sel[j] as int].GoalRatio == 0,
    decreases sel.len(),
{
    lemma_weight_sum_nonneg(stocks, sel.drop_last());
    if j == sel.len() - 1 {
    } else {
        lemma_weight_sum_zero(stocks, sel.drop_last(), j);
    }
}

/// The selection the resolver ends with: with selling allowed, every
/// holding; with selling disallowed, the fixed point of the exclusion step.
pub open spec fn final_selection(stocks: Seq<Stock>, cash: int, no_selling: bool) -> Seq<usize> {
    if no_selling {
        resolve_sel(stocks, init_sel(stocks.len()), cash)
    } else {
        init_sel(stocks.len())
    }
}

/// The degenerate case: selling is allowed, the portfolio is not empty, and
/// every target ratio is zero, so the fractional targets are undefined.
pub open spec fn degenerate(stocks: Seq<Stock>, no_selling: bool) -> bool {
    &&& !no_selling
    &&& stocks.len() > 0
    &&& weight_sum(stocks, init_sel(stocks.len())) == 0
}

/// Everything the resolver promises of its result.
pub open spec fn resolver_post(
    stocks: Seq<Stock>,
    cash: int,
    no_selling: bool,
    r: Result<(Vec<usize>, Vec<Frac>), ReinvestError>,
) -> bool {
    match r {
        Result::Err(e) => e == ReinvestError::DegenerateRatios && degenerate(stocks, no_selling),
        Result::Ok((sel, fracs)) => {
            let fs = final_selection(stocks, cash, no_selling);
            &&& !degenerate(stocks, no_selling)
            &&& sel@ == fs
            &&& sel_ok(stocks, fs)
            &&& fs.len() <= stocks.len()
            &&& fracs@.len() == fs.len()
            &&& (forall|j: int|
                0 <= j < fs.len() ==> {
                    &&& (#[trigger] fracs@[j]).num == frac_num_of(stocks, fs, cash, fs[j])
                    &&& fracs@[j].den == frac_den_of(stocks, fs, fs[j])
                    &&& frac_ok(fracs@[j])
                })
            &&& (no_selling ==> forall|j: int| 0 <= j < fs.len() ==> (#[trigger] fracs@[j]).num > 0)
        },
    }
}

/// Computes the fractional-target numerator of one holding.
fn frac_num_exec(s: &Stock, g: i128, w: i128) -> (r: i128)
    requires
        stock_ok(*s),
        -GOAL_MAX <= g <= GOAL_MAX,
        0 <= w <= WEIGHT_SUM_MAX,
    ensures
        r == s.GoalRatio * g - s.Shares * (w * s.Price),
        -NUM_MAX <= r <= NUM_MAX,
{
    assert(-1_000_001_000_000_000_000_000_000_000 <= (s.GoalRatio as int) * g
        <= 1_000_001_000_000_000_000_000_000_000) by (nonlinear_arith)
        requires
            0 <= s.GoalRatio <= 1_000_000,
            -1_000_001_000_000_000_000_000 <= g <= 1_000_001_000_000_000_000_000,
    ;
    assert(0 <= w * (s.Price as int) <= 1_000_000_000_000_000_000) by (nonlinear_arith)
        requires
            0 <= w <= 10_000_000_000,
            0 <= s.Price <= 100_000_000,
    ;
    let wp: i128 = w * (s.Price as i128);
    assert(0 <= (s.Shares as int) * wp <= 1_000_000_000_000_000_000_000_000_000)
        by (nonlinear_arith)
        requires
            0 <= s.Shares <= 1_000_000_000,
            0 <= wp <= 1_000_000_000_000_000_000,
    ;
    (s.GoalRatio as i128) * g - (s.Shares as i128) * wp
}

/// Computes every selected holding's fractional-target numerator, judged
/// against the selection itself.
fn compute_nums(portfolio: &Portfolio, sel: &Vec<usize>, reinvest: i64) -> (r: Vec<i128>)
    requires
        holdings_ok(portfolio.Stocks@),
        sel_ok(portfolio.Stocks@, sel@),
        cash_ok(reinvest),
    ensures
        r@.len() == sel@.len(),
        forall|j: int|
            0 <= j < sel@.len() ==> #[trigger] r@[j] == frac_num_of(
                portfolio.Stocks@,
                sel@,
                reinvest as int,
                sel@[j],
            ) && -NUM_MAX <= r@[j] <= NUM_MAX,
{
    let ghost stocks = portfolio.Stocks@;
    let (cv, w) = crate::model::selection_sums(portfolio, sel);
    let g: i128 = cv + (reinvest as i128);
    let n = sel.len();
    let mut nums: Vec<i128> = Vec::new();
    let mut j: usize = 0;
    while j < n
        invariant
            j <= n,
            n == sel@.len(),
            stocks == portfolio.Stocks@,
            holdings_ok(stocks),
            sel_ok(stocks, sel@),
            -GOAL_MAX <= g <= GOAL_MAX,
            g == value_sum(stocks, sel@) + reinvest as int,
            0 <= w <= WEIGHT_SUM_MAX,
            w == weight_sum(stocks, sel@),
            nums@.len() == j,
            forall|t: int|
                0 <= t < j ==> #[trigger] nums@[t] == frac_num_of(
                    stocks,
                    sel@,
                    reinvest as int,
                    sel@[t],
                ) && -NUM_MAX <= nums@[t] <= NUM_MAX,
        decreases n - j,
    {
        let idx = sel[j];
        let s = &portfolio.Stocks[idx];
        assert(stock_ok(stocks[idx as int]));
        let num = frac_num_exec(s, g, w);
        nums.push(num);
        j = j + 1;
    }
    nums
}

/// Attaches the common denominator to the numerators of a selection whose
/// ratio sum is positive.
fn build_fracs(portfolio: &Portfolio, sel: &Vec<usize>, reinvest: i64) -> (r: Vec<Frac>)
    requires
        holdings_ok(portfolio.Stocks@),
        sel_ok(portfolio.Stocks@, sel@),
        cash_ok(reinvest),
        sel@.len() > 0 ==> weight_sum(portfolio.Stocks@, sel@) > 0,
    ensures
        r@.len() == sel@.len(),
        forall|j: int|
            0 <= j < sel@.len() ==> {
                &&& (#[trigger] r@[j]).num == frac_num_of(
                    portfolio.Stocks@,
                    sel@,
                    reinvest as int,
                    sel@[j],
                )
                &&& r@[j].den == frac_den_of(portfolio.Stocks@, sel@, sel@[j])
                &&& frac_ok(r@[j])
            },
{
    let ghost stocks = portfolio.Stocks@;
    let nums = compute_nums(portfolio, sel, reinvest);
    let (_, w) = crate::model::selection_sums(portfolio, sel);
    let n = sel.len();
    let mut fracs: Vec<Frac> = Vec::new();
    let mut j: usize = 0;
    while j < n
        invariant
            j <= n,
            n == sel@.len(),
            stocks == portfolio.Stocks@,
            holdings_ok(stocks),
            sel_ok(stocks, sel@),
            cash_ok(reinvest),
            0 <= w <= WEIGHT_SUM_MAX,
            w == weight_sum(stocks, sel@),
            n > 0 ==> w > 0,
            nums@.len() == n,
            forall|t: int|
                0 <= t < n ==> #[trigger] nums@[t] == frac_num_of(
                    stocks,
                    sel@,
                    reinvest as int,
                    sel@[t],
                ) && -NUM_MAX <= nums@[t] <= NUM_MAX,
            fracs@.len() == j,
            forall|t: int|
                0 <= t < j ==> {
                    &&& (#[trigger] fracs@[t]).num == frac_num_of(
                        stocks,
                        sel@,
                        reinvest as int,
                        sel@[t],
                    )
                    &&& fracs@[t].den == frac_den_of(stocks, sel@, sel@[t])
                    &&& frac_ok(fracs@[t])
                },
        decreases n - j,
    {
        let idx = sel[j];
        let s = &portfolio.Stocks[idx];
        assert(stock_ok(stocks[idx as int]));
        assert(1 <= w * (s.Price as int) <= 1_000_000_000_000_000_000) by (nonlinear_arith)
            requires
                1 <= w <= 10_000_000_000,
                1 <= s.Price <= 100_000_000,
        ;
        let den: i128 = w * (s.Price as i128);
        let num = nums[j];
        fracs.push(Frac { num, den });
        j = j + 1;
    }
    fracs
}

/// Resolves the fractional unit targets. With selling allowed this is one
/// pass over every holding; with selling disallowed, holdings whose target
/// is not a strict purchase are excluded and the targets recomputed until
/// the selection is stable.
pub fn get_fractional_reinvest_amounts(portfolio: &Portfolio, reinvest: i64, no_selling: bool) -> (r:
    Result<(Vec<usize>, Vec<Frac>), ReinvestError>)
    requires
        holdings_ok(portfolio.Stocks@),
        size_ok(portfolio.Stocks@),
        cash_ok(reinvest),
    ensures
        resolver_post(portfolio.Stocks@, reinvest as int, no_selling, r),
{
    let ghost stocks = portfolio.Stocks@;
    let n = portfolio.Stocks.len();
    let mut sel: Vec<usize> = Vec::new();
    let mut i: usize = 0;
    while i < n
        invariant
            i <= n,
            n == stocks.len(),
            sel@ == init_sel(i as nat),
        decreases n - i,
    {
        sel.push(i);
        proof {
            assert(sel@ =~= init_sel((i + 1) as nat));
        }
        i = i + 1;
    }
    assert(sel@ == init_sel(stocks.len()));
    assert(sel_ok(stocks, sel@));

    if !no_selling {
        let (_, w) = crate::model::selection_sums(portfolio, &sel);
        if w == 0 && n > 0 {
            return Err(ReinvestError::DegenerateRatios);
        }
        let fracs = build_fracs(portfolio, &sel, reinvest);
        return Ok((sel, fracs));
    }

    loop
        invariant
            stocks == portfolio.Stocks@,
            holdings_ok(stocks),
            size_ok(stocks),
            no_selling,
            cash_ok(reinvest),
            sel_ok(stocks, sel@),
            sel@.len() <= stocks.len(),
            resolve_sel(stocks, sel@, reinvest as int) == resolve_sel(
                stocks,
                init_sel(stocks.len()),
                reinvest as int,
            ),
        decreases sel@.len(),
    {
        let nums = compute_nums(portfolio, &sel, reinvest);
        let len = sel.len();
        let mut kept: Vec<usize> = Vec::new();
        let mut j: usize = 0;
        while j < len
            invariant
                j <= len,
                len == sel@.len(),
                stocks == portfolio.Stocks@,
                sel_ok(stocks, sel@),
                nums@.len() == len,
                forall|t: int|
                    0 <= t < len ==> #[trigger] nums@[t] == frac_num_of(
                        stocks,
                        sel@,
                        reinvest as int,
                        sel@[t],
                    ),
                kept@ == keep_prefix(stocks, sel@, reinvest as int, j as int),
                kept@.len() <= j,
                sel_ok(stocks, kept@),
                kept@.len() == j ==> kept@ =~= sel@.take(j as int),
                kept@.len() == j ==> forall|t: int| 0 <= t < j ==> #[trigger] nums@[t] > 0,
            decreases len - j,
        {
            if nums[j] > 0 {
                kept.push(sel[j]);
            }
            proof {
                if kept@.len() == j + 1 {
                    assert(kept@ =~= sel@.take(j as int + 1));
                }
            }
            j = j + 1;
        }
        assert(kept@ == step_keep(stocks, sel@, reinvest as int));

        if kept.len() == sel.len() {
            proof {
                assert(kept@ =~= sel@.take(len as int));
                assert(sel@.take(len as int) =~= sel@);
                assert(resolve_sel(stocks, sel@, reinvest as int) == sel@);
                // A stable non-empty selection has a positive ratio sum:
                // were it zero, every selected ratio would be zero and no
                // holding's target could be strictly positive.
                if sel@.len() > 0 && weight_sum(stocks, sel@) == 0 {
                    lemma_weight_sum_zero(stocks, sel@, 0);
                    assert(frac_num_of(stocks, sel@, reinvest as int, sel@[0])
                        == stocks[sel@[0] as int].GoalRatio * (value_sum(stocks, sel@)
                            + reinvest as int) - stocks[sel@[0] as int].Shares * (weight_sum(
                        stocks,
                        sel@,
                    ) * stocks[sel@[0] as int].Price));
                    assert(nums@[0] > 0);
                    assert(false);
                }
                lemma_weight_sum_nonneg(stocks, sel@);
                assert forall|t: int|
                    0 <= t < sel@.len() implies frac_num_of(
                    stocks,
                    sel@,
                    reinvest as int,
                    sel@[t],
                ) > 0 by {
                    assert(nums@[t] > 0);
                }
            }
            let fracs = build_fracs(portfolio, &sel, reinvest);
            return Ok((sel, fracs));
        }
        sel = kept;
    }
}

} // verus!
