//! Data model: holdings, the portfolio, error kinds, validity bounds, and the
//! value / target-weight sums that the allocation computation is built on.

use vstd::prelude::*;

verus! {

/// Largest accepted scaled per-unit price (for example, price in cents).
pub const PRICE_MAX: u64 = 100_000_000;

/// Largest accepted number of currently held units of one holding.
pub const SHARES_MAX: i32 = 1_000_000_000;

/// Largest accepted scaled target ratio (for example, parts per million).
pub const RATIO_MAX: u32 = 1_000_000;

/// Largest accepted magnitude of the cash amount to allocate.
pub const CASH_MAX: i64 = 1_000_000_000_000_000;

/// Largest accepted number of holdings in a portfolio.
pub const PORTFOLIO_MAX: usize = 10_000;

/// Largest holding count admitted to the exhaustive rounding search, which
/// enumerates two to the power of the holding count combinations.
pub const SELECTED_MAX: usize = 16;

/// `PORTFOLIO_MAX * PRICE_MAX * SHARES_MAX`: bound on the portfolio value.
pub const VALUE_MAX: i128 = 1_000_000_000_000_000_000_000;

/// `VALUE_MAX + CASH_MAX`: bound on the magnitude of the goal total.
pub const GOAL_MAX: i128 = 1_000_001_000_000_000_000_000;

/// `PORTFOLIO_MAX * RATIO_MAX`: bound on a sum of target ratios.
pub const WEIGHT_SUM_MAX: i128 = 10_000_000_000;

/// Bound on the numerator magnitude of a fractional unit target; it covers
/// `RATIO_MAX * GOAL_MAX + SHARES_MAX * WEIGHT_SUM_MAX * PRICE_MAX`.
pub const NUM_MAX: i128 = 3_000_000_000_000_000_000_000_000_000;

/// `WEIGHT_SUM_MAX * PRICE_MAX`: bound on the denominator of a fractional
/// unit target.
pub const DEN_MAX: i128 = 1_000_000_000_000_000_000;

/// `NUM_MAX * PRICE_MAX`: bound on the magnitude of one holding's cost
/// contribution in a rounding combination.
pub const TERM_MAX: i128 = 300_000_000_000_000_000_000_000_000_000_000_000;

/// One line item of a portfolio: an asset position with its identifier,
/// scaled per-unit price, currently held unit count, scaled target ratio,
/// and opaque display fields.
#[allow(non_snake_case)]
pub struct Stock {
    pub WKN: String,
    pub ISIN: String,
    pub Price: u64,
    pub Shares: i32,
    pub GoalRatio: u32,
    pub Symbol: String,
}

/// An ordered collection of holdings. Identifier uniqueness across holdings
/// is the loader's concern; the computation itself works by position.
#[allow(non_snake_case)]
pub struct Portfolio {
    pub Stocks: Vec<Stock>,
}

/// Terminal error kinds of the allocation computation.
#[derive(Clone, Copy, Debug, PartialEq, Eq, Structural)]
pub enum ReinvestError {
    /// No rounding combination fits within the cash budget.
    Infeasible,
    /// Every selected holding has target ratio zero, so the fractional
    /// targets are undefined.
    DegenerateRatios,
    /// A holding's price, held unit count or target ratio is outside the
    /// accepted range.
    InvalidHolding,
    /// The portfolio, or the holding subset entering the exhaustive rounding
    /// search, is too large.
    TooManyHoldings,
    /// The cash amount's magnitude is outside the accepted range.
    CashOutOfRange,
}

impl ReinvestError {
    /// A short human-readable description of the error.
    pub fn message(&self) -> (r: &'static str) {
        match self {
            ReinvestError::Infeasible => "no affordable rounding combination",
            ReinvestError::DegenerateRatios => "all selected holdings have target ratio zero",
            ReinvestError::InvalidHolding => "holding price, unit count or ratio out of range",
            ReinvestError::TooManyHoldings => "too many holdings",
            ReinvestError::CashOutOfRange => "cash amount out of range",
        }
    }
}

/// A holding's fields are within the accepted ranges.
pub open spec fn stock_ok(s: Stock) -> bool {
    &&& 1 <= s.Price <= PRICE_MAX
    &&& 0 <= s.Shares <= SHARES_MAX
    &&& s.GoalRatio <= RATIO_MAX
}

/// Every holding of the sequence is within the accepted ranges.
pub open spec fn holdings_ok(stocks: Seq<Stock>) -> bool {
    forall|i: int| 0 <= i < stocks.len() ==> stock_ok(#[trigger] stocks[i])
}

/// The portfolio is small enough for the computation's integer bounds.
pub open spec fn size_ok(stocks: Seq<Stock>) -> bool {
    stocks.len() <= PORTFOLIO_MAX
}

/// The cash amount's magnitude is within the accepted range.
pub open spec fn cash_ok(cash: i64) -> bool {
    -CASH_MAX <= cash <= CASH_MAX
}

/// `sel` is a selection: a list of in-range indices into `stocks`, no longer
/// than the portfolio bound.
pub open spec fn sel_ok(stocks: Seq<Stock>, sel: Seq<usize>) -> bool {
    &&& sel.len() <= PORTFOLIO_MAX
    &&& forall|j: int| 0 <= j < sel.len() ==> (#[trigger] sel[j]) < stocks.len()
}

/// Sum of `price * held units` over the selected holdings.
pub open spec fn value_sum(stocks: Seq<Stock>, sel: Seq<usize>) -> int
    decreases sel.len(),
{
    if sel.len() == 0 {
        0
    } else {
        value_sum(stocks, sel.drop_last()) + stocks[sel.last() as int].Price
            * stocks[sel.last() as int].Shares
    }
}

/// Sum of target ratios over the selected holdings.
pub open spec fn weight_sum(stocks: Seq<Stock>, sel: Seq<usize>) -> int
    decreases sel.len(),
{
    if sel.len() == 0 {
        0
    } else {
        weight_sum(stocks, sel.drop_last()) + stocks[sel.last() as int].GoalRatio
    }
}

/// Checks every holding of the portfolio against the accepted ranges.
pub fn holdings_all_ok(portfolio: &Portfolio) -> (r: bool)
    ensures
        r == holdings_ok(portfolio.Stocks@),
{
    let n = portfolio.Stocks.len();
    let mut i: usize = 0;
    while i < n
        invariant
            i <= n,
            n == portfolio.Stocks@.len(),
            forall|t: int| 0 <= t < i ==> stock_ok(#[trigger] portfolio.Stocks@[t]),
        decreases n - i,
    {
        let s = &portfolio.Stocks[i];
        if !(1 <= s.Price && s.Price <= PRICE_MAX && 0 <= s.Shares && s.Shares <= SHARES_MAX
            && s.GoalRatio <= RATIO_MAX) {
            return false;
        }
        i = i + 1;
    }
    true
}

/// Computes `(value_sum, weight_sum)` over a selection, with the bounds that
/// the validity limits force.
pub fn selection_sums(portfolio: &Portfolio, sel: &Vec<usize>) -> (r: (i128, i128))
    requires
        holdings_ok(portfolio.Stocks@),
        sel_ok(portfolio.Stocks@, sel@),
    ensures
        r.0 == value_sum(portfolio.Stocks@, sel@),
        0 <= r.0 <= VALUE_MAX,
        r.1 == weight_sum(portfolio.Stocks@, sel@),
        0 <= r.1 <= WEIGHT_SUM_MAX,
{
    let ghost stocks = portfolio.Stocks@;
    let n = sel.len();
    let mut vacc: i128 = 0;
    let mut wacc: i128 = 0;
    let mut j: usize = 0;
    while j < n
        invariant
            j <= n,
            n == sel@.len(),
            stocks == portfolio.Stocks@,
            holdings_ok(stocks),
            sel_ok(stocks, sel@),
            vacc == value_sum(stocks, sel@.take(j as int)),
            0 <= vacc <= (j as int) * 100_000_000_000_000_000,
            wacc == weight_sum(stocks, sel@.take(j as int)),
            0 <= wacc <= (j as int) * 1_000_000,
        decreases n - j,
    {
        let idx = sel[j];
        let s = &portfolio.Stocks[idx];
        assert(stock_ok(stocks[idx as int]));
        assert(0 <= (s.Price as int) * (s.Shares as int) <= 100_000_000_000_000_000)
            by (nonlinear_arith)
            requires
                1 <= s.Price <= 100_000_000,
                0 <= s.Shares <= 1_000_000_000,
        ;
        let v: i128 = (s.Price as i128) * (s.Shares as i128);
        proof {
            assert(sel@.take(j as int + 1).drop_last() =~= sel@.take(j as int));
            assert(sel@.take(j as int + 1).last() == sel@[j as int]);
        }
        vacc = vacc + v;
        wacc = wacc + (s.GoalRatio as i128);
        j = j + 1;
    }
    proof {
        assert(sel@.take(n as int) =~= sel@);
    }
    (vacc, wacc)
}

} // verus!
