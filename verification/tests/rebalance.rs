use rebalancing::calculate_optimal_reinvest;
use rebalancing::frac::frac_ceil_exec;
use rebalancing::frac::frac_floor_exec;
use rebalancing::get_fractional_reinvest_amounts;
use rebalancing::get_rounding_combinations;
use rebalancing::search_optimal_rounding;
use rebalancing::Portfolio;
use rebalancing::ReinvestError;
use rebalancing::Stock;

fn stock(wkn: &str, price: u64, shares: i32, ratio: u32) -> Stock {
    Stock {
        WKN: wkn.to_string(),
        ISIN: format!("ISIN-{wkn}"),
        Price: price,
        Shares: shares,
        GoalRatio: ratio,
        Symbol: format!("SYM-{wkn}"),
    }
}

fn delta_of(entries: &Vec<(String, i128)>, wkn: &str) -> Option<i128> {
    for (k, v) in entries.iter() {
        if k == wkn {
            return Some(*v);
        }
    }
    None
}

#[test]
fn two_holdings_even_split() {
    // Prices 100 and 50, equal target ratios, nothing held, cash 1000:
    // the ideal deltas are exactly 5 and 10 units, spending the full 1000.
    let portfolio = Portfolio {
        Stocks: vec![stock("A", 100, 0, 500_000), stock("B", 50, 0, 500_000)],
    };
    let (spent, entries) = calculate_optimal_reinvest(&portfolio, 1000, false).unwrap();
    assert_eq!(spent, 1000);
    assert_eq!(entries.len(), 2);
    assert_eq!(delta_of(&entries, "A"), Some(5));
    assert_eq!(delta_of(&entries, "B"), Some(10));
}

#[test]
fn zero_ratio_holding_excluded_when_no_selling() {
    // One holding with target ratio 0 and positive cash, selling disallowed:
    // the holding is excluded, the selection becomes empty, and the search
    // over zero holdings returns a zero-spend plan.
    let portfolio = Portfolio {
        Stocks: vec![stock("A", 100, 3, 0)],
    };
    let (spent, entries) = calculate_optimal_reinvest(&portfolio, 500, true).unwrap();
    assert_eq!(spent, 0);
    assert!(entries.is_empty());
}

#[test]
fn negative_target_excluded_and_reconverges() {
    // Holding A is heavily over-weighted, so its fractional target is a
    // sale; with selling disallowed it is excluded and the resolver
    // re-converges on the strictly smaller subset containing only B.
    let portfolio = Portfolio {
        Stocks: vec![stock("A", 100, 100, 500_000), stock("B", 50, 0, 500_000)],
    };
    let (sel, fracs) = get_fractional_reinvest_amounts(&portfolio, 100, true).unwrap();
    assert_eq!(sel, vec![1usize]);
    assert_eq!(fracs.len(), 1);
    // B's fractional target over only itself: (1 * 100) / (500000 * 50),
    // scaled by the ratio sum: exactly 2 units.
    assert_eq!(fracs[0].num % fracs[0].den, 0);
    assert_eq!(fracs[0].num / fracs[0].den, 2);

    let (spent, entries) = calculate_optimal_reinvest(&portfolio, 100, true).unwrap();
    assert_eq!(spent, 100);
    assert_eq!(entries.len(), 1);
    assert_eq!(delta_of(&entries, "B"), Some(2));
    assert_eq!(delta_of(&entries, "A"), None);
}

#[test]
fn cash_below_cheapest_price_gives_zero_plan() {
    // Cash smaller than the single holding's price: the floor rounding of
    // its ideal delta is zero, so a zero-purchase plan is returned.
    let portfolio = Portfolio {
        Stocks: vec![stock("A", 100, 0, 1_000_000)],
    };
    let (spent, entries) = calculate_optimal_reinvest(&portfolio, 50, false).unwrap();
    assert_eq!(spent, 0);
    assert_eq!(entries.len(), 1);
    assert_eq!(delta_of(&entries, "A"), Some(0));
}

#[test]
fn negative_cash_is_infeasible_when_no_selling() {
    // With negative cash and selling disallowed every holding is excluded,
    // and the empty combination's cost of zero still exceeds the cash.
    let portfolio = Portfolio {
        Stocks: vec![stock("A", 100, 1, 1_000_000)],
    };
    let r = calculate_optimal_reinvest(&portfolio, -10, true);
    assert_eq!(r.unwrap_err(), ReinvestError::Infeasible);
}

#[test]
fn picks_maximal_affordable_combination() {
    // Ideal deltas are 5/3 and 5/7 units; of the four rounding choices the
    // costs are 3, 10, 6 and 13, so the best affordable spend is 10.
    let portfolio = Portfolio {
        Stocks: vec![stock("A", 3, 0, 500_000), stock("B", 7, 0, 500_000)],
    };
    let (spent, entries) = calculate_optimal_reinvest(&portfolio, 10, false).unwrap();
    assert_eq!(spent, 10);
    assert_eq!(delta_of(&entries, "A"), Some(1));
    assert_eq!(delta_of(&entries, "B"), Some(1));
}

#[test]
fn fractional_targets_are_exact_rationals() {
    // With ratio sum 1_000_000 and goal total 10, holding A's ideal delta
    // is (500_000 * 10) / (1_000_000 * 3) = 5/3 and B's is 5/7, held as
    // exact fractions rather than rounded reals.
    let portfolio = Portfolio {
        Stocks: vec![stock("A", 3, 0, 500_000), stock("B", 7, 0, 500_000)],
    };
    let (sel, fracs) = get_fractional_reinvest_amounts(&portfolio, 10, false).unwrap();
    assert_eq!(sel, vec![0usize, 1usize]);
    assert_eq!(fracs[0].num, 5_000_000);
    assert_eq!(fracs[0].den, 3_000_000);
    assert_eq!(fracs[1].num, 5_000_000);
    assert_eq!(fracs[1].den, 7_000_000);
}

#[test]
fn tie_breaks_on_first_enumerated_combination() {
    // Both single-unit purchases cost 10; rounding combinations are
    // enumerated in ascending bit-pattern order with the most significant
    // bit on the first holding, so "round only B up" comes first.
    let portfolio = Portfolio {
        Stocks: vec![stock("A", 10, 0, 500_000), stock("B", 10, 0, 500_000)],
    };
    let (spent, entries) = calculate_optimal_reinvest(&portfolio, 10, false).unwrap();
    assert_eq!(spent, 10);
    assert_eq!(delta_of(&entries, "A"), Some(0));
    assert_eq!(delta_of(&entries, "B"), Some(1));
}

#[test]
fn no_selling_plan_has_no_negative_delta() {
    let portfolio = Portfolio {
        Stocks: vec![
            stock("A", 100, 100, 400_000),
            stock("B", 50, 0, 300_000),
            stock("C", 30, 2, 300_000),
        ],
    };
    let (spent, entries) = calculate_optimal_reinvest(&portfolio, 500, true).unwrap();
    assert!(spent <= 500);
    for (_, d) in entries.iter() {
        assert!(*d >= 0);
    }
}

#[test]
fn identical_inputs_give_identical_output() {
    let portfolio = Portfolio {
        Stocks: vec![
            stock("A", 137, 4, 350_000),
            stock("B", 59, 11, 250_000),
            stock("C", 211, 0, 400_000),
        ],
    };
    let r1 = calculate_optimal_reinvest(&portfolio, 12_345, true).unwrap();
    let r2 = calculate_optimal_reinvest(&portfolio, 12_345, true).unwrap();
    assert_eq!(r1.0, r2.0);
    assert_eq!(r1.1, r2.1);
    let r3 = calculate_optimal_reinvest(&portfolio, 12_345, false).unwrap();
    let r4 = calculate_optimal_reinvest(&portfolio, 12_345, false).unwrap();
    assert_eq!(r3.0, r4.0);
    assert_eq!(r3.1, r4.1);
}

#[test]
fn invalid_holding_is_rejected() {
    // A zero price is out of range.
    let portfolio = Portfolio {
        Stocks: vec![stock("A", 0, 0, 500_000)],
    };
    let r = calculate_optimal_reinvest(&portfolio, 100, false);
    assert_eq!(r.unwrap_err(), ReinvestError::InvalidHolding);
    // Negative held units are out of range.
    let portfolio = Portfolio {
        Stocks: vec![stock("A", 10, -1, 500_000)],
    };
    let r = calculate_optimal_reinvest(&portfolio, 100, false);
    assert_eq!(r.unwrap_err(), ReinvestError::InvalidHolding);
}

#[test]
fn all_zero_ratios_are_degenerate_when_selling_allowed() {
    let portfolio = Portfolio {
        Stocks: vec![stock("A", 100, 1, 0), stock("B", 50, 2, 0)],
    };
    let r = calculate_optimal_reinvest(&portfolio, 100, false);
    assert_eq!(r.unwrap_err(), ReinvestError::DegenerateRatios);
}

#[test]
fn cash_out_of_range_is_rejected() {
    let portfolio = Portfolio {
        Stocks: vec![stock("A", 100, 0, 500_000)],
    };
    let r = calculate_optimal_reinvest(&portfolio, 1_000_000_000_000_001, false);
    assert_eq!(r.unwrap_err(), ReinvestError::CashOutOfRange);
}

#[test]
fn too_many_holdings_for_the_search() {
    // Seventeen holdings survive the resolver, one more than the search's
    // exhaustive-enumeration bound.
    let mut stocks = Vec::new();
    for i in 0..17 {
        stocks.push(stock(&format!("S{i}"), 10, 0, 10_000));
    }
    let portfolio = Portfolio { Stocks: stocks };
    let r = calculate_optimal_reinvest(&portfolio, 1000, false);
    assert_eq!(r.unwrap_err(), ReinvestError::TooManyHoldings);
}

#[test]
fn empty_portfolio_gives_zero_plan() {
    let portfolio = Portfolio { Stocks: Vec::new() };
    let (spent, entries) = calculate_optimal_reinvest(&portfolio, 100, false).unwrap();
    assert_eq!(spent, 0);
    assert!(entries.is_empty());
}

#[test]
fn rounding_combinations_are_binary_numerals() {
    let combos = get_rounding_combinations(3);
    assert_eq!(combos.len(), 8);
    for c in combos.iter() {
        assert_eq!(c.len(), 3);
    }
    assert_eq!(combos[0], vec![false, false, false]);
    assert_eq!(combos[1], vec![false, false, true]);
    assert_eq!(combos[5], vec![true, false, true]);
    assert_eq!(combos[7], vec![true, true, true]);
    let empty = get_rounding_combinations(0);
    assert_eq!(empty.len(), 1);
    assert!(empty[0].is_empty());
}

#[test]
fn exact_floor_and_ceiling_of_fractions() {
    assert_eq!(frac_floor_exec(7, 2), 3);
    assert_eq!(frac_ceil_exec(7, 2), 4);
    assert_eq!(frac_floor_exec(-7, 2), -4);
    assert_eq!(frac_ceil_exec(-7, 2), -3);
    assert_eq!(frac_floor_exec(-6, 3), -2);
    assert_eq!(frac_ceil_exec(-6, 3), -2);
    assert_eq!(frac_floor_exec(0, 5), 0);
    assert_eq!(frac_ceil_exec(0, 5), 0);
}

#[test]
fn search_reports_infeasible_directly() {
    // Calling the search stage with an empty selection and negative cash:
    // the single empty combination costs 0, which exceeds the cash.
    let portfolio = Portfolio { Stocks: Vec::new() };
    let sel: Vec<usize> = Vec::new();
    let fracs: Vec<rebalancing::Frac> = Vec::new();
    let r = search_optimal_rounding(&portfolio, &sel, &fracs, -1);
    assert_eq!(r.unwrap_err(), ReinvestError::Infeasible);
}

#[test]
fn error_messages_are_stable() {
    assert_eq!(
        ReinvestError::Infeasible.message(),
        "no affordable rounding combination"
    );
    assert_eq!(
        ReinvestError::DegenerateRatios.message(),
        "all selected holdings have target ratio zero"
    );
}
