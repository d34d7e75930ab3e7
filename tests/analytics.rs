use rust_decimal::Decimal;
use trading_journal::amount::Amount;
use trading_journal::analytics::{profit_factor, AnalyticsService, Ratio};
use trading_journal::error::AppError;
use trading_journal::trade::Trade;

fn amount(mantissa: i128, scale: u32) -> Amount {
    Amount::new(mantissa, scale).unwrap()
}

fn value(a: Amount) -> Decimal {
    Decimal::from_i128_with_scale(a.mantissa, a.scale)
}

fn dec(s: &str) -> Decimal {
    s.parse().unwrap()
}

fn trade(symbol: &str, pnl: Option<Amount>, setup: Option<&str>, mistakes: &[&str]) -> Trade {
    Trade {
        id: 1,
        user_id: 7,
        symbol: symbol.to_string(),
        direction: "long".to_string(),
        entry_price: amount(100, 0),
        exit_price: pnl.map(|_| amount(110, 0)),
        quantity: amount(1, 0),
        entry_time: 0,
        exit_time: None,
        pnl,
        pnl_percentage: None,
        fees: amount(0, 0),
        notes: None,
        tags: vec![],
        setup_type: setup.map(|s| s.to_string()),
        mistakes: mistakes.iter().map(|m| m.to_string()).collect(),
        emotions: vec![],
        screenshots: vec![],
        broker: None,
        account_id: None,
        status: "closed".to_string(),
        created_at: 0,
        updated_at: 0,
    }
}

fn with_pnl(values: &[i128]) -> Vec<Trade> {
    values.iter().map(|v| trade("AAPL", Some(amount(*v, 0)), None, &[])).collect()
}

#[test]
fn overview_of_no_trades_is_all_zero() {
    let a = AnalyticsService::calculate_overview(&[]).unwrap();
    assert_eq!(a.total_trades, 0);
    assert_eq!(a.winning_trades, 0);
    assert_eq!(a.losing_trades, 0);
    assert_eq!(a.win_rate, Ratio { part: 0, whole: 0 });
    for x in [a.total_pnl, a.average_win, a.average_loss, a.largest_win, a.largest_loss, a.profit_factor, a.risk_reward_ratio] {
        assert_eq!(value(x), Decimal::ZERO);
    }
    assert_eq!(a.current_streak, 0);
    assert_eq!(a.longest_win_streak, 0);
    assert_eq!(a.longest_loss_streak, 0);
}

#[test]
fn overview_of_one_win_and_one_loss() {
    let a = AnalyticsService::calculate_overview(&with_pnl(&[100, -50])).unwrap();
    assert_eq!(value(a.total_pnl), dec("50"));
    assert_eq!(a.winning_trades, 1);
    assert_eq!(a.losing_trades, 1);
    assert_eq!(a.win_rate, Ratio { part: 1, whole: 2 });
    assert_eq!(a.win_rate.part as f64 / a.win_rate.whole as f64 * 100.0, 50.0);
    assert_eq!(value(a.profit_factor), dec("2"));
    assert_eq!(value(a.average_win), dec("100"));
    assert_eq!(value(a.average_loss), dec("50"));
    assert_eq!(value(a.risk_reward_ratio), dec("2"));
    assert_eq!(value(a.largest_win), dec("100"));
    assert_eq!(value(a.largest_loss), dec("-50"));
}

#[test]
fn streaks_follow_input_order() {
    let a = AnalyticsService::calculate_overview(&with_pnl(&[10, 20, -5])).unwrap();
    assert_eq!(a.longest_win_streak, 2);
    assert_eq!(a.longest_loss_streak, 1);
    assert_eq!(a.current_streak, -1);
}

#[test]
fn current_streak_counts_running_wins() {
    let a = AnalyticsService::calculate_overview(&with_pnl(&[-3, -4, 5, 6, 7])).unwrap();
    assert_eq!(a.current_streak, 3);
    assert_eq!(a.longest_loss_streak, 2);
    assert_eq!(a.longest_win_streak, 3);
}

#[test]
fn flat_and_open_trades_do_not_touch_streaks() {
    let mut trades = with_pnl(&[-5, 0]);
    trades.push(trade("AAPL", None, None, &[]));
    let a = AnalyticsService::calculate_overview(&trades).unwrap();
    assert_eq!(a.current_streak, -1);
    assert_eq!(a.total_trades, 3);
    assert_eq!(a.winning_trades + a.losing_trades, 1);
}

#[test]
fn classified_trades_never_outnumber_the_total() {
    let mut trades = with_pnl(&[3, 0, -2, 0]);
    trades.push(trade("MSFT", None, None, &[]));
    let a = AnalyticsService::calculate_overview(&trades).unwrap();
    assert_eq!(a.total_trades, 5);
    assert_eq!(a.winning_trades, 1);
    assert_eq!(a.losing_trades, 1);
    assert!(a.winning_trades + a.losing_trades <= a.total_trades);
    let all = AnalyticsService::calculate_overview(&with_pnl(&[3, -1, 4])).unwrap();
    assert_eq!(all.winning_trades + all.losing_trades, all.total_trades);
}

#[test]
fn win_rate_stays_within_bounds() {
    let a = AnalyticsService::calculate_overview(&with_pnl(&[1, 2, 3])).unwrap();
    assert_eq!(a.win_rate, Ratio { part: 3, whole: 3 });
    let b = AnalyticsService::calculate_overview(&with_pnl(&[-1, 0])).unwrap();
    assert_eq!(b.win_rate, Ratio { part: 0, whole: 2 });
}

#[test]
fn profit_factor_without_losses_is_sentinel() {
    let a = AnalyticsService::calculate_overview(&with_pnl(&[5, 7])).unwrap();
    assert_eq!(value(a.profit_factor), dec("999.99"));
    assert_eq!(value(a.risk_reward_ratio), Decimal::ZERO);
    let pf = profit_factor(&amount(12, 0), &amount(0, 0)).unwrap();
    assert_eq!(value(pf), dec("999.99"));
}

#[test]
fn profit_factor_without_wins_or_losses_is_zero() {
    let a = AnalyticsService::calculate_overview(&with_pnl(&[0, 0])).unwrap();
    assert_eq!(value(a.profit_factor), Decimal::ZERO);
    let pf = profit_factor(&amount(0, 0), &amount(0, 0)).unwrap();
    assert_eq!(value(pf), Decimal::ZERO);
}

#[test]
fn profit_factor_is_wins_over_losses() {
    let pf = profit_factor(&amount(300, 0), &amount(120, 0)).unwrap();
    assert_eq!(value(pf), dec("2.5"));
}

#[test]
fn sums_and_extremes_across_scales() {
    let trades = vec![
        trade("A", Some(amount(15, 1)), None, &[]),
        trade("A", Some(amount(225, 2)), None, &[]),
        trade("A", Some(amount(-1, 0)), None, &[]),
        trade("A", Some(amount(-125, 2)), None, &[]),
    ];
    let a = AnalyticsService::calculate_overview(&trades).unwrap();
    assert_eq!(value(a.total_pnl), dec("1.5"));
    assert_eq!(value(a.largest_win), dec("2.25"));
    assert_eq!(value(a.largest_loss), dec("-1.25"));
    assert_eq!(value(a.average_win), dec("1.875"));
    assert_eq!(value(a.average_loss), dec("1.125"));
    assert_eq!(value(a.profit_factor), dec("1.6666666666666666666666666667"));
}

#[test]
fn overflowing_sum_is_an_internal_error() {
    let max = Amount::new(0xFFFF_FFFF_FFFF_FFFF_FFFF_FFFF, 0).unwrap();
    let trades = vec![trade("A", Some(max), None, &[]), trade("A", Some(max), None, &[])];
    let r = AnalyticsService::calculate_overview(&trades);
    assert!(matches!(r, Err(AppError::InternalServerError(ref m)) if m == "arithmetic overflow"));
}

#[test]
fn symbol_groups_partition_the_trades() {
    let trades = vec![
        trade("AAPL", Some(amount(10, 0)), None, &[]),
        trade("MSFT", Some(amount(-4, 0)), None, &[]),
        trade("AAPL", Some(amount(-2, 0)), None, &[]),
        trade("TSLA", None, None, &[]),
        trade("AAPL", Some(amount(6, 0)), None, &[]),
    ];
    let groups = AnalyticsService::calculate_by_symbol(&trades).unwrap();
    let total: usize = groups.iter().map(|g| g.total_trades).sum();
    assert_eq!(total, trades.len());
    assert_eq!(groups.len(), 3);
    assert_eq!(groups[0].symbol, "AAPL");
    assert_eq!(groups[0].total_trades, 3);
    assert_eq!(groups[0].winning_trades, 2);
    assert_eq!(groups[0].win_rate, Ratio { part: 2, whole: 3 });
    assert_eq!(value(groups[0].total_pnl), dec("14"));
    assert_eq!(value(groups[0].average_pnl), dec("14") / dec("3"));
    assert_eq!(groups[1].symbol, "MSFT");
    assert_eq!(groups[2].symbol, "TSLA");
    assert_eq!(value(groups[2].total_pnl), Decimal::ZERO);
}

#[test]
fn equal_win_rates_keep_first_appearance_order() {
    let trades = vec![
        trade("ZZZ", Some(amount(1, 0)), None, &[]),
        trade("AAA", Some(amount(1, 0)), None, &[]),
        trade("MMM", Some(amount(-1, 0)), None, &[]),
        trade("BBB", Some(amount(2, 0)), None, &[]),
        trade("BBB", Some(amount(-2, 0)), None, &[]),
    ];
    let groups = AnalyticsService::calculate_by_symbol(&trades).unwrap();
    let order: Vec<&str> = groups.iter().map(|g| g.symbol.as_str()).collect();
    assert_eq!(order, vec!["ZZZ", "AAA", "BBB", "MMM"]);
}

#[test]
fn setup_groups_cover_labelled_trades_only() {
    let trades = vec![
        trade("A", Some(amount(5, 0)), Some("breakout"), &[]),
        trade("B", Some(amount(-5, 0)), None, &[]),
        trade("C", Some(amount(-1, 0)), Some("pullback"), &[]),
        trade("D", Some(amount(3, 0)), Some("breakout"), &[]),
    ];
    let groups = AnalyticsService::calculate_by_setup(&trades).unwrap();
    let total: usize = groups.iter().map(|g| g.total_trades).sum();
    assert_eq!(total, 3);
    assert_eq!(groups[0].setup_type, "breakout");
    assert_eq!(groups[0].total_trades, 2);
    assert_eq!(value(groups[0].average_pnl), dec("4"));
    assert_eq!(groups[1].setup_type, "pullback");
    assert_eq!(groups[1].win_rate, Ratio { part: 0, whole: 1 });
}

#[test]
fn one_trade_with_two_mistakes_fills_two_buckets() {
    let trades = vec![trade("A", Some(amount(-40, 0)), None, &["fomo", "oversized"])];
    let buckets = AnalyticsService::analyze_mistakes(&trades).unwrap();
    assert_eq!(buckets.len(), 2);
    for b in &buckets {
        assert_eq!(b.count, 1);
        assert_eq!(value(b.average_pnl), dec("-40"));
        assert_eq!(value(b.total_pnl), dec("-40"));
    }
    assert_eq!(buckets[0].mistake, "fomo");
    assert_eq!(buckets[1].mistake, "oversized");
}

#[test]
fn mistake_occurrences_bound_tagged_trades() {
    let trades = vec![
        trade("A", Some(amount(-10, 0)), None, &["late"]),
        trade("B", Some(amount(20, 0)), None, &["late", "fomo"]),
        trade("C", Some(amount(-6, 0)), None, &[]),
        trade("D", None, None, &["fomo"]),
    ];
    let buckets = AnalyticsService::analyze_mistakes(&trades).unwrap();
    let occurrences: usize = buckets.iter().map(|b| b.count).sum();
    assert_eq!(occurrences, 3);
    assert_eq!(buckets[0].mistake, "late");
    assert_eq!(buckets[0].count, 2);
    assert_eq!(value(buckets[0].average_pnl), dec("5"));
    assert_eq!(buckets[1].mistake, "fomo");
    assert_eq!(buckets[1].count, 1);

    let single = vec![
        trade("A", Some(amount(-1, 0)), None, &["late"]),
        trade("B", Some(amount(2, 0)), None, &["fomo"]),
    ];
    let b = AnalyticsService::analyze_mistakes(&single).unwrap();
    let occurrences: usize = b.iter().map(|x| x.count).sum();
    assert_eq!(occurrences, 2);
}
