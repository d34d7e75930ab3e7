//! Performance analytics over a user's closed trades.
//!
//! Every aggregate is a pure function of the input sequence. Sums and
//! quotients of amounts are computed by `rust_decimal`; an overflow there is
//! reported as an internal error, never as a wrong number.
use crate::amount::{
    checked_add, checked_div, decimal_quotient, decimal_sum, less_than, value_lt, Amount,
};
use crate::error::{overflow_message, AppError};
use crate::grouping::{
    count_sum, group_keys, group_matches, group_ok, is_key_cover, is_ranked, key_count,
    clone_key, key_total, key_wins, lemma_cover_count_sum, summarize, Entry, Group,
};
use crate::trade::{all_wf, opt_wf, Trade};
use vstd::prelude::*;

verus! {

/// A share `part / whole`; its percentage is `100 * part / whole`, and zero
/// when `whole` is zero.
#[derive(Clone, Copy, Debug, PartialEq, Eq, Structural)]
pub struct Ratio {
    pub part: usize,
    pub whole: usize,
}

/// Summary of a sequence of trades.
#[derive(Clone, Copy, Debug, PartialEq, Eq, Structural)]
pub struct TradeAnalytics {
    pub total_trades: usize,
    pub winning_trades: usize,
    pub losing_trades: usize,
    /// `winning_trades / total_trades`.
    pub win_rate: Ratio,
    pub total_pnl: Amount,
    pub average_win: Amount,
    pub average_loss: Amount,
    pub largest_win: Amount,
    pub largest_loss: Amount,
    pub profit_factor: Amount,
    pub risk_reward_ratio: Amount,
    /// Length of the running win streak, or minus that of the running loss streak.
    pub current_streak: i128,
    pub longest_win_streak: usize,
    pub longest_loss_streak: usize,
}

/// Performance of the trades on one symbol.
#[derive(Debug)]
pub struct SymbolPerformance {
    pub symbol: String,
    pub total_trades: usize,
    pub winning_trades: usize,
    /// `winning_trades / total_trades`.
    pub win_rate: Ratio,
    pub total_pnl: Amount,
    pub average_pnl: Amount,
}

/// Performance of the trades with one setup label.
#[derive(Debug)]
pub struct SetupPerformance {
    pub setup_type: String,
    pub total_trades: usize,
    pub winning_trades: usize,
    /// `winning_trades / total_trades`.
    pub win_rate: Ratio,
    pub total_pnl: Amount,
    pub average_pnl: Amount,
}

/// How often one mistake tag occurs on trades with a realised P&L, and what
/// those trades made.
#[derive(Debug)]
pub struct MistakeAnalysis {
    pub mistake: String,
    pub count: usize,
    pub average_pnl: Amount,
    pub total_pnl: Amount,
}

/// One entry per trade: its symbol and its P&L.
pub open spec fn symbol_entries(s: Seq<Trade>) -> Seq<Entry> {
    s.map_values(|t: Trade| (t.symbol, t.pnl))
}

/// One entry per trade that has a setup label: the label and the P&L.
pub open spec fn setup_entries(s: Seq<Trade>) -> Seq<Entry>
    decreases s.len(),
{
    if s.len() == 0 {
        Seq::empty()
    } else {
        match s.last().setup_type {
            Some(k) => setup_entries(s.drop_last()).push((k, s.last().pnl)),
            None => setup_entries(s.drop_last()),
        }
    }
}

/// Trades that have a setup label.
pub open spec fn setup_count(s: Seq<Trade>) -> nat
    decreases s.len(),
{
    if s.len() == 0 {
        0
    } else {
        setup_count(s.drop_last()) + if s.last().setup_type is Some { 1nat } else { 0nat }
    }
}

/// One entry per mistake tag of a trade, with that trade's P&L.
pub open spec fn tag_entries(tags: Seq<String>, pnl: Option<Amount>) -> Seq<Entry> {
    tags.map_values(|m: String| (m, pnl))
}

/// One entry per (trade, mistake tag) pair of the trades with a realised P&L.
pub open spec fn mistake_entries(s: Seq<Trade>) -> Seq<Entry>
    decreases s.len(),
{
    if s.len() == 0 {
        Seq::empty()
    } else if s.last().pnl is Some {
        mistake_entries(s.drop_last()) + tag_entries(s.last().mistakes@, s.last().pnl)
    } else {
        mistake_entries(s.drop_last())
    }
}

/// Trades that carry at least one mistake tag.
pub open spec fn tagged_count(s: Seq<Trade>) -> nat
    decreases s.len(),
{
    if s.len() == 0 {
        0
    } else {
        tagged_count(s.drop_last()) + if s.last().mistakes@.len() > 0 { 1nat } else { 0nat }
    }
}

/// A row of statistics is that of group `k` of `e`.
pub open spec fn row_matches(
    e: Seq<Entry>,
    k: Seq<char>,
    count: usize,
    wins: usize,
    total: Amount,
    avg: Amount,
) -> bool {
    &&& count == key_count(e, k)
    &&& wins == key_wins(e, k)
    &&& key_total(e, k) == Some(total)
    &&& average_of(total, count as nat) == Some(avg)
}

/// Some group of `e` has a total or an average that overflows.
pub open spec fn some_group_overflows(e: Seq<Entry>) -> bool {
    exists|k: Seq<char>| key_count(e, k) > 0 && !group_ok(e, k)
}

pub open spec fn symbol_keys(v: Seq<SymbolPerformance>) -> Seq<Seq<char>> {
    v.map_values(|p: SymbolPerformance| p.symbol@)
}

pub open spec fn setup_keys(v: Seq<SetupPerformance>) -> Seq<Seq<char>> {
    v.map_values(|p: SetupPerformance| p.setup_type@)
}

pub open spec fn mistake_keys(v: Seq<MistakeAnalysis>) -> Seq<Seq<char>> {
    v.map_values(|p: MistakeAnalysis| p.mistake@)
}

pub open spec fn zero() -> Amount {
    Amount { mantissa: 0, scale: 0 }
}

/// The profit factor reported when there are wins and no losses: 999.99.
pub open spec fn unbounded_profit_factor() -> Amount {
    Amount { mantissa: 99999, scale: 2 }
}

/// A trade whose realised result is a gain.
pub open spec fn is_win(t: Trade) -> bool {
    t.pnl matches Some(p) && p.is_pos()
}

/// A trade whose realised result is a loss.
pub open spec fn is_loss(t: Trade) -> bool {
    t.pnl matches Some(p) && p.is_neg()
}

pub open spec fn win_count(s: Seq<Trade>) -> nat
    decreases s.len(),
{
    if s.len() == 0 {
        0
    } else {
        win_count(s.drop_last()) + if is_win(s.last()) { 1nat } else { 0nat }
    }
}

pub open spec fn loss_count(s: Seq<Trade>) -> nat
    decreases s.len(),
{
    if s.len() == 0 {
        0
    } else {
        loss_count(s.drop_last()) + if is_loss(s.last()) { 1nat } else { 0nat }
    }
}

/// A running sum that stays `None` once an addition has overflowed.
pub open spec fn add_to(acc: Option<Amount>, p: Amount) -> Option<Amount> {
    match acc {
        Some(a) => decimal_sum(a, p),
        None => None,
    }
}

/// Sum of the present P&L values, in input order.
pub open spec fn pnl_total(s: Seq<Trade>) -> Option<Amount>
    decreases s.len(),
{
    if s.len() == 0 {
        Some(zero())
    } else {
        match s.last().pnl {
            Some(p) => add_to(pnl_total(s.drop_last()), p),
            None => pnl_total(s.drop_last()),
        }
    }
}

/// Sum of the gains.
pub open spec fn wins_total(s: Seq<Trade>) -> Option<Amount>
    decreases s.len(),
{
    if s.len() == 0 {
        Some(zero())
    } else if is_win(s.last()) {
        add_to(wins_total(s.drop_last()), s.last().pnl->0)
    } else {
        wins_total(s.drop_last())
    }
}

/// Sum of the magnitudes of the losses.
pub open spec fn losses_total(s: Seq<Trade>) -> Option<Amount>
    decreases s.len(),
{
    if s.len() == 0 {
        Some(zero())
    } else if is_loss(s.last()) {
        add_to(losses_total(s.drop_last()), s.last().pnl->0.magnitude())
    } else {
        losses_total(s.drop_last())
    }
}

/// The greatest gain (the earliest of equal ones), zero without gains.
pub open spec fn largest_win_of(s: Seq<Trade>) -> Amount
    decreases s.len(),
{
    if s.len() == 0 {
        zero()
    } else if is_win(s.last()) && value_lt(largest_win_of(s.drop_last()), s.last().pnl->0) {
        s.last().pnl->0
    } else {
        largest_win_of(s.drop_last())
    }
}

/// The most negative loss (the earliest of equal ones), zero without losses.
pub open spec fn largest_loss_of(s: Seq<Trade>) -> Amount
    decreases s.len(),
{
    if s.len() == 0 {
        zero()
    } else if is_loss(s.last()) && value_lt(s.last().pnl->0, largest_loss_of(s.drop_last())) {
        s.last().pnl->0
    } else {
        largest_loss_of(s.drop_last())
    }
}

/// Wins since the last loss; trades without a gain or a loss leave it as is.
pub open spec fn win_run(s: Seq<Trade>) -> nat
    decreases s.len(),
{
    if s.len() == 0 {
        0
    } else if is_win(s.last()) {
        win_run(s.drop_last()) + 1
    } else if is_loss(s.last()) {
        0
    } else {
        win_run(s.drop_last())
    }
}

/// Losses since the last win; trades without a gain or a loss leave it as is.
pub open spec fn loss_run(s: Seq<Trade>) -> nat
    decreases s.len(),
{
    if s.len() == 0 {
        0
    } else if is_loss(s.last()) {
        loss_run(s.drop_last()) + 1
    } else if is_win(s.last()) {
        0
    } else {
        loss_run(s.drop_last())
    }
}

pub open spec fn longest_win_run(s: Seq<Trade>) -> nat
    decreases s.len(),
{
    if s.len() == 0 {
        0
    } else if longest_win_run(s.drop_last()) < win_run(s) {
        win_run(s)
    } else {
        longest_win_run(s.drop_last())
    }
}

pub open spec fn longest_loss_run(s: Seq<Trade>) -> nat
    decreases s.len(),
{
    if s.len() == 0 {
        0
    } else if longest_loss_run(s.drop_last()) < loss_run(s) {
        loss_run(s)
    } else {
        longest_loss_run(s.drop_last())
    }
}

/// The running win streak if there is one, else minus the running loss streak.
pub open spec fn current_streak(s: Seq<Trade>) -> int {
    if win_run(s) > 0 {
        win_run(s) as int
    } else {
        -(loss_run(s) as int)
    }
}

/// `total / n`, and zero when `n` is zero.
pub open spec fn average_of(total: Amount, n: nat) -> Option<Amount> {
    if n > 0 {
        decimal_quotient(total, Amount { mantissa: n as i128, scale: 0 })
    } else {
        Some(zero())
    }
}

/// Gains over losses: their quotient when there are losses, 999.99 when there
/// are gains only, zero when there is neither.
pub open spec fn profit_factor_of(wins: Amount, losses: Amount) -> Option<Amount> {
    if losses.is_pos() {
        decimal_quotient(wins, losses)
    } else if wins.is_pos() {
        Some(unbounded_profit_factor())
    } else {
        Some(zero())
    }
}

/// Average gain over average loss, zero when the average loss is zero.
pub open spec fn risk_reward_of(average_win: Amount, average_loss: Amount) -> Option<Amount> {
    if average_loss.is_pos() {
        decimal_quotient(average_win, average_loss)
    } else {
        Some(zero())
    }
}

/// The summary of `s`, `None` where a sum or a quotient overflows.
pub open spec fn overview_of(s: Seq<Trade>) -> Option<TradeAnalytics> {
    let wins = win_count(s);
    let losses = loss_count(s);
    match (pnl_total(s), wins_total(s), losses_total(s)) {
        (Some(total), Some(w), Some(l)) => match (average_of(w, wins), average_of(l, losses)) {
            (Some(aw), Some(al)) => match (profit_factor_of(w, l), risk_reward_of(aw, al)) {
                (Some(pf), Some(rr)) => Some(
                    TradeAnalytics {
                        total_trades: s.len() as usize,
                        winning_trades: wins as usize,
                        losing_trades: losses as usize,
                        win_rate: Ratio { part: wins as usize, whole: s.len() as usize },
                        total_pnl: total,
                        average_win: aw,
                        average_loss: al,
                        largest_win: largest_win_of(s),
                        largest_loss: largest_loss_of(s),
                        profit_factor: pf,
                        risk_reward_ratio: rr,
                        current_streak: current_streak(s) as i128,
                        longest_win_streak: longest_win_run(s) as usize,
                        longest_loss_streak: longest_loss_run(s) as usize,
                    },
                ),
                _ => None,
            },
            _ => None,
        },
        _ => None,
    }
}

/// Position of the most recent win or loss, `-1` when there is none.
pub open spec fn last_decisive(s: Seq<Trade>) -> int
    decreases s.len(),
{
    if s.len() == 0 {
        -1
    } else if is_win(s.last()) || is_loss(s.last()) {
        s.len() - 1
    } else {
        last_decisive(s.drop_last())
    }
}

/// Wins and losses together never outnumber the trades, and they account
/// for all of them exactly when every trade carries a non-zero P&L.
pub proof fn lemma_classified_within_total(s: Seq<Trade>)
    ensures
        win_count(s) + loss_count(s) <= s.len(),
        win_count(s) + loss_count(s) == s.len() <==> forall|i: int|
            0 <= i < s.len() ==> (#[trigger] s[i].pnl matches Some(p) && !p.is_zero()),
    decreases s.len(),
{
    if s.len() > 0 {
        let d = s.drop_last();
        lemma_classified_within_total(d);
        assert(forall|i: int| 0 <= i < d.len() ==> d[i] == s[i]);
        if win_count(s) + loss_count(s) == s.len() {
            assert forall|i: int| 0 <= i < s.len() implies (#[trigger] s[i].pnl matches Some(p)
                && !p.is_zero()) by {
                if i < d.len() {
                    assert(d[i] == s[i]);
                }
            }
        }
        if forall|i: int| 0 <= i < s.len() ==> (#[trigger] s[i].pnl matches Some(p) && !p.is_zero()) {
            assert forall|i: int| 0 <= i < d.len() implies (#[trigger] d[i].pnl matches Some(p)
                && !p.is_zero()) by {
                assert(d[i] == s[i]);
            }
            assert(s[s.len() - 1] == s.last());
        }
    }
}

proof fn lemma_runs(s: Seq<Trade>)
    ensures
        -1 <= last_decisive(s) < s.len(),
        last_decisive(s) == -1 ==> win_run(s) == 0 && loss_run(s) == 0,
        last_decisive(s) >= 0 && is_win(s[last_decisive(s)]) ==> win_run(s) > 0 && loss_run(s)
            == 0,
        last_decisive(s) >= 0 && is_loss(s[last_decisive(s)]) ==> loss_run(s) > 0 && win_run(s)
            == 0,
        last_decisive(s) >= 0 ==> is_win(s[last_decisive(s)]) || is_loss(s[last_decisive(s)]),
    decreases s.len(),
{
    if s.len() > 0 {
        let d = s.drop_last();
        lemma_runs(d);
        if !(is_win(s.last()) || is_loss(s.last())) && last_decisive(d) >= 0 {
            assert(d[last_decisive(d)] == s[last_decisive(d)]);
        }
    }
}

/// The current streak is non-negative exactly when the most recent win or
/// loss was a win or there was none, and negative exactly when it was a loss.
pub proof fn lemma_streak_sign(s: Seq<Trade>)
    ensures
        current_streak(s) >= 0 <==> (last_decisive(s) == -1 || is_win(s[last_decisive(s)])),
        current_streak(s) < 0 <==> (last_decisive(s) >= 0 && is_loss(s[last_decisive(s)])),
{
    lemma_runs(s);
}

proof fn lemma_setup_entries_len(s: Seq<Trade>)
    ensures
        setup_entries(s).len() == setup_count(s),
    decreases s.len(),
{
    if s.len() > 0 {
        lemma_setup_entries_len(s.drop_last());
    }
}

/// The symbol groups partition the trades: one group per symbol, and the
/// group sizes add up to the number of trades.
pub proof fn lemma_symbol_groups_partition(trades: Seq<Trade>, keys: Seq<Seq<char>>)
    requires
        is_key_cover(symbol_entries(trades), keys),
    ensures
        count_sum(symbol_entries(trades), keys) == trades.len(),
{
    lemma_cover_count_sum(symbol_entries(trades), keys);
}

/// The setup groups partition the trades that have a setup label: their sizes
/// add up to the number of such trades.
pub proof fn lemma_setup_groups_partition(trades: Seq<Trade>, keys: Seq<Seq<char>>)
    requires
        is_key_cover(setup_entries(trades), keys),
    ensures
        count_sum(setup_entries(trades), keys) == setup_count(trades),
{
    lemma_cover_count_sum(setup_entries(trades), keys);
    lemma_setup_entries_len(trades);
}

proof fn lemma_mistake_entries_bound(s: Seq<Trade>)
    requires
        forall|i: int| 0 <= i < s.len() ==> (#[trigger] s[i]).mistakes@.len() > 0 ==> s[i].pnl is Some,
    ensures
        mistake_entries(s).len() >= tagged_count(s),
        mistake_entries(s).len() == tagged_count(s) <==> forall|i: int|
            0 <= i < s.len() ==> (#[trigger] s[i]).mistakes@.len() <= 1,
    decreases s.len(),
{
    if s.len() > 0 {
        let d = s.drop_last();
        assert(forall|i: int| 0 <= i < d.len() ==> d[i] == s[i]);
        lemma_mistake_entries_bound(d);
        assert(s[s.len() - 1] == s.last());
        if mistake_entries(s).len() == tagged_count(s) {
            assert forall|i: int| 0 <= i < s.len() implies (#[trigger] s[i]).mistakes@.len() <= 1 by {
                if i < d.len() {
                    assert(d[i] == s[i]);
                }
            }
        }
    }
}

/// Mistake occurrences, summed over the buckets, are at least the number of
/// tagged trades, and equal to it exactly when every tagged trade carries a
/// single tag. This holds where every tagged trade has a realised P&L (the
/// buckets only count trades that have one).
pub proof fn lemma_mistake_occurrences(trades: Seq<Trade>, keys: Seq<Seq<char>>)
    requires
        is_key_cover(mistake_entries(trades), keys),
        forall|i: int|
            0 <= i < trades.len() ==> (#[trigger] trades[i]).mistakes@.len() > 0
                ==> trades[i].pnl is Some,
    ensures
        count_sum(mistake_entries(trades), keys) >= tagged_count(trades),
        count_sum(mistake_entries(trades), keys) == tagged_count(trades) <==> forall|i: int|
            0 <= i < trades.len() && (#[trigger] trades[i]).mistakes@.len() > 0
                ==> trades[i].mistakes@.len() == 1,
{
    lemma_cover_count_sum(mistake_entries(trades), keys);
    lemma_mistake_entries_bound(trades);
}

proof fn lemma_no_losses_total(s: Seq<Trade>)
    requires
        loss_count(s) == 0,
    ensures
        losses_total(s) == Some(zero()),
    decreases s.len(),
{
    if s.len() > 0 {
        lemma_no_losses_total(s.drop_last());
    }
}

proof fn lemma_no_wins_total(s: Seq<Trade>)
    requires
        win_count(s) == 0,
    ensures
        wins_total(s) == Some(zero()),
    decreases s.len(),
{
    if s.len() > 0 {
        lemma_no_wins_total(s.drop_last());
    }
}

/// Without losses the loss total is zero, so the summary's profit factor is
/// 999.99 when the gains add up to a positive total.
pub proof fn lemma_profit_factor_without_losses(s: Seq<Trade>)
    requires
        loss_count(s) == 0,
    ensures
        losses_total(s) == Some(zero()),
        overview_of(s) is Some && wins_total(s) is Some && wins_total(s)->0.is_pos()
            ==> overview_of(s)->0.profit_factor == unbounded_profit_factor(),
{
    lemma_no_losses_total(s);
}

/// Without wins and without losses, the summary's profit factor is zero.
pub proof fn lemma_profit_factor_without_wins_or_losses(s: Seq<Trade>)
    requires
        win_count(s) == 0,
        loss_count(s) == 0,
    ensures
        overview_of(s) is Some ==> overview_of(s)->0.profit_factor == zero(),
{
    lemma_no_losses_total(s);
    lemma_no_wins_total(s);
}

/// Adds `p` to a running sum.
pub(crate) fn accumulate(acc: Option<Amount>, p: &Amount) -> (r: Option<Amount>)
    requires
        opt_wf(acc),
        p.wf(),
    ensures
        r == add_to(acc, *p),
        opt_wf(r),
{
    match acc {
        Some(a) => checked_add(&a, p),
        None => None,
    }
}

/// `total / n`, and zero when `n` is zero.
pub fn average(total: &Amount, n: usize) -> (r: Option<Amount>)
    requires
        total.wf(),
    ensures
        r == average_of(*total, n as nat),
        opt_wf(r),
{
    if n > 0 {
        checked_div(total, &Amount::from_count(n))
    } else {
        Some(Amount::zero())
    }
}

/// Total gains over total loss magnitudes: the quotient where there are
/// losses, 999.99 where there are only gains, zero where there is neither.
pub fn profit_factor(total_wins: &Amount, total_losses: &Amount) -> (r: Option<Amount>)
    requires
        total_wins.wf(),
        total_losses.wf(),
    ensures
        r == profit_factor_of(*total_wins, *total_losses),
        total_losses.is_zero() && total_wins.is_pos() ==> r == Some(unbounded_profit_factor()),
        total_losses.is_zero() && total_wins.is_zero() ==> r == Some(zero()),
        opt_wf(r),
{
    if total_losses.is_positive() {
        checked_div(total_wins, total_losses)
    } else if total_wins.is_positive() {
        Some(Amount { mantissa: 99999, scale: 2 })
    } else {
        Some(Amount::zero())
    }
}

/// Average gain over average loss, zero when the average loss is zero.
pub fn risk_reward_ratio(average_win: &Amount, average_loss: &Amount) -> (r: Option<Amount>)
    requires
        average_win.wf(),
        average_loss.wf(),
    ensures
        r == risk_reward_of(*average_win, *average_loss),
        opt_wf(r),
{
    if average_loss.is_positive() {
        checked_div(average_win, average_loss)
    } else {
        Some(Amount::zero())
    }
}

pub struct AnalyticsService;

impl AnalyticsService {
    /// Counts, P&L totals, averages, extremes, ratios and streaks of `trades`,
    /// taken in the given order.
    pub fn calculate_overview(trades: &[Trade]) -> (r: Result<TradeAnalytics, AppError>)
        requires
            all_wf(trades@),
        ensures
            match r {
                Ok(a) => {
                    &&& overview_of(trades@) == Some(a)
                    &&& a.winning_trades + a.losing_trades <= a.total_trades
                    &&& a.win_rate.part <= a.win_rate.whole
                    &&& a.win_rate.whole == 0 ==> a.win_rate.part == 0
                },
                Err(e) => {
                    &&& overview_of(trades@) is None
                    &&& e matches AppError::InternalServerError(m) && m@ == overflow_message()
                },
            },
    {
        let n = trades.len();
        let mut winning: usize = 0;
        let mut losing: usize = 0;
        let mut total_pnl: Option<Amount> = Some(Amount::zero());
        let mut total_wins: Option<Amount> = Some(Amount::zero());
        let mut total_losses: Option<Amount> = Some(Amount::zero());
        let mut largest_win = Amount::zero();
        let mut largest_loss = Amount::zero();
        let mut win_streak: usize = 0;
        let mut loss_streak: usize = 0;
        let mut longest_win: usize = 0;
        let mut longest_loss: usize = 0;
        let mut i: usize = 0;
        while i < n
            invariant
                n == trades@.len(),
                all_wf(trades@),
                i <= n,
                winning == win_count(trades@.take(i as int)),
                losing == loss_count(trades@.take(i as int)),
                winning + losing <= i,
                total_pnl == pnl_total(trades@.take(i as int)),
                total_wins == wins_total(trades@.take(i as int)),
                total_losses == losses_total(trades@.take(i as int)),
                opt_wf(total_pnl),
                opt_wf(total_wins),
                opt_wf(total_losses),
                largest_win == largest_win_of(trades@.take(i as int)),
                largest_loss == largest_loss_of(trades@.take(i as int)),
                largest_win.wf(),
                largest_loss.wf(),
                win_streak == win_run(trades@.take(i as int)),
                loss_streak == loss_run(trades@.take(i as int)),
                longest_win == longest_win_run(trades@.take(i as int)),
                longest_loss == longest_loss_run(trades@.take(i as int)),
                win_streak <= i,
                loss_streak <= i,
                longest_win <= i,
                longest_loss <= i,
            decreases n - i,
        {
            let trade = &trades[i];
            proof {
                let s = trades@.take(i + 1);
                assert(s.drop_last() =~= trades@.take(i as int));
                assert(s.last() == trades@[i as int]);
                assert(trades@[i as int].wf());
            }
            match &trade.pnl {
                Some(p) => {
                    total_pnl = accumulate(total_pnl, p);
                    if p.is_positive() {
                        winning = winning + 1;
                        total_wins = accumulate(total_wins, p);
                        if less_than(&largest_win, p) {
                            largest_win = *p;
                        }
                        win_streak = win_streak + 1;
                        loss_streak = 0;
                        if longest_win < win_streak {
                            longest_win = win_streak;
                        }
                    } else if p.is_negative() {
                        losing = losing + 1;
                        total_losses = accumulate(total_losses, &p.abs());
                        if less_than(p, &largest_loss) {
                            largest_loss = *p;
                        }
                        loss_streak = loss_streak + 1;
                        win_streak = 0;
                        if longest_loss < loss_streak {
                            longest_loss = loss_streak;
                        }
                    }
                },
                None => {},
            }
            i = i + 1;
        }
        proof {
            assert(trades@.take(n as int) =~= trades@);
        }
        let (total_pnl, total_wins, total_losses) = match (total_pnl, total_wins, total_losses) {
            (Some(t), Some(w), Some(l)) => (t, w, l),
            _ => {
                return Err(AppError::overflow());
            },
        };
        let (average_win, average_loss) = match (
            average(&total_wins, winning),
            average(&total_losses, losing),
        ) {
            (Some(w), Some(l)) => (w, l),
            _ => {
                return Err(AppError::overflow());
            },
        };
        let (profit_factor, risk_reward_ratio) = match (
            profit_factor(&total_wins, &total_losses),
            risk_reward_ratio(&average_win, &average_loss),
        ) {
            (Some(pf), Some(rr)) => (pf, rr),
            _ => {
                return Err(AppError::overflow());
            },
        };
        let current_streak: i128 = if win_streak > 0 {
            win_streak as i128
        } else {
            -(loss_streak as i128)
        };
        Ok(
            TradeAnalytics {
                total_trades: n,
                winning_trades: winning,
                losing_trades: losing,
                win_rate: Ratio { part: winning, whole: n },
                total_pnl,
                average_win,
                average_loss,
                largest_win,
                largest_loss,
                profit_factor,
                risk_reward_ratio,
                current_streak,
                longest_win_streak: longest_win,
                longest_loss_streak: longest_loss,
            },
        )
    }

    /// Performance per symbol, best win rate first; symbols with equal win
    /// rates keep the order in which they first occur in `trades`.
    pub fn calculate_by_symbol(trades: &[Trade]) -> (r: Result<Vec<SymbolPerformance>, AppError>)
        requires
            all_wf(trades@),
        ensures
            match r {
                Ok(v) => {
                    let e = symbol_entries(trades@);
                    let keys = symbol_keys(v@);
                    &&& is_key_cover(e, keys)
                    &&& is_ranked(e, keys, false)
                    &&& count_sum(e, keys) == trades@.len()
                    &&& forall|j: int|
                        0 <= j < v.len() ==> row_matches(
                            e,
                            keys[j],
                            #[trigger] v@[j].total_trades,
                            v@[j].winning_trades,
                            v@[j].total_pnl,
                            v@[j].average_pnl,
                        ) && v@[j].win_rate == (Ratio {
                            part: v@[j].winning_trades,
                            whole: v@[j].total_trades,
                        })
                },
                Err(err) => {
                    &&& err matches AppError::InternalServerError(m) && m@ == overflow_message()
                    &&& some_group_overflows(symbol_entries(trades@))
                },
            },
    {
        let mut entries: Vec<Entry> = Vec::new();
        let mut i: usize = 0;
        while i < trades.len()
            invariant
                i <= trades.len(),
                all_wf(trades@),
                entries.len() == i,
                forall|q: int|
                    0 <= q < i ==> #[trigger] entries@[q] == (trades@[q].symbol, trades@[q].pnl),
            decreases trades.len() - i,
        {
            entries.push((clone_key(&trades[i].symbol), trades[i].pnl));
            i = i + 1;
        }
        proof {
            assert(entries@ =~= symbol_entries(trades@));
            assert forall|q: int| 0 <= q < entries@.len() implies opt_wf(#[trigger] entries@[q].1) by {
                assert(trades@[q].wf());
            }
        }
        let groups = summarize(&entries, false)?;
        let mut v: Vec<SymbolPerformance> = Vec::new();
        let mut j: usize = 0;
        while j < groups.len()
            invariant
                j <= groups.len(),
                v.len() == j,
                forall|x: int|
                    0 <= x < j ==> (#[trigger] v@[x]).symbol@ == groups@[x].key@ && v@[x].total_trades
                        == groups@[x].count && v@[x].winning_trades == groups@[x].wins
                        && v@[x].total_pnl == groups@[x].total && v@[x].average_pnl
                        == groups@[x].average && v@[x].win_rate == (Ratio {
                        part: groups@[x].wins,
                        whole: groups@[x].count,
                    }),
            decreases groups.len() - j,
        {
            let g = &groups[j];
            v.push(
                SymbolPerformance {
                    symbol: clone_key(&g.key),
                    total_trades: g.count,
                    winning_trades: g.wins,
                    win_rate: Ratio { part: g.wins, whole: g.count },
                    total_pnl: g.total,
                    average_pnl: g.average,
                },
            );
            j = j + 1;
        }
        proof {
            assert(symbol_keys(v@) =~= group_keys(groups@));
            assert forall|x: int| 0 <= x < v.len() implies group_matches(entries@, #[trigger] groups@[x]) by {}
        }
        Ok(v)
    }

    /// Performance per setup label, over the trades that have one; best win
    /// rate first, equal win rates in order of first occurrence.
    pub fn calculate_by_setup(trades: &[Trade]) -> (r: Result<Vec<SetupPerformance>, AppError>)
        requires
            all_wf(trades@),
        ensures
            match r {
                Ok(v) => {
                    let e = setup_entries(trades@);
                    let keys = setup_keys(v@);
                    &&& is_key_cover(e, keys)
                    &&& is_ranked(e, keys, false)
                    &&& count_sum(e, keys) == setup_count(trades@)
                    &&& forall|j: int|
                        0 <= j < v.len() ==> row_matches(
                            e,
                            keys[j],
                            #[trigger] v@[j].total_trades,
                            v@[j].winning_trades,
                            v@[j].total_pnl,
                            v@[j].average_pnl,
                        ) && v@[j].win_rate == (Ratio {
                            part: v@[j].winning_trades,
                            whole: v@[j].total_trades,
                        })
                },
                Err(err) => {
                    &&& err matches AppError::InternalServerError(m) && m@ == overflow_message()
                    &&& some_group_overflows(setup_entries(trades@))
                },
            },
    {
        let mut entries: Vec<Entry> = Vec::new();
        let mut i: usize = 0;
        while i < trades.len()
            invariant
                i <= trades.len(),
                all_wf(trades@),
                entries@ == setup_entries(trades@.take(i as int)),
                forall|q: int| 0 <= q < entries@.len() ==> opt_wf(#[trigger] entries@[q].1),
            decreases trades.len() - i,
        {
            proof {
                let s = trades@.take(i + 1);
                assert(s.drop_last() =~= trades@.take(i as int));
                assert(s.last() == trades@[i as int]);
                assert(trades@[i as int].wf());
            }
            match &trades[i].setup_type {
                Some(k) => {
                    entries.push((clone_key(k), trades[i].pnl));
                },
                None => {},
            }
            i = i + 1;
        }
        proof {
            assert(trades@.take(trades@.len() as int) =~= trades@);
            lemma_setup_entries_len(trades@);
        }
        let groups = summarize(&entries, false)?;
        let mut v: Vec<SetupPerformance> = Vec::new();
        let mut j: usize = 0;
        while j < groups.len()
            invariant
                j <= groups.len(),
                v.len() == j,
                forall|x: int|
                    0 <= x < j ==> (#[trigger] v@[x]).setup_type@ == groups@[x].key@
                        && v@[x].total_trades == groups@[x].count && v@[x].winning_trades
                        == groups@[x].wins && v@[x].total_pnl == groups@[x].total
                        && v@[x].average_pnl == groups@[x].average && v@[x].win_rate == (Ratio {
                        part: groups@[x].wins,
                        whole: groups@[x].count,
                    }),
            decreases groups.len() - j,
        {
            let g = &groups[j];
            v.push(
                SetupPerformance {
                    setup_type: clone_key(&g.key),
                    total_trades: g.count,
                    winning_trades: g.wins,
                    win_rate: Ratio { part: g.wins, whole: g.count },
                    total_pnl: g.total,
                    average_pnl: g.average,
                },
            );
            j = j + 1;
        }
        proof {
            assert(setup_keys(v@) =~= group_keys(groups@));
            assert forall|x: int| 0 <= x < v.len() implies group_matches(entries@, #[trigger] groups@[x]) by {}
        }
        Ok(v)
    }

    /// For each mistake tag: how many (trade, tag) pairs carry it among the
    /// trades with a realised P&L, and their total and average P&L. A trade
    /// with several tags counts once in each of their buckets. Most frequent
    /// first; equal counts in order of first occurrence.
    pub fn analyze_mistakes(trades: &[Trade]) -> (r: Result<Vec<MistakeAnalysis>, AppError>)
        requires
            all_wf(trades@),
        ensures
            match r {
                Ok(v) => {
                    let e = mistake_entries(trades@);
                    let keys = mistake_keys(v@);
                    &&& is_key_cover(e, keys)
                    &&& is_ranked(e, keys, true)
                    &&& count_sum(e, keys) == e.len()
                    &&& forall|j: int|
                        0 <= j < v.len() ==> #[trigger] key_count(e, keys[j]) == v@[j].count
                            && key_total(e, keys[j]) == Some(v@[j].total_pnl) && average_of(
                            v@[j].total_pnl,
                            v@[j].count as nat,
                        ) == Some(v@[j].average_pnl)
                },
                Err(err) => {
                    &&& err matches AppError::InternalServerError(m) && m@ == overflow_message()
                    &&& some_group_overflows(mistake_entries(trades@))
                },
            },
    {
        let mut entries: Vec<Entry> = Vec::new();
        let mut i: usize = 0;
        while i < trades.len()
            invariant
                i <= trades.len(),
                all_wf(trades@),
                entries@ == mistake_entries(trades@.take(i as int)),
                forall|q: int| 0 <= q < entries@.len() ==> opt_wf(#[trigger] entries@[q].1),
            decreases trades.len() - i,
        {
            let trade = &trades[i];
            proof {
                let s = trades@.take(i + 1);
                assert(s.drop_last() =~= trades@.take(i as int));
                assert(s.last() == trades@[i as int]);
                assert(trades@[i as int].wf());
            }
            if trade.pnl.is_some() {
                let ghost start = entries@;
                let mut t: usize = 0;
                while t < trade.mistakes.len()
                    invariant
                        t <= trade.mistakes.len(),
                        entries@ == start + tag_entries(trade.mistakes@.take(t as int), trade.pnl),
                        opt_wf(trade.pnl),
                        forall|q: int| 0 <= q < entries@.len() ==> opt_wf(#[trigger] entries@[q].1),
                    decreases trade.mistakes.len() - t,
                {
                    entries.push((clone_key(&trade.mistakes[t]), trade.pnl));
                    proof {
                        assert(tag_entries(trade.mistakes@.take(t + 1), trade.pnl) =~= tag_entries(
                            trade.mistakes@.take(t as int),
                            trade.pnl,
                        ).push((trade.mistakes@[t as int], trade.pnl)));
                    }
                    t = t + 1;
                }
                proof {
                    assert(trade.mistakes@.take(trade.mistakes@.len() as int) =~= trade.mistakes@);
                }
            }
            i = i + 1;
        }
        proof {
            assert(trades@.take(trades@.len() as int) =~= trades@);
        }
        let groups = summarize(&entries, true)?;
        let mut v: Vec<MistakeAnalysis> = Vec::new();
        let mut j: usize = 0;
        while j < groups.len()
            invariant
                j <= groups.len(),
                v.len() == j,
                forall|x: int|
                    0 <= x < j ==> (#[trigger] v@[x]).mistake@ == groups@[x].key@ && v@[x].count
                        == groups@[x].count && v@[x].total_pnl == groups@[x].total
                        && v@[x].average_pnl == groups@[x].average,
            decreases groups.len() - j,
        {
            let g = &groups[j];
            v.push(
                MistakeAnalysis {
                    mistake: clone_key(&g.key),
                    count: g.count,
                    average_pnl: g.average,
                    total_pnl: g.total,
                },
            );
            j = j + 1;
        }
        proof {
            assert(mistake_keys(v@) =~= group_keys(groups@));
            assert forall|x: int| 0 <= x < v.len() implies group_matches(entries@, #[trigger] groups@[x]) by {}
        }
        Ok(v)
    }
}

} // verus!
