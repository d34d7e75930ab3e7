//! Parameterised SQL for listing and updating trades.
//!
//! A statement is built from one ordered list of (condition, value) pairs.
//! The placeholder of the pair at position `k` is rendered from `k` itself,
//! and the bound values are the pairs' values in the same order, so a
//! placeholder and its value cannot drift apart.
use crate::amount::Amount;
use vstd::prelude::*;

verus! {

/// A value bound to a placeholder.
#[derive(Debug, PartialEq)]
pub enum SqlParam {
    Uuid(u128),
    Text(String),
    /// Microseconds since the Unix epoch (UTC).
    Timestamp(i64),
    TextList(Vec<String>),
    Integer(i64),
    Decimal(Amount),
}

/// A statement and the values of its placeholders `$1, $2, ...`, in order.
#[derive(Debug)]
pub struct TradeQuery {
    pub sql: String,
    pub params: Vec<SqlParam>,
}

/// Criteria for listing a user's trades. Present fields are combined with
/// AND; absent ones impose nothing.
#[derive(Debug)]
pub struct TradeFilters {
    pub symbol: Option<String>,
    pub direction: Option<String>,
    pub status: Option<String>,
    /// Earliest entry time, microseconds since the Unix epoch.
    pub from_date: Option<i64>,
    /// Latest entry time, microseconds since the Unix epoch.
    pub to_date: Option<i64>,
    /// Tags that a trade must all carry.
    pub tags: Option<Vec<String>>,
    pub setup_type: Option<String>,
    pub limit: Option<i64>,
    pub offset: Option<i64>,
}

impl Default for TradeFilters {
    fn default() -> (r: TradeFilters)
        ensures
            r.symbol is None && r.direction is None && r.status is None && r.from_date is None
                && r.to_date is None && r.tags is None && r.setup_type is None && r.limit is None
                && r.offset is None,
    {
        TradeFilters {
            symbol: None,
            direction: None,
            status: None,
            from_date: None,
            to_date: None,
            tags: None,
            setup_type: None,
            limit: None,
            offset: None,
        }
    }
}

pub open spec fn digit_char(d: nat) -> char {
    if d == 0 {
        '0'
    } else if d == 1 {
        '1'
    } else if d == 2 {
        '2'
    } else if d == 3 {
        '3'
    } else if d == 4 {
        '4'
    } else if d == 5 {
        '5'
    } else if d == 6 {
        '6'
    } else if d == 7 {
        '7'
    } else if d == 8 {
        '8'
    } else {
        '9'
    }
}

/// Decimal digits of `n`, without leading zeros.
pub open spec fn decimal_text(n: nat) -> Seq<char>
    decreases n,
{
    if n < 10 {
        seq![digit_char(n)]
    } else {
        decimal_text(n / 10).push(digit_char(n % 10))
    }
}

/// A condition (its text up to the placeholder) and its value.
pub type Condition = (&'static str, SqlParam);

pub open spec fn condition_view(c: Condition) -> (Seq<char>, SqlParam) {
    (c.0@, c.1)
}

/// `conds` rendered as `test$n` items joined by `sep`, the first numbered `base`.
pub open spec fn render_conditions(
    conds: Seq<(Seq<char>, SqlParam)>,
    sep: Seq<char>,
    base: nat,
) -> Seq<char>
    decreases conds.len(),
{
    if conds.len() == 0 {
        Seq::empty()
    } else {
        let item = conds.last().0 + "$"@ + decimal_text((base + conds.len() - 1) as nat);
        if conds.len() == 1 {
            item
        } else {
            render_conditions(conds.drop_last(), sep, base) + sep + item
        }
    }
}

pub open spec fn text_condition(test: Seq<char>, v: Option<String>) -> Seq<(Seq<char>, SqlParam)> {
    match v {
        Some(s) => seq![(test, SqlParam::Text(s))],
        None => Seq::empty(),
    }
}

pub open spec fn time_condition(test: Seq<char>, v: Option<i64>) -> Seq<(Seq<char>, SqlParam)> {
    match v {
        Some(t) => seq![(test, SqlParam::Timestamp(t))],
        None => Seq::empty(),
    }
}

pub open spec fn integer_param(v: Option<i64>) -> Seq<SqlParam> {
    match v {
        Some(n) => seq![SqlParam::Integer(n)],
        None => Seq::empty(),
    }
}

/// The conditions of a listing, in order: the owner, then each present
/// criterion.
pub open spec fn list_conditions(user_id: u128, f: TradeFilters) -> Seq<(Seq<char>, SqlParam)> {
    seq![("user_id = "@, SqlParam::Uuid(user_id))] + text_condition("symbol = "@, f.symbol)
        + text_condition("direction = "@, f.direction) + text_condition("status = "@, f.status)
        + time_condition("entry_time >= "@, f.from_date) + time_condition(
        "entry_time <= "@,
        f.to_date,
    ) + text_condition("setup_type = "@, f.setup_type) + match f.tags {
        Some(t) => seq![("tags @> "@, SqlParam::TextList(t))],
        None => Seq::empty(),
    }
}

/// The SQL of a listing: the conditions, newest entry first, then the limit
/// and the offset where given, numbered after the conditions.
pub open spec fn list_sql(user_id: u128, f: TradeFilters) -> Seq<char> {
    let conds = list_conditions(user_id, f);
    let n = conds.len();
    "SELECT * FROM trades WHERE "@ + render_conditions(conds, " AND "@, 1)
        + " ORDER BY entry_time DESC"@ + (if f.limit is Some {
        " LIMIT $"@ + decimal_text(n + 1)
    } else {
        Seq::empty()
    }) + (if f.offset is Some {
        " OFFSET $"@ + decimal_text(n + 1 + if f.limit is Some { 1nat } else { 0nat })
    } else {
        Seq::empty()
    })
}

/// The values of a listing's placeholders, in order.
pub open spec fn list_params(user_id: u128, f: TradeFilters) -> Seq<SqlParam> {
    list_conditions(user_id, f).map_values(|c: (Seq<char>, SqlParam)| c.1) + integer_param(
        f.limit,
    ) + integer_param(f.offset)
}

fn digit_text(d: usize) -> (r: &'static str)
    requires
        d < 10,
    ensures
        r@ == seq![digit_char(d as nat)],
{
    if d == 0 {
        proof {
            reveal_strlit("0");
        }
        "0"
    } else if d == 1 {
        proof {
            reveal_strlit("1");
        }
        "1"
    } else if d == 2 {
        proof {
            reveal_strlit("2");
        }
        "2"
    } else if d == 3 {
        proof {
            reveal_strlit("3");
        }
        "3"
    } else if d == 4 {
        proof {
            reveal_strlit("4");
        }
        "4"
    } else if d == 5 {
        proof {
            reveal_strlit("5");
        }
        "5"
    } else if d == 6 {
        proof {
            reveal_strlit("6");
        }
        "6"
    } else if d == 7 {
        proof {
            reveal_strlit("7");
        }
        "7"
    } else if d == 8 {
        proof {
            reveal_strlit("8");
        }
        "8"
    } else {
        proof {
            reveal_strlit("9");
        }
        "9"
    }
}

/// In a listing, the value bound to placeholder `$k+1` is that of the k-th
/// condition, and the limit and offset values follow the conditions' values.
pub proof fn lemma_list_binding(user_id: u128, f: TradeFilters)
    ensures
        ({
            let conds = list_conditions(user_id, f);
            let params = list_params(user_id, f);
            &&& params.len() == conds.len() + (if f.limit is Some { 1int } else { 0int }) + (
            if f.offset is Some {
                1int
            } else {
                0int
            })
            &&& forall|k: int| 0 <= k < conds.len() ==> params[k] == (#[trigger] conds[k]).1
            &&& f.limit matches Some(n) ==> params[conds.len() as int] == SqlParam::Integer(n)
            &&& f.offset matches Some(n) ==> params[params.len() - 1] == SqlParam::Integer(n)
        }),
{
}

/// Appends the decimal digits of `n`.
pub fn push_decimal(s: &mut String, n: usize)
    ensures
        final(s)@ == old(s)@ + decimal_text(n as nat),
    decreases n,
{
    if n >= 10 {
        push_decimal(s, n / 10);
    }
    s.append(digit_text(n % 10));
    proof {
        assert(s@ =~= old(s)@ + decimal_text(n as nat));
    }
}

/// Appends `conds` as `test$n` items joined by `sep`, the first numbered `base`.
fn push_conditions(s: &mut String, conds: &Vec<Condition>, sep: &str, base: usize)
    requires
        base + conds.len() <= usize::MAX,
    ensures
        final(s)@ == old(s)@ + render_conditions(
            condition_views(conds@),
            sep@,
            base as nat,
        ),
{
    let ghost all = condition_views(conds@);
    let mut k: usize = 0;
    while k < conds.len()
        invariant
            k <= conds.len(),
            base + conds.len() <= usize::MAX,
            all == condition_views(conds@),
            s@ == old(s)@ + render_conditions(all.take(k as int), sep@, base as nat),
        decreases conds.len() - k,
    {
        let ghost prev = s@;
        if k > 0 {
            s.append(sep);
        }
        s.append(conds[k].0);
        s.append("$");
        push_decimal(s, base + k);
        proof {
            let t = all.take(k + 1);
            assert(t.drop_last() =~= all.take(k as int));
            assert(t.last() == condition_view(conds@[k as int]));
            assert(s@ =~= old(s)@ + render_conditions(t, sep@, base as nat));
        }
        k = k + 1;
    }
    proof {
        assert(all.take(conds.len() as int) =~= all);
    }
}

/// Moves the values out of `conds`, in order.
fn take_values(conds: Vec<Condition>) -> (r: Vec<SqlParam>)
    ensures
        r@ == condition_views(conds@).map_values(
            |c: (Seq<char>, SqlParam)| c.1,
        ),
{
    let ghost all = conds@;
    let mut rest = conds;
    let mut r: Vec<SqlParam> = Vec::new();
    while rest.len() > 0
        invariant
            rest@ == all.skip(r@.len() as int),
            r@.len() <= all.len(),
            forall|q: int| 0 <= q < r@.len() ==> #[trigger] r@[q] == all[q].1,
        decreases rest.len(),
    {
        let c = rest.remove(0);
        proof {
            assert(c == all[r@.len() as int]);
        }
        r.push(c.1);
        proof {
            assert(rest@ =~= all.skip(r@.len() as int));
        }
    }
    proof {
        assert(r@ =~= all.map_values(|c: Condition| condition_view(c)).map_values(
            |c: (Seq<char>, SqlParam)| c.1,
        ));
    }
    r
}

pub open spec fn condition_views(conds: Seq<Condition>) -> Seq<(Seq<char>, SqlParam)> {
    conds.map_values(|c: Condition| condition_view(c))
}

/// Appends the condition `test` on text `v`, when `v` is present.
fn push_text_condition(conds: &mut Vec<Condition>, test: &'static str, v: Option<String>)
    ensures
        condition_views(final(conds)@) == condition_views(old(conds)@) + text_condition(test@, v),
{
    if let Some(t) = v {
        conds.push((test, SqlParam::Text(t)));
    }
    proof {
        assert(condition_views(conds@) =~= condition_views(old(conds)@) + text_condition(test@, v));
    }
}

/// Appends the condition `test` on instant `v`, when `v` is present.
fn push_time_condition(conds: &mut Vec<Condition>, test: &'static str, v: Option<i64>)
    ensures
        condition_views(final(conds)@) == condition_views(old(conds)@) + time_condition(test@, v),
{
    if let Some(t) = v {
        conds.push((test, SqlParam::Timestamp(t)));
    }
    proof {
        assert(condition_views(conds@) =~= condition_views(old(conds)@) + time_condition(test@, v));
    }
}

/// Appends the condition that a trade carries all of `v`, when `v` is present.
fn push_tags_condition(conds: &mut Vec<Condition>, v: Option<Vec<String>>)
    ensures
        condition_views(final(conds)@) == condition_views(old(conds)@) + match v {
            Some(t) => seq![("tags @> "@, SqlParam::TextList(t))],
            None => Seq::empty(),
        },
{
    let ghost w = v;
    if let Some(t) = v {
        conds.push(("tags @> ", SqlParam::TextList(t)));
    }
    proof {
        assert(condition_views(conds@) =~= condition_views(old(conds)@) + match w {
            Some(t) => seq![("tags @> "@, SqlParam::TextList(t))],
            None => Seq::empty(),
        });
    }
}

/// The conditions of a listing, as a list of pairs.
fn list_condition_list(user_id: u128, filters: TradeFilters) -> (r: (Vec<Condition>, Option<i64>, Option<i64>))
    ensures
        condition_views(r.0@) == list_conditions(user_id, filters),
        r.1 == filters.limit,
        r.2 == filters.offset,
{
    let ghost f = filters;
    let TradeFilters { symbol, direction, status, from_date, to_date, tags, setup_type, limit, offset } =
        filters;
    let mut conds: Vec<Condition> = Vec::new();
    conds.push(("user_id = ", SqlParam::Uuid(user_id)));
    proof {
        assert(condition_views(conds@) =~= seq![("user_id = "@, SqlParam::Uuid(user_id))]);
    }
    push_text_condition(&mut conds, "symbol = ", symbol);
    push_text_condition(&mut conds, "direction = ", direction);
    push_text_condition(&mut conds, "status = ", status);
    push_time_condition(&mut conds, "entry_time >= ", from_date);
    push_time_condition(&mut conds, "entry_time <= ", to_date);
    push_text_condition(&mut conds, "setup_type = ", setup_type);
    push_tags_condition(&mut conds, tags);
    (conds, limit, offset)
}

/// Appends the limit and offset clauses, numbered after `n` conditions.
fn push_paging(sql: &mut String, n: usize, limit: bool, offset: bool)
    requires
        n + 2 <= usize::MAX,
    ensures
        final(sql)@ == old(sql)@ + (if limit {
            " LIMIT $"@ + decimal_text(n as nat + 1)
        } else {
            Seq::empty()
        }) + (if offset {
            " OFFSET $"@ + decimal_text(n as nat + 1 + if limit { 1nat } else { 0nat })
        } else {
            Seq::empty()
        }),
{
    let ghost start = sql@;
    if limit {
        sql.append(" LIMIT $");
        push_decimal(sql, n + 1);
    }
    let ghost mid = sql@;
    if offset {
        sql.append(" OFFSET $");
        if limit {
            push_decimal(sql, n + 2);
        } else {
            push_decimal(sql, n + 1);
        }
    }
    proof {
        let lim = if limit {
            " LIMIT $"@ + decimal_text(n as nat + 1)
        } else {
            Seq::<char>::empty()
        };
        assert(mid =~= start + lim);
        assert(sql@ =~= old(sql)@ + lim + (if offset {
            " OFFSET $"@ + decimal_text(n as nat + 1 + if limit { 1nat } else { 0nat })
        } else {
            Seq::empty()
        }));
    }
}

/// The statement that lists `user_id`'s trades matching `filters`, newest
/// entry first.
pub fn list_query(user_id: u128, filters: TradeFilters) -> (q: TradeQuery)
    ensures
        q.sql@ == list_sql(user_id, filters),
        q.params@ == list_params(user_id, filters),
{
    let ghost f = filters;
    let (conds, limit, offset) = list_condition_list(user_id, filters);
    let n = conds.len();
    proof {
        assert(n <= 8) by {
            assert(list_conditions(user_id, f).len() <= 8);
        }
    }
    let mut sql = String::from_str("SELECT * FROM trades WHERE ");
    push_conditions(&mut sql, &conds, " AND ", 1);
    sql.append(" ORDER BY entry_time DESC");
    push_paging(&mut sql, n, limit.is_some(), offset.is_some());
    let mut params = take_values(conds);
    if let Some(v) = limit {
        params.push(SqlParam::Integer(v));
    }
    if let Some(v) = offset {
        params.push(SqlParam::Integer(v));
    }
    proof {
        assert(sql@ =~= list_sql(user_id, f));
        assert(params@ =~= list_params(user_id, f));
    }
    TradeQuery { sql, params }
}

/// Changes to a trade; absent fields stay as they are.
#[derive(Debug)]
pub struct UpdateTradeRequest {
    pub symbol: Option<String>,
    pub direction: Option<String>,
    pub entry_price: Option<Amount>,
    pub exit_price: Option<Amount>,
    pub quantity: Option<Amount>,
    pub entry_time: Option<i64>,
    pub exit_time: Option<i64>,
    pub fees: Option<Amount>,
    pub notes: Option<String>,
    pub tags: Option<Vec<String>>,
    pub setup_type: Option<String>,
    pub mistakes: Option<Vec<String>>,
    pub emotions: Option<Vec<String>>,
    pub broker: Option<String>,
    pub account_id: Option<String>,
    pub status: Option<String>,
}

pub open spec fn param_condition(test: Seq<char>, v: Option<SqlParam>) -> Seq<(Seq<char>, SqlParam)> {
    match v {
        Some(p) => seq![(test, p)],
        None => Seq::empty(),
    }
}

pub open spec fn text_param(v: Option<String>) -> Option<SqlParam> {
    match v {
        Some(t) => Some(SqlParam::Text(t)),
        None => None,
    }
}

pub open spec fn time_param(v: Option<i64>) -> Option<SqlParam> {
    match v {
        Some(t) => Some(SqlParam::Timestamp(t)),
        None => None,
    }
}

pub open spec fn decimal_param(v: Option<Amount>) -> Option<SqlParam> {
    match v {
        Some(a) => Some(SqlParam::Decimal(a)),
        None => None,
    }
}

pub open spec fn list_param(v: Option<Vec<String>>) -> Option<SqlParam> {
    match v {
        Some(l) => Some(SqlParam::TextList(l)),
        None => None,
    }
}

/// The column assignments of an update, in column order, one per present field.
pub open spec fn update_assignments(req: UpdateTradeRequest) -> Seq<(Seq<char>, SqlParam)> {
    param_condition("symbol = "@, text_param(req.symbol)) + param_condition(
        "direction = "@,
        text_param(req.direction),
    ) + param_condition("entry_price = "@, decimal_param(req.entry_price)) + param_condition(
        "exit_price = "@,
        decimal_param(req.exit_price),
    ) + param_condition("quantity = "@, decimal_param(req.quantity)) + param_condition(
        "entry_time = "@,
        time_param(req.entry_time),
    ) + param_condition("exit_time = "@, time_param(req.exit_time)) + param_condition(
        "fees = "@,
        decimal_param(req.fees),
    ) + param_condition("notes = "@, text_param(req.notes)) + param_condition(
        "tags = "@,
        list_param(req.tags),
    ) + param_condition("setup_type = "@, text_param(req.setup_type)) + param_condition(
        "mistakes = "@,
        list_param(req.mistakes),
    ) + param_condition("emotions = "@, list_param(req.emotions)) + param_condition(
        "broker = "@,
        text_param(req.broker),
    ) + param_condition("account_id = "@, text_param(req.account_id)) + param_condition(
        "status = "@,
        text_param(req.status),
    )
}

/// The SQL of an update: `$1` is the trade, the assignments follow from `$2`,
/// the modification time is set, and the owner comes last.
pub open spec fn update_sql(req: UpdateTradeRequest) -> Seq<char> {
    let sets = update_assignments(req);
    "UPDATE trades SET "@ + render_conditions(sets, ", "@, 2) + (if sets.len() > 0 {
        ", "@
    } else {
        Seq::empty()
    }) + "updated_at = NOW() WHERE id = $1 AND user_id = $"@ + decimal_text(sets.len() + 2)
        + " RETURNING *"@
}

/// The values of an update's placeholders, in order.
pub open spec fn update_params(trade_id: u128, user_id: u128, req: UpdateTradeRequest) -> Seq<SqlParam> {
    seq![SqlParam::Uuid(trade_id)] + update_assignments(req).map_values(
        |c: (Seq<char>, SqlParam)| c.1,
    ) + seq![SqlParam::Uuid(user_id)]
}

/// Appends the condition `test` with value `v`, when `v` is present.
fn push_condition(conds: &mut Vec<Condition>, test: &'static str, v: Option<SqlParam>)
    ensures
        condition_views(final(conds)@) == condition_views(old(conds)@) + param_condition(test@, v),
{
    let ghost w = v;
    if let Some(p) = v {
        conds.push((test, p));
    }
    proof {
        assert(condition_views(conds@) =~= condition_views(old(conds)@) + param_condition(test@, w));
    }
}

fn text_value(v: Option<String>) -> (r: Option<SqlParam>)
    ensures
        r == text_param(v),
{
    match v {
        Some(t) => Some(SqlParam::Text(t)),
        None => None,
    }
}

fn time_value(v: Option<i64>) -> (r: Option<SqlParam>)
    ensures
        r == time_param(v),
{
    match v {
        Some(t) => Some(SqlParam::Timestamp(t)),
        None => None,
    }
}

fn decimal_value(v: Option<Amount>) -> (r: Option<SqlParam>)
    ensures
        r == decimal_param(v),
{
    match v {
        Some(a) => Some(SqlParam::Decimal(a)),
        None => None,
    }
}

fn list_value(v: Option<Vec<String>>) -> (r: Option<SqlParam>)
    ensures
        r == list_param(v),
{
    match v {
        Some(l) => Some(SqlParam::TextList(l)),
        None => None,
    }
}

fn update_assignment_list(req: UpdateTradeRequest) -> (r: Vec<Condition>)
    ensures
        condition_views(r@) == update_assignments(req),
{
    let ghost q = req;
    let UpdateTradeRequest {
        symbol,
        direction,
        entry_price,
        exit_price,
        quantity,
        entry_time,
        exit_time,
        fees,
        notes,
        tags,
        setup_type,
        mistakes,
        emotions,
        broker,
        account_id,
        status,
    } = req;
    let mut sets: Vec<Condition> = Vec::new();
    proof {
        assert(condition_views(sets@) =~= Seq::empty());
    }
    push_condition(&mut sets, "symbol = ", text_value(symbol));
    push_condition(&mut sets, "direction = ", text_value(direction));
    push_condition(&mut sets, "entry_price = ", decimal_value(entry_price));
    push_condition(&mut sets, "exit_price = ", decimal_value(exit_price));
    push_condition(&mut sets, "quantity = ", decimal_value(quantity));
    push_condition(&mut sets, "entry_time = ", time_value(entry_time));
    push_condition(&mut sets, "exit_time = ", time_value(exit_time));
    push_condition(&mut sets, "fees = ", decimal_value(fees));
    push_condition(&mut sets, "notes = ", text_value(notes));
    push_condition(&mut sets, "tags = ", list_value(tags));
    push_condition(&mut sets, "setup_type = ", text_value(setup_type));
    push_condition(&mut sets, "mistakes = ", list_value(mistakes));
    push_condition(&mut sets, "emotions = ", list_value(emotions));
    push_condition(&mut sets, "broker = ", text_value(broker));
    push_condition(&mut sets, "account_id = ", text_value(account_id));
    push_condition(&mut sets, "status = ", text_value(status));
    proof {
        assert(condition_views(sets@) =~= update_assignments(q));
    }
    sets
}

/// The statement that applies `req` to trade `trade_id` of `user_id` and
/// returns the updated row.
pub fn update_statement(trade_id: u128, user_id: u128, req: UpdateTradeRequest) -> (q: TradeQuery)
    ensures
        q.sql@ == update_sql(req),
        q.params@ == update_params(trade_id, user_id, req),
{
    let ghost r = req;
    let sets = update_assignment_list(req);
    let n = sets.len();
    proof {
        assert(n <= 16) by {
            assert(update_assignments(r).len() <= 16);
        }
    }
    let mut sql = String::from_str("UPDATE trades SET ");
    push_conditions(&mut sql, &sets, ", ", 2);
    let ghost with_sets = sql@;
    if n > 0 {
        sql.append(", ");
    }
    let ghost with_sep = sql@;
    sql.append("updated_at = NOW() WHERE id = $1 AND user_id = $");
    push_decimal(&mut sql, n + 2);
    sql.append(" RETURNING *");
    let mut params: Vec<SqlParam> = Vec::new();
    params.push(SqlParam::Uuid(trade_id));
    let mut values = take_values(sets);
    params.append(&mut values);
    params.push(SqlParam::Uuid(user_id));
    proof {
        assert(with_sep =~= with_sets + (if n > 0 {
            ", "@
        } else {
            Seq::<char>::empty()
        }));
        assert(sql@ =~= update_sql(r));
        assert(params@ =~= update_params(trade_id, user_id, r));
    }
    TradeQuery { sql, params }
}

} // verus!
