use trading_journal::amount::Amount;
use trading_journal::query::{list_query, update_statement, SqlParam, TradeFilters, UpdateTradeRequest};

fn no_changes() -> UpdateTradeRequest {
    UpdateTradeRequest {
        symbol: None,
        direction: None,
        entry_price: None,
        exit_price: None,
        quantity: None,
        entry_time: None,
        exit_time: None,
        fees: None,
        notes: None,
        tags: None,
        setup_type: None,
        mistakes: None,
        emotions: None,
        broker: None,
        account_id: None,
        status: None,
    }
}

#[test]
fn listing_without_criteria_is_scoped_to_the_owner() {
    let q = list_query(42, TradeFilters::default());
    assert_eq!(q.sql, "SELECT * FROM trades WHERE user_id = $1 ORDER BY entry_time DESC");
    assert_eq!(q.params, vec![SqlParam::Uuid(42)]);
}

#[test]
fn listing_closed_trades() {
    let f = TradeFilters { status: Some("closed".to_string()), ..Default::default() };
    let q = list_query(7, f);
    assert_eq!(
        q.sql,
        "SELECT * FROM trades WHERE user_id = $1 AND status = $2 ORDER BY entry_time DESC"
    );
    assert_eq!(q.params, vec![SqlParam::Uuid(7), SqlParam::Text("closed".to_string())]);
}

#[test]
fn listing_with_every_criterion_numbers_placeholders_in_order() {
    let f = TradeFilters {
        symbol: Some("AAPL".to_string()),
        direction: Some("long".to_string()),
        status: Some("closed".to_string()),
        from_date: Some(1_000),
        to_date: Some(2_000),
        tags: Some(vec!["swing".to_string()]),
        setup_type: Some("breakout".to_string()),
        limit: Some(50),
        offset: Some(100),
    };
    let q = list_query(1, f);
    assert_eq!(
        q.sql,
        "SELECT * FROM trades WHERE user_id = $1 AND symbol = $2 AND direction = $3 AND status = $4 \
         AND entry_time >= $5 AND entry_time <= $6 AND setup_type = $7 AND tags @> $8 \
         ORDER BY entry_time DESC LIMIT $9 OFFSET $10"
    );
    assert_eq!(
        q.params,
        vec![
            SqlParam::Uuid(1),
            SqlParam::Text("AAPL".to_string()),
            SqlParam::Text("long".to_string()),
            SqlParam::Text("closed".to_string()),
            SqlParam::Timestamp(1_000),
            SqlParam::Timestamp(2_000),
            SqlParam::Text("breakout".to_string()),
            SqlParam::TextList(vec!["swing".to_string()]),
            SqlParam::Integer(50),
            SqlParam::Integer(100),
        ]
    );
}

#[test]
fn offset_without_limit_takes_the_next_placeholder() {
    let f = TradeFilters { symbol: Some("X".to_string()), offset: Some(5), ..Default::default() };
    let q = list_query(3, f);
    assert_eq!(
        q.sql,
        "SELECT * FROM trades WHERE user_id = $1 AND symbol = $2 ORDER BY entry_time DESC OFFSET $3"
    );
    assert_eq!(q.params.len(), 3);
    assert_eq!(q.params[2], SqlParam::Integer(5));
}

#[test]
fn update_without_changes_only_touches_the_timestamp() {
    let q = update_statement(9, 4, no_changes());
    assert_eq!(
        q.sql,
        "UPDATE trades SET updated_at = NOW() WHERE id = $1 AND user_id = $2 RETURNING *"
    );
    assert_eq!(q.params, vec![SqlParam::Uuid(9), SqlParam::Uuid(4)]);
}

#[test]
fn update_numbers_assignments_after_the_trade() {
    let mut req = no_changes();
    req.symbol = Some("MSFT".to_string());
    req.fees = Some(Amount::new(125, 2).unwrap());
    req.status = Some("closed".to_string());
    let q = update_statement(9, 4, req);
    assert_eq!(
        q.sql,
        "UPDATE trades SET symbol = $2, fees = $3, status = $4, updated_at = NOW() \
         WHERE id = $1 AND user_id = $5 RETURNING *"
    );
    assert_eq!(
        q.params,
        vec![
            SqlParam::Uuid(9),
            SqlParam::Text("MSFT".to_string()),
            SqlParam::Decimal(Amount::new(125, 2).unwrap()),
            SqlParam::Text("closed".to_string()),
            SqlParam::Uuid(4),
        ]
    );
}

#[test]
fn update_with_every_field_reaches_two_digit_placeholders() {
    let a = Amount::new(1, 0).unwrap();
    let req = UpdateTradeRequest {
        symbol: Some("S".to_string()),
        direction: Some("short".to_string()),
        entry_price: Some(a),
        exit_price: Some(a),
        quantity: Some(a),
        entry_time: Some(1),
        exit_time: Some(2),
        fees: Some(a),
        notes: Some("n".to_string()),
        tags: Some(vec![]),
        setup_type: Some("s".to_string()),
        mistakes: Some(vec![]),
        emotions: Some(vec![]),
        broker: Some("b".to_string()),
        account_id: Some("acc".to_string()),
        status: Some("open".to_string()),
    };
    let q = update_statement(1, 2, req);
    assert!(q.sql.contains("status = $17, updated_at = NOW() WHERE id = $1 AND user_id = $18"));
    assert_eq!(q.params.len(), 18);
    assert_eq!(q.params[17], SqlParam::Uuid(2));
}
