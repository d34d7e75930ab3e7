use rust_decimal::Decimal;
use trading_journal::amount::Amount;
use trading_journal::error::AppError;
use trading_journal::trade::{new_trade_fields, validate_direction, CreateTradeRequest, Trade};

fn amount(mantissa: i128, scale: u32) -> Amount {
    Amount::new(mantissa, scale).unwrap()
}

fn value(a: Amount) -> Decimal {
    Decimal::from_i128_with_scale(a.mantissa, a.scale)
}

fn position(direction: &str, entry: Amount, exit: Option<Amount>, quantity: Amount, fees: Amount) -> Trade {
    Trade {
        id: 1,
        user_id: 2,
        symbol: "AAPL".to_string(),
        direction: direction.to_string(),
        entry_price: entry,
        exit_price: exit,
        quantity,
        entry_time: 0,
        exit_time: None,
        pnl: None,
        pnl_percentage: None,
        fees,
        notes: None,
        tags: vec![],
        setup_type: None,
        mistakes: vec![],
        emotions: vec![],
        screenshots: vec![],
        broker: None,
        account_id: None,
        status: "open".to_string(),
        created_at: 0,
        updated_at: 0,
    }
}

fn request(exit: Option<Amount>, fees: Option<Amount>) -> CreateTradeRequest {
    CreateTradeRequest {
        symbol: "AAPL".to_string(),
        direction: "short".to_string(),
        entry_price: amount(200, 0),
        exit_price: exit,
        quantity: amount(3, 0),
        entry_time: 0,
        exit_time: None,
        fees,
        notes: None,
        tags: None,
        setup_type: None,
        mistakes: None,
        emotions: None,
        broker: None,
        account_id: None,
    }
}

#[test]
fn long_position_gains_when_price_rises() {
    let t = position("long", amount(100, 0), Some(amount(1105, 1)), amount(10, 0), amount(5, 0));
    let (pnl, pct) = t.calculate_pnl().unwrap().unwrap();
    assert_eq!(value(pnl), "100".parse::<Decimal>().unwrap());
    assert_eq!(value(pct), "10.5".parse::<Decimal>().unwrap());
}

#[test]
fn short_position_gains_when_price_falls() {
    let t = position("short", amount(50, 0), Some(amount(40, 0)), amount(2, 0), amount(1, 0));
    let (pnl, pct) = t.calculate_pnl().unwrap().unwrap();
    assert_eq!(value(pnl), "19".parse::<Decimal>().unwrap());
    assert_eq!(value(pct), "20".parse::<Decimal>().unwrap());
}

#[test]
fn open_position_has_no_result() {
    let t = position("long", amount(50, 0), None, amount(2, 0), amount(1, 0));
    assert!(matches!(t.calculate_pnl(), Ok(None)));
}

#[test]
fn zero_entry_price_is_an_internal_error() {
    let t = position("long", amount(0, 0), Some(amount(5, 0)), amount(1, 0), amount(0, 0));
    assert!(matches!(t.calculate_pnl(), Err(AppError::InternalServerError(_))));
}

#[test]
fn new_trade_with_exit_is_closed() {
    let f = new_trade_fields(&request(Some(amount(190, 0)), None)).unwrap();
    assert_eq!(f.status, "closed");
    assert_eq!(value(f.fees), Decimal::ZERO);
    assert_eq!(value(f.pnl.unwrap()), "30".parse::<Decimal>().unwrap());
    assert_eq!(value(f.pnl_percentage.unwrap()), "5".parse::<Decimal>().unwrap());
}

#[test]
fn new_trade_without_exit_is_open() {
    let f = new_trade_fields(&request(None, Some(amount(2, 0)))).unwrap();
    assert_eq!(f.status, "open");
    assert!(f.pnl.is_none());
    assert!(f.pnl_percentage.is_none());
    assert_eq!(value(f.fees), "2".parse::<Decimal>().unwrap());
}

#[test]
fn direction_must_be_long_or_short() {
    assert!(validate_direction("long").is_ok());
    assert!(validate_direction("short").is_ok());
    let e = validate_direction("sideways").unwrap_err();
    assert!(matches!(e, AppError::ValidationError(ref m) if m == "Direction must be 'long' or 'short'"));
}

#[test]
fn amounts_outside_the_decimal_range_are_refused() {
    assert!(Amount::new(1, 29).is_none());
    assert!(Amount::new(0x1_0000_0000_0000_0000_0000_0000, 0).is_none());
    assert!(Amount::new(-0xFFFF_FFFF_FFFF_FFFF_FFFF_FFFF, 28).is_some());
}
