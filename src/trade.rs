//! Trade records and the requests that create, update and list them.
//!
//! Identifiers are the 128-bit values of UUIDs; instants are microseconds
//! since the Unix epoch (UTC).
use crate::amount::{
    checked_div, checked_mul, checked_sub, decimal_difference, decimal_product, decimal_quotient,
    Amount,
};
use crate::error::{overflow_message, AppError};
use crate::text::same_text;
use vstd::prelude::*;

verus! {

/// One trade of a user's journal.
#[derive(Clone, Debug)]
pub struct Trade {
    pub id: u128,
    pub user_id: u128,
    pub symbol: String,
    /// "long" or "short".
    pub direction: String,
    pub entry_price: Amount,
    pub exit_price: Option<Amount>,
    pub quantity: Amount,
    pub entry_time: i64,
    pub exit_time: Option<i64>,
    pub pnl: Option<Amount>,
    pub pnl_percentage: Option<Amount>,
    pub fees: Amount,
    pub notes: Option<String>,
    pub tags: Vec<String>,
    pub setup_type: Option<String>,
    pub mistakes: Vec<String>,
    pub emotions: Vec<String>,
    pub screenshots: Vec<String>,
    pub broker: Option<String>,
    pub account_id: Option<String>,
    /// "open", "pending" or "closed".
    pub status: String,
    pub created_at: i64,
    pub updated_at: i64,
}

pub open spec fn opt_wf(a: Option<Amount>) -> bool {
    a matches Some(x) ==> x.wf()
}

impl Trade {
    /// Every amount of the record is a representable decimal.
    pub open spec fn wf(self) -> bool {
        &&& self.entry_price.wf()
        &&& opt_wf(self.exit_price)
        &&& self.quantity.wf()
        &&& opt_wf(self.pnl)
        &&& opt_wf(self.pnl_percentage)
        &&& self.fees.wf()
    }
}

fn opt_valid(a: &Option<Amount>) -> (r: bool)
    ensures
        r == opt_wf(*a),
{
    match a {
        Some(x) => x.is_valid(),
        None => true,
    }
}

impl Trade {
    /// Whether every amount of the record is representable.
    pub fn is_valid(&self) -> (r: bool)
        ensures
            r == self.wf(),
    {
        self.entry_price.is_valid() && opt_valid(&self.exit_price) && self.quantity.is_valid()
            && opt_valid(&self.pnl) && opt_valid(&self.pnl_percentage) && self.fees.is_valid()
    }
}

/// Whether every record of `trades` is well formed.
pub fn all_valid(trades: &[Trade]) -> (r: bool)
    ensures
        r == all_wf(trades@),
{
    let mut i: usize = 0;
    while i < trades.len()
        invariant
            i <= trades.len(),
            forall|j: int| 0 <= j < i ==> #[trigger] trades@[j].wf(),
        decreases trades.len() - i,
    {
        if !trades[i].is_valid() {
            return false;
        }
        i = i + 1;
    }
    true
}

/// Every record of the sequence is well formed.
pub open spec fn all_wf(s: Seq<Trade>) -> bool {
    forall|i: int| 0 <= i < s.len() ==> #[trigger] s[i].wf()
}

/// A request to record a trade.
#[derive(Debug)]
pub struct CreateTradeRequest {
    pub symbol: String,
    pub direction: String,
    pub entry_price: Amount,
    pub exit_price: Option<Amount>,
    pub quantity: Amount,
    pub entry_time: i64,
    pub exit_time: Option<i64>,
    pub fees: Option<Amount>,
    pub notes: Option<String>,
    pub tags: Option<Vec<String>>,
    pub setup_type: Option<String>,
    pub mistakes: Option<Vec<String>>,
    pub emotions: Option<Vec<String>>,
    pub broker: Option<String>,
    pub account_id: Option<String>,
}

impl CreateTradeRequest {
    pub open spec fn wf(self) -> bool {
        &&& self.entry_price.wf()
        &&& opt_wf(self.exit_price)
        &&& self.quantity.wf()
        &&& opt_wf(self.fees)
    }
}

impl CreateTradeRequest {
    /// Whether every amount of the request is representable.
    pub fn is_valid(&self) -> (r: bool)
        ensures
            r == self.wf(),
    {
        self.entry_price.is_valid() && opt_valid(&self.exit_price) && self.quantity.is_valid()
            && opt_valid(&self.fees)
    }
}

/// What a new trade's row holds beyond the request: its result, fees and status.
#[derive(Debug)]
pub struct NewTradeFields {
    pub pnl: Option<Amount>,
    pub pnl_percentage: Option<Amount>,
    pub fees: Amount,
    pub status: &'static str,
}

/// One hundred, as the factor of a percentage.
pub open spec fn hundred() -> Amount {
    Amount { mantissa: 100, scale: 0 }
}

/// Profit and loss of a closed position, and the price move as a percentage
/// of the entry price: `diff * quantity - fees` and `diff / entry * 100`,
/// where `diff` is `exit - entry` for a long position and `entry - exit`
/// otherwise. `None` where `rust_decimal` overflows or the entry price is zero.
pub open spec fn pnl_of(long: bool, entry: Amount, exit: Amount, quantity: Amount, fees: Amount) -> Option<(Amount, Amount)> {
    let diff = if long {
        decimal_difference(exit, entry)
    } else {
        decimal_difference(entry, exit)
    };
    match diff {
        Some(d) => match (decimal_product(d, quantity), decimal_quotient(d, entry)) {
            (Some(gross), Some(ratio)) => match (
                decimal_difference(gross, fees),
                decimal_product(ratio, hundred()),
            ) {
                (Some(pnl), Some(pct)) => Some((pnl, pct)),
                _ => None,
            },
            _ => None,
        },
        None => None,
    }
}

/// Whether `direction` names a long position.
pub fn is_long(direction: &str) -> (r: bool)
    ensures
        r == (direction@ == "long"@),
{
    same_text(direction, "long")
}

/// The realised P&L and percentage of a position (see [`pnl_of`]).
pub fn compute_pnl(long: bool, entry: &Amount, exit: &Amount, quantity: &Amount, fees: &Amount) -> (r: Option<(Amount, Amount)>)
    requires
        entry.wf(),
        exit.wf(),
        quantity.wf(),
        fees.wf(),
    ensures
        r == pnl_of(long, *entry, *exit, *quantity, *fees),
{
    let diff = if long {
        checked_sub(exit, entry)
    } else {
        checked_sub(entry, exit)
    };
    let d = match diff {
        Some(d) => d,
        None => {
            return None;
        },
    };
    let gross = checked_mul(&d, quantity);
    let ratio = checked_div(&d, entry);
    match (gross, ratio) {
        (Some(g), Some(q)) => {
            let hundred = Amount { mantissa: 100, scale: 0 };
            match (checked_sub(&g, fees), checked_mul(&q, &hundred)) {
                (Some(p), Some(pct)) => Some((p, pct)),
                _ => None,
            }
        },
        _ => None,
    }
}

impl Trade {
    /// The trade's P&L and percentage from its prices, quantity and fees;
    /// `None` while it has no exit price.
    pub fn calculate_pnl(&self) -> (r: Result<Option<(Amount, Amount)>, AppError>)
        requires
            self.wf(),
        ensures
            self.exit_price is None ==> r matches Ok(None),
            self.exit_price matches Some(x) ==> match pnl_of(
                self.direction@ == "long"@,
                self.entry_price,
                x,
                self.quantity,
                self.fees,
            ) {
                Some(p) => r matches Ok(Some(q)) && q == p,
                None => r matches Err(AppError::InternalServerError(m)) && m@ == overflow_message(),
            },
    {
        match &self.exit_price {
            Some(x) => {
                let long = is_long(self.direction.as_str());
                match compute_pnl(long, &self.entry_price, x, &self.quantity, &self.fees) {
                    Some(p) => Ok(Some(p)),
                    None => Err(AppError::overflow()),
                }
            },
            None => Ok(None),
        }
    }
}

/// The result, fees and status stored with a new trade: with an exit price
/// the trade is closed and its P&L computed (fees default to zero), without
/// one it is open and has none.
pub fn new_trade_fields(req: &CreateTradeRequest) -> (r: Result<NewTradeFields, AppError>)
    requires
        req.wf(),
    ensures
        ({
            let fees = match req.fees {
                Some(f) => f,
                None => Amount { mantissa: 0, scale: 0 },
            };
            match req.exit_price {
                None => r matches Ok(n) && n.pnl is None && n.pnl_percentage is None && n.fees
                    == fees && n.status@ == "open"@,
                Some(x) => match pnl_of(
                    req.direction@ == "long"@,
                    req.entry_price,
                    x,
                    req.quantity,
                    fees,
                ) {
                    Some(p) => r matches Ok(n) && n.pnl == Some(p.0) && n.pnl_percentage == Some(p.1)
                        && n.fees == fees && n.status@ == "closed"@,
                    None => r matches Err(AppError::InternalServerError(m)) && m@
                        == overflow_message(),
                },
            }
        }),
{
    let fees = match req.fees {
        Some(f) => f,
        None => Amount::zero(),
    };
    match &req.exit_price {
        Some(x) => {
            let long = is_long(req.direction.as_str());
            match compute_pnl(long, &req.entry_price, x, &req.quantity, &fees) {
                Some(p) => Ok(
                    NewTradeFields {
                        pnl: Some(p.0),
                        pnl_percentage: Some(p.1),
                        fees,
                        status: "closed",
                    },
                ),
                None => Err(AppError::overflow()),
            }
        },
        None => Ok(NewTradeFields { pnl: None, pnl_percentage: None, fees, status: "open" }),
    }
}

/// Accepts "long" and "short" as directions and rejects anything else.
pub fn validate_direction(direction: &str) -> (r: Result<(), AppError>)
    ensures
        r is Ok <==> (direction@ == "long"@ || direction@ == "short"@),
        r matches Err(e) ==> e matches AppError::ValidationError(m) && m@
            == "Direction must be 'long' or 'short'"@,
{
    if same_text(direction, "long") || same_text(direction, "short") {
        Ok(())
    } else {
        Err(AppError::ValidationError(String::from_str("Direction must be 'long' or 'short'")))
    }
}

} // verus!
