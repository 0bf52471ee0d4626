use vstd::prelude::*;
use crate::ledger::AlertLedger;
use crate::price_table::{PriceTable, price_in};

verus! {

/// Alert threshold, in whole percent of source A's price.
pub const THRESHOLD_PERCENT: u64 = 5;

/// A divergence is reported in units of 1/DIVERGENCE_SCALE of a percent.
pub const DIVERGENCE_SCALE: u64 = 100_000;

pub open spec fn abs_diff(a: int, b: int) -> int {
    if a >= b {
        a - b
    } else {
        b - a
    }
}

/// `|(a - b) / a| * 100 >= THRESHOLD_PERCENT`, without division: the
/// distance is measured against source A's price, not symmetrically.
pub open spec fn diverges(a: int, b: int) -> bool {
    abs_diff(a, b) * 100 >= THRESHOLD_PERCENT * a
}

/// `|(a - b) / a| * 100`, in units of 1/DIVERGENCE_SCALE of a percent,
/// rounded to the nearest unit (halves up).
pub open spec fn divergence_units(a: int, b: int) -> int
    recommends
        a > 0,
{
    (2 * abs_diff(a, b) * 100 * DIVERGENCE_SCALE + a) / (2 * a)
}

/// Whether evaluating `symbol` owes a notification: both prices are known,
/// they diverge, and the symbol has not alerted before.
pub open spec fn alert_due(a: u64, b: u64, alerted: Set<Seq<char>>, symbol: Seq<char>) -> bool {
    a != 0 && b != 0 && diverges(a as int, b as int) && !alerted.contains(symbol)
}

/// The ledger after evaluating `symbol`: it gains the symbol exactly when an
/// alert is due.
pub open spec fn ledger_after(
    a: u64,
    b: u64,
    alerted: Set<Seq<char>>,
    symbol: Seq<char>,
) -> Set<Seq<char>> {
    if alert_due(a, b, alerted, symbol) {
        alerted.insert(symbol)
    } else {
        alerted
    }
}

/// What a notification reports: one symbol's two prices and how far apart
/// they are, at the time of the evaluation.
pub struct DivergenceEvent {
    pub symbol: String,
    pub price_a: u64,
    pub price_b: u64,
    /// `|(price_a - price_b) / price_a| * 100`, in units of
    /// 1/DIVERGENCE_SCALE of a percent.
    pub divergence: u128,
    /// Milliseconds since the Unix epoch.
    pub timestamp_ms: i64,
}

/// The relative divergence of `b` from `a`, as a percentage of `a`, in units
/// of 1/DIVERGENCE_SCALE of a percent, rounded to the nearest unit.
pub fn divergence(a: u64, b: u64) -> (r: u128)
    requires
        a > 0,
    ensures
        r == divergence_units(a as int, b as int),
{
    let d: u128 = if a >= b { (a - b) as u128 } else { (b - a) as u128 };
    assert(d < 0x1_0000_0000_0000_0000);
    assert(2 * d * 100 * (DIVERGENCE_SCALE as u128) < 0x1_0000_0000_0000_0000 * 0x1_0000_0000)
        by (nonlinear_arith)
        requires
            d < 0x1_0000_0000_0000_0000,
    ;
    let num: u128 = 2 * d * 100 * (DIVERGENCE_SCALE as u128) + a as u128;
    let den: u128 = 2 * (a as u128);
    num / den
}

/// Whether `b` diverges from `a` by at least the threshold.
pub fn reaches_threshold(a: u64, b: u64) -> (r: bool)
    ensures
        r == diverges(a as int, b as int),
{
    let d: u128 = if a >= b { (a - b) as u128 } else { (b - a) as u128 };
    assert((THRESHOLD_PERCENT as u128) * (a as u128) < 0x1_0000_0000_0000_0000 * 8)
        by (nonlinear_arith)
        requires
            a < 0x1_0000_0000_0000_0000,
            THRESHOLD_PERCENT < 8,
    ;
    let limit: u128 = (THRESHOLD_PERCENT as u128) * (a as u128);
    d * 100 >= limit
}

/// Compares the latest prices of `symbol` in the two tables and decides
/// whether to notify.
///
/// When either price is unknown (0), or the divergence stays under the
/// threshold, nothing happens. Otherwise the symbol is checked against and
/// inserted into the ledger in one step: the first such evaluation returns
/// the event to deliver, every later one returns `None`. The ledger keeps the
/// symbol whatever becomes of the delivery.
pub fn evaluate(
    table_a: &PriceTable,
    table_b: &PriceTable,
    ledger: &mut AlertLedger,
    symbol: &str,
    timestamp_ms: i64,
) -> (r: Option<DivergenceEvent>)
    requires
        table_a.wf(),
        table_b.wf(),
        old(ledger).wf(),
    ensures
        final(ledger).wf(),
        ({
            let a = price_in(table_a@, symbol@);
            let b = price_in(table_b@, symbol@);
            &&& final(ledger)@ == ledger_after(a, b, old(ledger)@, symbol@)
            &&& r is Some <==> alert_due(a, b, old(ledger)@, symbol@)
            &&& r matches Some(e) ==> {
                &&& e.symbol@ == symbol@
                &&& e.price_a == a
                &&& e.price_b == b
                &&& e.divergence == divergence_units(a as int, b as int)
                &&& e.timestamp_ms == timestamp_ms
            }
        }),
{
    let a = table_a.get(symbol);
    let b = table_b.get(symbol);
    if a == 0 || b == 0 {
        return None;
    }
    if !reaches_threshold(a, b) {
        return None;
    }
    if !ledger.insert(symbol) {
        return None;
    }
    Some(
        DivergenceEvent {
            symbol: symbol.to_owned(),
            price_a: a,
            price_b: b,
            divergence: divergence(a, b),
            timestamp_ms,
        },
    )
}

} // verus!
