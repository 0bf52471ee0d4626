use vstd::prelude::*;
use crate::evaluator::{abs_diff, alert_due, ledger_after, THRESHOLD_PERCENT};

verus! {

/// When either price is unknown (0), an evaluation neither notifies nor
/// touches the ledger.
pub proof fn lemma_unknown_price_is_inert(
    a: u64,
    b: u64,
    alerted: Set<Seq<char>>,
    symbol: Seq<char>,
)
    requires
        a == 0 || b == 0,
    ensures
        !alert_due(a, b, alerted, symbol),
        ledger_after(a, b, alerted, symbol) == alerted,
{
}

/// When `|(a - b) / a| * 100` is under the threshold, no notification fires
/// and the ledger stays as it was.
pub proof fn lemma_below_threshold_is_silent(
    a: u64,
    b: u64,
    alerted: Set<Seq<char>>,
    symbol: Seq<char>,
)
    requires
        a > 0,
        abs_diff(a as int, b as int) * 100 < THRESHOLD_PERCENT * a,
    ensures
        !alert_due(a, b, alerted, symbol),
        ledger_after(a, b, alerted, symbol) == alerted,
{
}

/// Once an evaluation has notified for a symbol, the symbol is in the ledger,
/// and no later evaluation of it notifies again, whatever its prices are and
/// whatever became of the first delivery.
pub proof fn lemma_alert_fires_once(
    a: u64,
    b: u64,
    alerted: Set<Seq<char>>,
    symbol: Seq<char>,
    later_a: u64,
    later_b: u64,
)
    requires
        alert_due(a, b, alerted, symbol),
    ensures
        ledger_after(a, b, alerted, symbol).contains(symbol),
        !alert_due(later_a, later_b, ledger_after(a, b, alerted, symbol), symbol),
        ledger_after(later_a, later_b, ledger_after(a, b, alerted, symbol), symbol)
            == ledger_after(a, b, alerted, symbol),
{
}

/// Two evaluations of one symbol that both see a first-time qualifying
/// divergence, in whichever order the ledger serializes them, notify exactly
/// once between them.
pub proof fn lemma_one_alert_per_race(
    a1: u64,
    b1: u64,
    a2: u64,
    b2: u64,
    alerted: Set<Seq<char>>,
    symbol: Seq<char>,
)
    requires
        !alerted.contains(symbol),
        a1 != 0 && b1 != 0 && abs_diff(a1 as int, b1 as int) * 100 >= THRESHOLD_PERCENT * a1,
        a2 != 0 && b2 != 0 && abs_diff(a2 as int, b2 as int) * 100 >= THRESHOLD_PERCENT * a2,
    ensures
        alert_due(a1, b1, alerted, symbol),
        !alert_due(a2, b2, ledger_after(a1, b1, alerted, symbol), symbol),
        alert_due(a2, b2, alerted, symbol),
        !alert_due(a1, b1, ledger_after(a2, b2, alerted, symbol), symbol),
{
}

} // verus!
