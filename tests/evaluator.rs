use divergence_alert::evaluator::{divergence, evaluate, reaches_threshold, DIVERGENCE_SCALE};
use divergence_alert::ledger::AlertLedger;
use divergence_alert::price::PRICE_SCALE;
use divergence_alert::price_table::PriceTable;
use divergence_alert::telegram::{delivery_outcome, DeliveryError};

fn tables(symbol: &str, a: u64, b: u64) -> (PriceTable, PriceTable) {
    let mut ta = PriceTable::new();
    let mut tb = PriceTable::new();
    ta.set(symbol, a);
    tb.set(symbol, b);
    (ta, tb)
}

#[test]
fn unknown_price_does_nothing() {
    let mut ledger = AlertLedger::new();
    let (ta, tb) = tables("BTCUSDT", 100 * PRICE_SCALE, 0);
    assert!(evaluate(&ta, &tb, &mut ledger, "BTCUSDT", 1).is_none());
    assert!(!ledger.contains("BTCUSDT"));
    let (ta, tb) = tables("BTCUSDT", 0, 94 * PRICE_SCALE);
    assert!(evaluate(&ta, &tb, &mut ledger, "BTCUSDT", 1).is_none());
    assert!(!ledger.contains("BTCUSDT"));
}

#[test]
fn absent_symbol_does_nothing() {
    let mut ledger = AlertLedger::new();
    let (ta, tb) = tables("BTCUSDT", 100 * PRICE_SCALE, 50 * PRICE_SCALE);
    assert!(evaluate(&ta, &tb, &mut ledger, "ETHUSDT", 1).is_none());
    assert!(!ledger.contains("ETHUSDT"));
}

#[test]
fn below_threshold_is_silent() {
    let mut ledger = AlertLedger::new();
    let (ta, tb) = tables("BTCUSDT", 100 * PRICE_SCALE, 96 * PRICE_SCALE);
    assert!(evaluate(&ta, &tb, &mut ledger, "BTCUSDT", 1).is_none());
    assert!(!ledger.contains("BTCUSDT"));
    // 4.99% in the other direction
    let (ta, tb) = tables("BTCUSDT", 10_000, 10_499);
    assert!(evaluate(&ta, &tb, &mut ledger, "BTCUSDT", 1).is_none());
    assert!(!ledger.contains("BTCUSDT"));
}

#[test]
fn exactly_threshold_alerts() {
    assert!(reaches_threshold(100, 95));
    assert!(reaches_threshold(100, 105));
    assert!(!reaches_threshold(10_000, 9_501));
    let mut ledger = AlertLedger::new();
    let (ta, tb) = tables("SOLUSDT", 100, 105);
    assert!(evaluate(&ta, &tb, &mut ledger, "SOLUSDT", 1).is_some());
}

#[test]
fn first_divergence_notifies_once() {
    let mut ledger = AlertLedger::new();
    let (ta, tb) = tables("BTCUSDT", 100 * PRICE_SCALE, 94 * PRICE_SCALE);
    let event = evaluate(&ta, &tb, &mut ledger, "BTCUSDT", 1_700_000_000_000).unwrap();
    assert_eq!(event.symbol, "BTCUSDT");
    assert_eq!(event.price_a, 100 * PRICE_SCALE);
    assert_eq!(event.price_b, 94 * PRICE_SCALE);
    assert_eq!(event.divergence, 6 * DIVERGENCE_SCALE as u128);
    assert_eq!(event.timestamp_ms, 1_700_000_000_000);
    assert!(ledger.contains("BTCUSDT"));
}

#[test]
fn repeated_evaluation_does_not_realert() {
    let mut ledger = AlertLedger::new();
    let (ta, tb) = tables("BTCUSDT", 100 * PRICE_SCALE, 94 * PRICE_SCALE);
    assert!(evaluate(&ta, &tb, &mut ledger, "BTCUSDT", 1).is_some());
    assert!(evaluate(&ta, &tb, &mut ledger, "BTCUSDT", 2).is_none());
    let (ta, tb) = tables("BTCUSDT", 100 * PRICE_SCALE, 80 * PRICE_SCALE);
    assert!(evaluate(&ta, &tb, &mut ledger, "BTCUSDT", 3).is_none());
    // converging and diverging again still does not re-alert
    let (ta, tb) = tables("BTCUSDT", 100 * PRICE_SCALE, 100 * PRICE_SCALE);
    assert!(evaluate(&ta, &tb, &mut ledger, "BTCUSDT", 4).is_none());
    let (ta, tb) = tables("BTCUSDT", 100 * PRICE_SCALE, 90 * PRICE_SCALE);
    assert!(evaluate(&ta, &tb, &mut ledger, "BTCUSDT", 5).is_none());
}

#[test]
fn racing_evaluations_notify_once() {
    let mut ledger = AlertLedger::new();
    let (ta1, tb1) = tables("ETHUSDT", 100 * PRICE_SCALE, 94 * PRICE_SCALE);
    let (ta2, tb2) = tables("ETHUSDT", 100 * PRICE_SCALE, 93 * PRICE_SCALE);
    let first = evaluate(&ta1, &tb1, &mut ledger, "ETHUSDT", 1);
    let second = evaluate(&ta2, &tb2, &mut ledger, "ETHUSDT", 1);
    let count = [first.is_some(), second.is_some()].iter().filter(|x| **x).count();
    assert_eq!(count, 1);
}

#[test]
fn divergence_is_directional() {
    let forward = divergence(100 * PRICE_SCALE, 94 * PRICE_SCALE);
    let backward = divergence(94 * PRICE_SCALE, 100 * PRICE_SCALE);
    assert_eq!(forward, 600_000);
    assert_eq!(backward, 638_298);
    assert_ne!(forward, backward);
}

#[test]
fn divergence_rounds_to_nearest() {
    // 1/3 % = 0.333333...% -> 33333 units; 2/3 % -> 66667 units
    assert_eq!(divergence(300, 299), 33_333);
    assert_eq!(divergence(300, 298), 66_667);
    assert_eq!(divergence(1, 1), 0);
    assert_eq!(divergence(1, u64::MAX), (u64::MAX as u128 - 1) * 10_000_000);
}

#[test]
fn failed_delivery_keeps_symbol_alerted() {
    let mut ledger = AlertLedger::new();
    let (ta, tb) = tables("DOGEUSDT", 100 * PRICE_SCALE, 94 * PRICE_SCALE);
    assert!(evaluate(&ta, &tb, &mut ledger, "DOGEUSDT", 1).is_some());
    assert_eq!(delivery_outcome(500), Err(DeliveryError::Rejected(500)));
    assert!(ledger.contains("DOGEUSDT"));
    assert!(evaluate(&ta, &tb, &mut ledger, "DOGEUSDT", 2).is_none());
}

#[test]
fn symbols_alert_independently() {
    let mut ledger = AlertLedger::new();
    let mut ta = PriceTable::new();
    let mut tb = PriceTable::new();
    ta.set("BTCUSDT", 100);
    tb.set("BTCUSDT", 90);
    ta.set("ETHUSDT", 100);
    tb.set("ETHUSDT", 110);
    assert!(evaluate(&ta, &tb, &mut ledger, "BTCUSDT", 1).is_some());
    assert!(evaluate(&ta, &tb, &mut ledger, "ETHUSDT", 1).is_some());
    assert!(evaluate(&ta, &tb, &mut ledger, "BTCUSDT", 1).is_none());
}
