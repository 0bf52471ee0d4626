use vstd::prelude::*;
use crate::price::{decimal_units, is_decimal, parse_price};
use crate::price_table::PriceTable;
use crate::ticker::{format_ticker_name, ticker_name};

verus! {

/// The price a tick's text stands for: its decimal value, or 0 ("unknown")
/// when the text is not a decimal that fits.
pub open spec fn tick_price(text: Seq<char>) -> u64 {
    if is_decimal(text) && decimal_units(text) <= u64::MAX {
        decimal_units(text) as u64
    } else {
        0
    }
}

/// A table after recording each (coin, price text) tick of `mids` in order.
pub open spec fn mids_applied(
    table: Map<Seq<char>, u64>,
    mids: Seq<(String, String)>,
) -> Map<Seq<char>, u64>
    decreases mids.len(),
{
    if mids.len() == 0 {
        table
    } else {
        mids_applied(table, mids.drop_last()).insert(
            ticker_name(mids.last().0@),
            tick_price(mids.last().1@),
        )
    }
}

/// Records a batch of mid prices, keyed by the exchange's coin names, into
/// `table` under the canonical symbols, in order. Returns the symbols written,
/// one per tick, so that each can then be evaluated.
pub fn apply_mids(table: &mut PriceTable, mids: &Vec<(String, String)>) -> (r: Vec<String>)
    requires
        old(table).wf(),
    ensures
        final(table).wf(),
        final(table)@ == mids_applied(old(table)@, mids@),
        r@.len() == mids@.len(),
        forall|i: int| 0 <= i < mids@.len() ==> #[trigger] r@[i]@ == ticker_name(mids@[i].0@),
{
    let mut written: Vec<String> = Vec::new();
    let mut i: usize = 0;
    while i < mids.len()
        invariant
            i <= mids@.len(),
            table.wf(),
            table@ == mids_applied(old(table)@, mids@.subrange(0, i as int)),
            written@.len() == i,
            forall|j: int| 0 <= j < i ==> #[trigger] written@[j]@ == ticker_name(mids@[j].0@),
        decreases mids@.len() - i,
    {
        proof {
            assert(mids@.subrange(0, i + 1).drop_last() =~= mids@.subrange(0, i as int));
        }
        let symbol = format_ticker_name(mids[i].0.as_str());
        let price = match parse_price(mids[i].1.as_str()) {
            Some(p) => p,
            None => 0,
        };
        table.set(symbol.as_str(), price);
        written.push(symbol);
        i = i + 1;
    }
    assert(mids@.subrange(0, mids@.len() as int) =~= mids@);
    written
}

} // verus!
