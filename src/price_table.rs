use vstd::prelude::*;
use crate::keys::position_of;

verus! {

/// The price a table holds for `symbol`, with 0 for a symbol never seen.
pub open spec fn price_in(table: Map<Seq<char>, u64>, symbol: Seq<char>) -> u64 {
    if table.contains_key(symbol) {
        table[symbol]
    } else {
        0
    }
}

/// Latest observed price of each symbol for one data source.
///
/// A price is a fixed-point amount in units of `PRICE_SCALE`ths; 0 stands for
/// "unknown". Writes are last-write-wins and entries are never removed.
pub struct PriceTable {
    symbols: Vec<String>,
    prices: Vec<u64>,
    model: Ghost<Map<Seq<char>, u64>>,
}

impl View for PriceTable {
    type V = Map<Seq<char>, u64>;

    closed spec fn view(&self) -> Map<Seq<char>, u64> {
        self.model@
    }
}

impl PriceTable {
    /// The two vectors run in parallel, no symbol occurs twice, and the model
    /// maps exactly the stored symbols to their prices.
    pub closed spec fn wf(&self) -> bool {
        &&& self.symbols@.len() == self.prices@.len()
        &&& forall|i: int, j: int|
            0 <= i < j < self.symbols@.len() ==> self.symbols@[i]@ != self.symbols@[j]@
        &&& forall|i: int|
            0 <= i < self.symbols@.len() ==> {
                &&& #[trigger] self.model@.contains_key(self.symbols@[i]@)
                &&& self.model@[self.symbols@[i]@] == self.prices@[i]
            }
        &&& forall|k: Seq<char>|
            #[trigger] self.model@.contains_key(k) ==> exists|i: int|
                0 <= i < self.symbols@.len() && self.symbols@[i]@ == k
    }

    /// An empty table.
    pub fn new() -> (r: PriceTable)
        ensures
            r.wf(),
            r@ == Map::<Seq<char>, u64>::empty(),
    {
        PriceTable { symbols: Vec::new(), prices: Vec::new(), model: Ghost(Map::empty()) }
    }

    /// Stores `price` for `symbol`, replacing whatever was there.
    pub fn set(&mut self, symbol: &str, price: u64)
        requires
            old(self).wf(),
        ensures
            final(self).wf(),
            final(self)@ == old(self)@.insert(symbol@, price),
    {
        let key = symbol.to_owned();
        match position_of(&self.symbols, &key) {
            Some(i) => {
                self.prices[i] = price;
                self.model = Ghost(self.model@.insert(symbol@, price));
                assert forall|k: Seq<char>| #[trigger] self.model@.contains_key(k) implies exists|
                    j: int,
                | 0 <= j < self.symbols@.len() && self.symbols@[j]@ == k by {
                    if k == symbol@ {
                        assert(self.symbols@[i as int]@ == k);
                    } else {
                        let j = choose|j: int|
                            0 <= j < old(self).symbols@.len() && old(self).symbols@[j]@ == k;
                        assert(self.symbols@[j]@ == k);
                    }
                }
            },
            None => {
                self.symbols.push(key);
                self.prices.push(price);
                self.model = Ghost(self.model@.insert(symbol@, price));
                assert forall|k: Seq<char>| #[trigger] self.model@.contains_key(k) implies exists|
                    j: int,
                | 0 <= j < self.symbols@.len() && self.symbols@[j]@ == k by {
                    if k == symbol@ {
                        assert(self.symbols@[self.symbols@.len() - 1]@ == k);
                    } else {
                        let j = choose|j: int|
                            0 <= j < old(self).symbols@.len() && old(self).symbols@[j]@ == k;
                        assert(self.symbols@[j]@ == k);
                    }
                }
            },
        }
    }

    /// The price stored for `symbol`, or 0 when it was never observed.
    pub fn get(&self, symbol: &str) -> (r: u64)
        requires
            self.wf(),
        ensures
            r == price_in(self@, symbol@),
    {
        let key = symbol.to_owned();
        match position_of(&self.symbols, &key) {
            Some(i) => self.prices[i],
            None => {
                proof {
                    if self@.contains_key(symbol@) {
                        let j = choose|j: int|
                            0 <= j < self.symbols@.len() && self.symbols@[j]@ == symbol@;
                        assert(self.symbols@[j]@ == symbol@);
                    }
                }
                0
            },
        }
    }
}

} // verus!
