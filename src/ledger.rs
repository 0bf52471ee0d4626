use vstd::prelude::*;
use crate::keys::position_of;

verus! {

/// Symbols that have already raised an alert.
///
/// Reset policy: none. A symbol that entered the ledger stays there for the
/// life of the value, so a symbol alerts at most once, even when its prices
/// converge and later diverge again. The type offers no removal on purpose.
pub struct AlertLedger {
    symbols: Vec<String>,
    model: Ghost<Set<Seq<char>>>,
}

impl View for AlertLedger {
    type V = Set<Seq<char>>;

    closed spec fn view(&self) -> Set<Seq<char>> {
        self.model@
    }
}

impl AlertLedger {
    /// The model holds exactly the stored symbols.
    pub closed spec fn wf(&self) -> bool {
        forall|k: Seq<char>|
            #[trigger] self.model@.contains(k) <==> exists|i: int|
                0 <= i < self.symbols@.len() && self.symbols@[i]@ == k
    }

    /// An empty ledger: no symbol has alerted yet.
    pub fn new() -> (r: AlertLedger)
        ensures
            r.wf(),
            r@ == Set::<Seq<char>>::empty(),
    {
        AlertLedger { symbols: Vec::new(), model: Ghost(Set::empty()) }
    }

    /// Whether `symbol` has already alerted.
    pub fn contains(&self, symbol: &str) -> (r: bool)
        requires
            self.wf(),
        ensures
            r == self@.contains(symbol@),
    {
        let key = symbol.to_owned();
        let found = position_of(&self.symbols, &key);
        proof {
            if let Some(i) = found {
                assert(self.symbols@[i as int]@ == symbol@);
            }
        }
        found.is_some()
    }

    /// Adds `symbol` unless it is there already, as one indivisible step.
    /// Returns whether it was added, that is whether it was absent before.
    pub fn insert(&mut self, symbol: &str) -> (added: bool)
        requires
            old(self).wf(),
        ensures
            final(self).wf(),
            added == !old(self)@.contains(symbol@),
            final(self)@ == old(self)@.insert(symbol@),
    {
        let key = symbol.to_owned();
        match position_of(&self.symbols, &key) {
            Some(i) => {
                assert(self.symbols@[i as int]@ == symbol@);
                assert(self@.insert(symbol@) =~= self@);
                false
            },
            None => {
                let ghost old_symbols = self.symbols@;
                self.symbols.push(key);
                self.model = Ghost(self.model@.insert(symbol@));
                assert forall|k: Seq<char>| #[trigger] self.model@.contains(k) <==> exists|i: int|
                    0 <= i < self.symbols@.len() && self.symbols@[i]@ == k by {
                    if k == symbol@ {
                        assert(self.symbols@[old_symbols.len() as int]@ == k);
                    }
                    if exists|i: int| 0 <= i < self.symbols@.len() && self.symbols@[i]@ == k {
                        let i = choose|i: int|
                            0 <= i < self.symbols@.len() && self.symbols@[i]@ == k;
                        if i < old_symbols.len() {
                            assert(old_symbols[i]@ == k);
                        }
                    }
                    if old(self).model@.contains(k) {
                        let i = choose|i: int| 0 <= i < old_symbols.len() && old_symbols[i]@ == k;
                        assert(self.symbols@[i]@ == k);
                    }
                }
                true
            },
        }
    }
}

} // verus!
