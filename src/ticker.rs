use vstd::prelude::*;
use vstd::string::StringExecFns;

verus! {

/// The canonical form of a perpetual's coin name: a leading `k` (a thousand
/// units) is written `1000`, and the quote currency `USDT` is appended.
pub open spec fn ticker_name(coin: Seq<char>) -> Seq<char> {
    let base = if coin.len() > 0 && coin[0] == 'k' {
        seq!['1', '0', '0', '0'] + coin.skip(1)
    } else {
        coin
    };
    base + seq!['U', 'S', 'D', 'T']
}

/// Relies on `str::strip_prefix` with a `char` pattern: `Some` of the rest of
/// the string exactly when it starts with that character.
#[verifier::external_body]
fn strip_leading(s: &str, c: char) -> (r: Option<&str>)
    ensures
        match r {
            Some(rest) => s@.len() > 0 && s@[0] == c && rest@ == s@.skip(1),
            None => !(s@.len() > 0 && s@[0] == c),
        },
{
    s.strip_prefix(c)
}

/// Rewrites a coin name of the exchange into the canonical symbol shared by
/// both price tables (`kPEPE` becomes `1000PEPEUSDT`, `BTC` becomes `BTCUSDT`).
pub fn format_ticker_name(coin: &str) -> (r: String)
    ensures
        r@ == ticker_name(coin@),
{
    proof {
        reveal_strlit("1000");
        reveal_strlit("USDT");
    }
    let base = match strip_leading(coin, 'k') {
        Some(rest) => String::from_str("1000").concat(rest),
        None => coin.to_owned(),
    };
    base.concat("USDT")
}

/// One asset of the exchange's universe: its coin name and whether it is
/// delisted.
pub struct AssetMeta {
    pub name: String,
    pub is_delisted: bool,
}

/// The canonical symbols of the assets that are still listed, in order.
pub open spec fn listed_tickers_of(universe: Seq<AssetMeta>) -> Seq<Seq<char>>
    decreases universe.len(),
{
    if universe.len() == 0 {
        Seq::empty()
    } else {
        let rest = listed_tickers_of(universe.drop_last());
        let last = universe.last();
        if last.is_delisted {
            rest
        } else {
            rest.push(ticker_name(last.name@))
        }
    }
}

/// The canonical symbols of the listed assets of `universe`, in its order;
/// delisted assets are left out.
pub fn listed_tickers(universe: &Vec<AssetMeta>) -> (r: Vec<String>)
    ensures
        r@.map_values(|s: String| s@) == listed_tickers_of(universe@),
{
    let mut out: Vec<String> = Vec::new();
    let mut i: usize = 0;
    while i < universe.len()
        invariant
            i <= universe@.len(),
            out@.map_values(|s: String| s@) == listed_tickers_of(universe@.subrange(0, i as int)),
        decreases universe@.len() - i,
    {
        proof {
            assert(universe@.subrange(0, i + 1).drop_last() =~= universe@.subrange(0, i as int));
        }
        let asset = &universe[i];
        if !asset.is_delisted {
            let name = format_ticker_name(asset.name.as_str());
            out.push(name);
        }
        i = i + 1;
        proof {
            assert(out@.map_values(|s: String| s@) =~= listed_tickers_of(
                universe@.subrange(0, i as int),
            ));
        }
    }
    assert(universe@.subrange(0, universe@.len() as int) =~= universe@);
    out
}

} // verus!
