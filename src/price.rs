use vstd::prelude::*;
use vstd::utf8::is_ascii_chars;

verus! {

broadcast use vstd::string::is_ascii_spec_bytes;

/// Number of decimal places a price keeps.
pub const PRICE_DECIMALS: usize = 10;

/// A price is held as an integer count of 1/PRICE_SCALE units of the quote
/// currency: 1.5 is `15_000_000_000`.
pub const PRICE_SCALE: u64 = 10_000_000_000;

const ASCII_ZERO: u8 = 48;

const ASCII_NINE: u8 = 57;

const ASCII_POINT: u8 = 46;

pub open spec fn is_digit(c: char) -> bool {
    '0' <= c && c <= '9'
}

pub open spec fn digit_value(c: char) -> nat {
    if is_digit(c) {
        (c as int - '0' as int) as nat
    } else {
        0
    }
}

pub open spec fn all_digits(s: Seq<char>) -> bool {
    forall|i: int| 0 <= i < s.len() ==> is_digit(#[trigger] s[i])
}

/// The number that a string of decimal digits writes.
pub open spec fn digits_value(s: Seq<char>) -> nat
    decreases s.len(),
{
    if s.len() == 0 {
        0
    } else {
        digits_value(s.drop_last()) * 10 + digit_value(s.last())
    }
}

/// `s` is digits, a point at `p`, and digits, with digits on both sides.
pub open spec fn has_point_at(s: Seq<char>, p: int) -> bool {
    &&& 0 < p < s.len() - 1
    &&& s[p] == '.'
    &&& all_digits(s.take(p))
    &&& all_digits(s.skip(p + 1))
}

/// A plain decimal number: `123` or `123.45`, with no sign or exponent.
pub open spec fn is_decimal(s: Seq<char>) -> bool {
    (s.len() > 0 && all_digits(s)) || exists|p: int| has_point_at(s, p)
}

/// The fraction digits cut or padded with zeros to exactly PRICE_DECIMALS.
pub open spec fn fraction_places(f: Seq<char>) -> Seq<char> {
    if f.len() >= PRICE_DECIMALS {
        f.take(PRICE_DECIMALS as int)
    } else {
        f + Seq::new((PRICE_DECIMALS - f.len()) as nat, |_i: int| '0')
    }
}

/// The digits of a decimal with its point moved PRICE_DECIMALS places right.
pub open spec fn scaled_digits(s: Seq<char>) -> Seq<char> {
    if s.len() > 0 && all_digits(s) {
        s + fraction_places(Seq::empty())
    } else {
        let p = choose|p: int| has_point_at(s, p);
        s.take(p) + fraction_places(s.skip(p + 1))
    }
}

/// A decimal as a count of 1/PRICE_SCALE units, digits past
/// PRICE_DECIMALS places dropped.
pub open spec fn decimal_units(s: Seq<char>) -> nat {
    digits_value(scaled_digits(s))
}

proof fn lemma_prefix_value_le(t: Seq<char>, k: int)
    requires
        0 <= k <= t.len(),
    ensures
        digits_value(t.take(k)) <= digits_value(t),
    decreases t.len() - k,
{
    if k == t.len() {
        assert(t.take(k) =~= t);
    } else {
        lemma_prefix_value_le(t, k + 1);
        assert(t.take(k + 1).drop_last() =~= t.take(k));
    }
}

fn is_digit_byte(b: u8) -> (r: bool)
    ensures
        r == (ASCII_ZERO <= b <= ASCII_NINE),
{
    ASCII_ZERO <= b && b <= ASCII_NINE
}

/// Reads a price written as a plain decimal (`"65432.5"`, `"0.0123"`).
/// `None` when the text is not such a decimal, or the price does not fit.
pub fn parse_price(text: &str) -> (r: Option<u64>)
    ensures
        r == (if is_decimal(text@) && decimal_units(text@) <= u64::MAX {
            Some(decimal_units(text@) as u64)
        } else {
            None::<u64>
        }),
{
    let ghost s = text@;
    if !text.is_ascii() {
        proof {
            if is_decimal(s) {
                assert(is_ascii_chars(s)) by {
                    if !(s.len() > 0 && all_digits(s)) {
                        let p = choose|p: int| has_point_at(s, p);
                        assert forall|i: int| 0 <= i < s.len() implies '\0' <= #[trigger] s[i]
                            <= '\u{7f}' by {
                            if i < p {
                                assert(s.take(p)[i] == s[i]);
                            } else if i > p {
                                assert(s.skip(p + 1)[i - p - 1] == s[i]);
                            }
                        }
                    }
                }
            }
        }
        return None;
    }
    let bytes = text.as_bytes();
    let n = bytes.len();
    assert(bytes@.len() == s.len());
    assert(forall|k: int| 0 <= k < s.len() ==> bytes@[k] == s[k] as u8);
    // The run of integer digits.
    let mut i: usize = 0;
    while i < n && is_digit_byte(bytes[i])
        invariant
            i <= n,
            n == s.len(),
            s == text@,
            bytes@.len() == s.len(),
            forall|k: int| 0 <= k < s.len() ==> bytes@[k] == s[k] as u8,
            is_ascii_chars(s),
            all_digits(s.take(i as int)),
        decreases n - i,
    {
        assert(s.take(i + 1) =~= s.take(i as int).push(s[i as int]));
        i = i + 1;
    }
    if i == 0 {
        proof {
            if exists|p: int| has_point_at(s, p) {
                let p = choose|p: int| has_point_at(s, p);
                assert(s.take(p)[0] == s[0]);
            }
        }
        return None;
    }
    // The fraction digits, if a point follows.
    let mut frac_start: usize = n;
    if i < n {
        if bytes[i] != ASCII_POINT || i + 1 == n {
            proof {
                assert(!is_digit(s[i as int]));
                if exists|p: int| has_point_at(s, p) {
                    let p = choose|p: int| has_point_at(s, p);
                    if p < i {
                        assert(s.take(i as int)[p] == s[p]);
                    } else if p > i {
                        assert(s.take(p)[i as int] == s[i as int]);
                    }
                }
            }
            return None;
        }
        let mut j: usize = i + 1;
        while j < n
            invariant
                i < j <= n,
                n == s.len(),
                s == text@,
                bytes@.len() == s.len(),
                forall|k: int| 0 <= k < s.len() ==> bytes@[k] == s[k] as u8,
                is_ascii_chars(s),
                forall|k: int| i < k < j ==> is_digit(#[trigger] s[k]),
                bytes@[i as int] == ASCII_POINT,
                all_digits(s.take(i as int)),
            decreases n - j,
        {
            if !is_digit_byte(bytes[j]) {
                proof {
                    assert(!is_digit(s[j as int]));
                    assert(s[i as int] == '.');
                    assert(!all_digits(s));
                    if exists|p: int| has_point_at(s, p) {
                        let p = choose|p: int| has_point_at(s, p);
                        if p < i {
                            assert(s.take(i as int)[p] == s[p]);
                        } else if p > i {
                            assert(s.take(p)[i as int] == s[i as int]);
                        } else {
                            assert(s.skip(p + 1)[j - p - 1] == s[j as int]);
                        }
                    }
                }
                return None;
            }
            j = j + 1;
        }
        frac_start = i + 1;
    }
    let ghost frac = if i == n { Seq::<char>::empty() } else { s.skip(i + 1) };
    let ghost t = s.take(i as int) + fraction_places(frac);
    proof {
        if i == n {
            assert(s.take(i as int) =~= s);
            assert(scaled_digits(s) == t);
        } else {
            assert(has_point_at(s, i as int)) by {
                assert forall|k: int| 0 <= k < s.skip(i + 1).len() implies is_digit(
                    #[trigger] s.skip(i + 1)[k],
                ) by {
                    assert(s.skip(i + 1)[k] == s[i + 1 + k]);
                }
            }
            assert(!all_digits(s));
            let p = choose|p: int| has_point_at(s, p);
            if p < i {
                assert(s.take(i as int)[p] == s[p]);
            } else if p > i {
                assert(s.take(p)[i as int] == s[i as int]);
            }
            assert(scaled_digits(s) == t);
        }
        assert(is_decimal(s));
    }
    // Accumulate the integer digits, then exactly PRICE_DECIMALS places.
    let mut acc: u64 = 0;
    let mut k: usize = 0;
    while k < i
        invariant
            k <= i <= n,
            n == s.len(),
            s == text@,
            t == s.take(i as int) + fraction_places(frac),
            t.len() == i + PRICE_DECIMALS,
            bytes@.len() == s.len(),
            forall|q: int| 0 <= q < s.len() ==> bytes@[q] == s[q] as u8,
            is_ascii_chars(s),
            all_digits(t),
            is_decimal(s),
            acc == digits_value(t.take(k as int)),
            decimal_units(s) == digits_value(t),
        decreases i - k,
    {
        let b: u8 = bytes[k];
        assert(t[k as int] == s[k as int]);
        assert(s.take(i as int)[k as int] == s[k as int]);
        assert(b as int - ASCII_ZERO == digit_value(t[k as int]));
        let d = (b - ASCII_ZERO) as u64;
        assert(t.take(k + 1).drop_last() =~= t.take(k as int));
        if acc > (u64::MAX - d) / 10 {
            proof {
                lemma_prefix_value_le(t, k + 1);
                assert(digits_value(t.take(k + 1)) == acc * 10 + d);
                assert(acc * 10 + d > u64::MAX) by (nonlinear_arith)
                    requires
                        acc > (u64::MAX - d) / 10,
                        d <= 9,
                ;
                assert(decimal_units(s) > u64::MAX);
            }
            return None;
        }
        acc = acc * 10 + d;
        k = k + 1;
    }
    let mut q: usize = 0;
    while q < PRICE_DECIMALS
        invariant
            q <= PRICE_DECIMALS,
            i <= frac_start <= n,
            n == s.len(),
            s == text@,
            frac_start == (if i == n { n as int } else { i + 1 }),
            frac == (if i == n { Seq::<char>::empty() } else { s.skip(i + 1) }),
            t == s.take(i as int) + fraction_places(frac),
            t.len() == i + PRICE_DECIMALS,
            bytes@.len() == s.len(),
            forall|r: int| 0 <= r < s.len() ==> bytes@[r] == s[r] as u8,
            is_ascii_chars(s),
            all_digits(t),
            is_decimal(s),
            acc == digits_value(t.take(i + q)),
            decimal_units(s) == digits_value(t),
        decreases PRICE_DECIMALS - q,
    {
        let b: u8 = if q < n - frac_start {
            bytes[frac_start + q]
        } else {
            ASCII_ZERO
        };
        assert(b as int - ASCII_ZERO == digit_value(t[i + q])) by {
            assert(t[i + q] == fraction_places(frac)[q as int]);
            if q < n - frac_start {
                assert(frac[q as int] == s[frac_start + q]);
            }
        }
        let d = (b - ASCII_ZERO) as u64;
        assert(t.take(i + q + 1).drop_last() =~= t.take(i + q));
        if acc > (u64::MAX - d) / 10 {
            proof {
                lemma_prefix_value_le(t, i + q + 1);
                assert(digits_value(t.take(i + q + 1)) == acc * 10 + d);
                assert(acc * 10 + d > u64::MAX) by (nonlinear_arith)
                    requires
                        acc > (u64::MAX - d) / 10,
                        d <= 9,
                ;
                assert(decimal_units(s) > u64::MAX);
            }
            return None;
        }
        acc = acc * 10 + d;
        q = q + 1;
    }
    assert(t.take(i + PRICE_DECIMALS) =~= t);
    Some(acc)
}

} // verus!
