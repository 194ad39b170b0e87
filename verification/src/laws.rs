//! What holds between numbers and their numerals.

use crate::numeral::{
    all_symbols, digit, in_range, is_symbol, lax_value, numeral, peak, thousands, value_of, worth,
};
use crate::table::{lemma_pairs, pair_text, pair_value};
use vstd::prelude::*;

verus! {

/// What one more symbol in front does to a text: it counts negatively where
/// the text holds a larger one, and positively elsewhere.
proof fn lemma_symbol_in_front(c: char, s: Seq<char>)
    ensures
        all_symbols(seq![c] + s) <==> is_symbol(c) && all_symbols(s),
        peak(seq![c] + s) == if worth(c) >= peak(s) {
            worth(c)
        } else {
            peak(s)
        },
        lax_value(seq![c] + s) == if worth(c) < peak(s) {
            lax_value(s) - worth(c)
        } else {
            lax_value(s) + worth(c)
        },
{
    let t = seq![c] + s;
    assert(t.drop_first() =~= s);
    assert(t[0] == c);
    if is_symbol(c) && all_symbols(s) {
        assert forall|i: int| 0 <= i < t.len() implies is_symbol(#[trigger] t[i]) by {
            if i > 0 {
                assert(t[i] == s[i - 1]);
            }
        }
    }
    if all_symbols(t) {
        assert(is_symbol(t[0]));
        assert forall|i: int| 0 <= i < s.len() implies is_symbol(#[trigger] s[i]) by {
            assert(s[i] == t[i + 1]);
        }
    }
}

/// A digit in front of a text that holds nothing above the digit's unit adds
/// the digit's worth to the text's value, and brings nothing above ten units.
proof fn lemma_digit_in_front(d: int, unit: int, one: char, five: char, ten: char, s: Seq<char>)
    requires
        0 <= d <= 9,
        1 <= unit,
        is_symbol(one) && worth(one) == unit,
        d >= 4 ==> is_symbol(five) && worth(five) == 5 * unit,
        d == 9 ==> is_symbol(ten) && worth(ten) == 10 * unit,
        all_symbols(s),
        peak(s) <= unit,
    ensures
        all_symbols(digit(d, one, five, ten) + s),
        lax_value(digit(d, one, five, ten) + s) == d * unit + lax_value(s),
        peak(digit(d, one, five, ten) + s) <= 10 * unit,
{
    let t = digit(d, one, five, ten) + s;
    let s1 = seq![one] + s;
    let s2 = seq![one] + s1;
    let s3 = seq![one] + s2;
    lemma_symbol_in_front(one, s);
    lemma_symbol_in_front(one, s1);
    lemma_symbol_in_front(one, s2);
    if d == 0 {
        assert(t =~= s);
    } else if d == 1 {
        assert(t =~= s1);
    } else if d == 2 {
        assert(t =~= s2);
    } else if d == 3 {
        assert(t =~= s3);
    } else if d == 4 {
        let f = seq![five] + s;
        lemma_symbol_in_front(five, s);
        lemma_symbol_in_front(one, f);
        assert(t =~= seq![one] + f);
    } else if d == 5 {
        lemma_symbol_in_front(five, s);
        assert(t =~= seq![five] + s);
    } else if d == 6 {
        lemma_symbol_in_front(five, s1);
        assert(t =~= seq![five] + s1);
    } else if d == 7 {
        lemma_symbol_in_front(five, s2);
        assert(t =~= seq![five] + s2);
    } else if d == 8 {
        lemma_symbol_in_front(five, s3);
        assert(t =~= seq![five] + s3);
    } else {
        let f = seq![ten] + s;
        lemma_symbol_in_front(ten, s);
        lemma_symbol_in_front(one, f);
        assert(t =~= seq![one] + f);
    }
}

/// Thousands in front of a text that holds nothing above a thousand add
/// their worth to the text's value.
proof fn lemma_thousands_in_front(k: int, s: Seq<char>)
    requires
        0 <= k,
        all_symbols(s),
        peak(s) <= 1000,
    ensures
        all_symbols(thousands(k) + s),
        lax_value(thousands(k) + s) == k * 1000 + lax_value(s),
        peak(thousands(k) + s) <= 1000,
    decreases k,
{
    if k == 0 {
        assert(thousands(k) + s =~= s);
    } else {
        let t = thousands(k - 1) + s;
        lemma_thousands_in_front(k - 1, s);
        lemma_symbol_in_front('M', t);
        assert(thousands(k) + s =~= seq!['M'] + t);
    }
}

/// A canonical numeral is made of symbols only, and read leniently it gives
/// back the number that it was written for.
pub proof fn lemma_numeral_value(n: int)
    requires
        0 <= n,
    ensures
        all_symbols(numeral(n)),
        lax_value(numeral(n)) == n,
{
    let (d3, d2, d1, d0) = (n / 1000, n / 100 % 10, n / 10 % 10, n % 10);
    let units = digit(d0, 'I', 'V', 'X');
    let tens = digit(d1, 'X', 'L', 'C') + units;
    let hundreds = digit(d2, 'C', 'D', 'M') + tens;
    lemma_digit_in_front(d0, 1, 'I', 'V', 'X', Seq::empty());
    assert(units + Seq::empty() =~= units);
    lemma_digit_in_front(d1, 10, 'X', 'L', 'C', units);
    lemma_digit_in_front(d2, 100, 'C', 'D', 'M', tens);
    lemma_thousands_in_front(d3, hundreds);
}

/// No two numbers share a numeral.
pub proof fn lemma_numeral_injective(a: int, b: int)
    requires
        0 <= a,
        0 <= b,
        numeral(a) == numeral(b),
    ensures
        a == b,
{
    lemma_numeral_value(a);
    lemma_numeral_value(b);
}

/// Writing a number and reading the numeral gives the number back: for
/// every `n` that has a numeral, the value of its numeral is `n`.
pub proof fn lemma_round_trip(n: u16)
    requires
        in_range(n as int),
    ensures
        value_of(numeral(n as int)) == Some(n),
{
    lemma_numeral_value(n as int);
}

/// A text has the value `n` exactly when `n` has a numeral and the text is
/// that numeral.
pub proof fn lemma_value_of_canonical(s: Seq<char>, n: u16)
    ensures
        value_of(s) == Some(n) <==> in_range(n as int) && s == numeral(n as int),
{
    if in_range(n as int) && s == numeral(n as int) {
        lemma_round_trip(n);
    }
}

/// The numeral of a number in range has at least one symbol and at most
/// fifteen.
pub proof fn lemma_numeral_len(n: int)
    requires
        in_range(n),
    ensures
        1 <= numeral(n).len() <= 15,
{
}

/// Every entry of the table of pairs is needed: its text is the canonical
/// numeral of its value.
pub proof fn lemma_pairs_are_numerals()
    ensures
        forall|i: int| 0 <= i < 13 ==> numeral(pair_value(i)) == #[trigger] pair_text(i),
{
    lemma_pairs();
    assert(numeral(1000) =~= seq!['M']);
    assert(numeral(900) =~= seq!['C', 'M']);
    assert(numeral(500) =~= seq!['D']);
    assert(numeral(400) =~= seq!['C', 'D']);
    assert(numeral(100) =~= seq!['C']);
    assert(numeral(90) =~= seq!['X', 'C']);
    assert(numeral(50) =~= seq!['L']);
    assert(numeral(40) =~= seq!['X', 'L']);
    assert(numeral(10) =~= seq!['X']);
    assert(numeral(9) =~= seq!['I', 'X']);
    assert(numeral(5) =~= seq!['V']);
    assert(numeral(4) =~= seq!['I', 'V']);
    assert(numeral(1) =~= seq!['I']);
}

} // verus!
