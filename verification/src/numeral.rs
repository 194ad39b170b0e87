//! What a roman numeral is: the text that stands for a number, and the number
//! that a text of symbols stands for.

use crate::table::{symbol_value, MAX};
use vstd::prelude::*;

verus! {

/// One decimal digit `d`, written with the symbols that stand for one, five
/// and ten at its place. Zero is written with no symbol at all.
pub open spec fn digit(d: int, one: char, five: char, ten: char) -> Seq<char> {
    if d == 1 {
        seq![one]
    } else if d == 2 {
        seq![one, one]
    } else if d == 3 {
        seq![one, one, one]
    } else if d == 4 {
        seq![one, five]
    } else if d == 5 {
        seq![five]
    } else if d == 6 {
        seq![five, one]
    } else if d == 7 {
        seq![five, one, one]
    } else if d == 8 {
        seq![five, one, one, one]
    } else if d == 9 {
        seq![one, ten]
    } else {
        Seq::empty()
    }
}

/// `k` thousands: the symbol `M`, `k` times.
pub open spec fn thousands(k: int) -> Seq<char> {
    Seq::new(k as nat, |j: int| 'M')
}

/// The canonical numeral of `n`: its thousands, hundreds, tens and units,
/// each written by itself, in this order.
pub open spec fn numeral(n: int) -> Seq<char> {
    thousands(n / 1000) + (digit(n / 100 % 10, 'C', 'D', 'M') + (digit(n / 10 % 10, 'X', 'L', 'C')
        + digit(n % 10, 'I', 'V', 'X')))
}

/// Whether `n` has a numeral.
pub open spec fn in_range(n: int) -> bool {
    1 <= n <= MAX
}

/// Whether `c` is one of the seven symbols.
pub open spec fn is_symbol(c: char) -> bool {
    symbol_value(c) is Some
}

/// Whether `s` is made of symbols only.
pub open spec fn all_symbols(s: Seq<char>) -> bool {
    forall|i: int| 0 <= i < s.len() ==> is_symbol(#[trigger] s[i])
}

/// The value of `c` as a symbol, and 0 where it is none.
pub open spec fn worth(c: char) -> int {
    match symbol_value(c) {
        Some(v) => v as int,
        None => 0,
    }
}

/// The largest value among the symbols of `s`, and 0 for the empty text.
pub open spec fn peak(s: Seq<char>) -> int
    decreases s.len(),
{
    if s.len() == 0 {
        0
    } else if worth(s[0]) >= peak(s.drop_first()) {
        worth(s[0])
    } else {
        peak(s.drop_first())
    }
}

/// The value of `s` read leniently: every symbol counts with its value,
/// negatively where a larger symbol stands anywhere to its right, and
/// positively elsewhere. Nothing is asked of the order of the symbols.
pub open spec fn lax_value(s: Seq<char>) -> int
    decreases s.len(),
{
    if s.len() == 0 {
        0
    } else if worth(s[0]) < peak(s.drop_first()) {
        lax_value(s.drop_first()) - worth(s[0])
    } else {
        lax_value(s.drop_first()) + worth(s[0])
    }
}

/// The number that `s` is the canonical numeral of, if there is one: `s` is
/// read leniently, and the value counts only where it has a numeral and `s`
/// is that numeral, symbol for symbol.
pub open spec fn value_of(s: Seq<char>) -> Option<u16> {
    if all_symbols(s) && in_range(lax_value(s)) && numeral(lax_value(s)) == s {
        Some(lax_value(s) as u16)
    } else {
        None
    }
}

} // verus!
