//! The two tables that drive the conversions: the seven symbols with their
//! values, and the thirteen pairs that are written from the largest down.

use vstd::prelude::*;

verus! {

/// The largest number representable as a roman numeral.
pub const MAX: u16 = 3999;

/// The seven symbols, each with its value.
pub const SYMBOLS: [(char, u16); 7] = [
    ('I', 1),
    ('V', 5),
    ('X', 10),
    ('L', 50),
    ('C', 100),
    ('D', 500),
    ('M', 1000),
];

/// The texts that a numeral is composed of, each with its value, in
/// descending order of value. Six of them are subtractive pairs.
pub const PAIRS: [(&'static str, u16); 13] = [
    ("M", 1000),
    ("CM", 900),
    ("D", 500),
    ("CD", 400),
    ("C", 100),
    ("XC", 90),
    ("L", 50),
    ("XL", 40),
    ("X", 10),
    ("IX", 9),
    ("V", 5),
    ("IV", 4),
    ("I", 1),
];

/// The value of `c` where it is one of the seven symbols.
pub open spec fn symbol_value(c: char) -> Option<u16> {
    if c == 'I' {
        Some(1u16)
    } else if c == 'V' {
        Some(5u16)
    } else if c == 'X' {
        Some(10u16)
    } else if c == 'L' {
        Some(50u16)
    } else if c == 'C' {
        Some(100u16)
    } else if c == 'D' {
        Some(500u16)
    } else if c == 'M' {
        Some(1000u16)
    } else {
        None
    }
}

/// The text of entry `i` of [`PAIRS`].
pub open spec fn pair_text(i: int) -> Seq<char> {
    PAIRS@[i].0@
}

/// The value of entry `i` of [`PAIRS`].
pub open spec fn pair_value(i: int) -> int {
    PAIRS@[i].1 as int
}

/// [`SYMBOLS`] holds each symbol once, with the value that [`symbol_value`]
/// gives it, and nothing else.
pub proof fn lemma_symbols()
    ensures
        forall|k: int|
            0 <= k < 7 ==> symbol_value(#[trigger] SYMBOLS@[k].0) == Some(SYMBOLS@[k].1),
        forall|j: int, k: int|
            0 <= j < k < 7 ==> #[trigger] SYMBOLS@[j].0 != #[trigger] SYMBOLS@[k].0,
        forall|c: char|
            #[trigger] symbol_value(c) is Some ==> exists|k: int|
                0 <= k < 7 && #[trigger] SYMBOLS@[k].0 == c,
{
    assert forall|c: char| #[trigger] symbol_value(c) is Some implies exists|k: int|
        0 <= k < 7 && #[trigger] SYMBOLS@[k].0 == c by {
        if c == 'I' {
            assert(SYMBOLS@[0].0 == c);
        } else if c == 'V' {
            assert(SYMBOLS@[1].0 == c);
        } else if c == 'X' {
            assert(SYMBOLS@[2].0 == c);
        } else if c == 'L' {
            assert(SYMBOLS@[3].0 == c);
        } else if c == 'C' {
            assert(SYMBOLS@[4].0 == c);
        } else if c == 'D' {
            assert(SYMBOLS@[5].0 == c);
        } else {
            assert(SYMBOLS@[6].0 == c);
        }
    }
}

/// What [`PAIRS`] holds, entry by entry, with each text spelled out.
pub proof fn lemma_pairs()
    ensures
        pair_text(0) == seq!['M'] && pair_value(0) == 1000,
        pair_text(1) == seq!['C', 'M'] && pair_value(1) == 900,
        pair_text(2) == seq!['D'] && pair_value(2) == 500,
        pair_text(3) == seq!['C', 'D'] && pair_value(3) == 400,
        pair_text(4) == seq!['C'] && pair_value(4) == 100,
        pair_text(5) == seq!['X', 'C'] && pair_value(5) == 90,
        pair_text(6) == seq!['L'] && pair_value(6) == 50,
        pair_text(7) == seq!['X', 'L'] && pair_value(7) == 40,
        pair_text(8) == seq!['X'] && pair_value(8) == 10,
        pair_text(9) == seq!['I', 'X'] && pair_value(9) == 9,
        pair_text(10) == seq!['V'] && pair_value(10) == 5,
        pair_text(11) == seq!['I', 'V'] && pair_value(11) == 4,
        pair_text(12) == seq!['I'] && pair_value(12) == 1,
{
    reveal_strlit("M");
    reveal_strlit("CM");
    reveal_strlit("D");
    reveal_strlit("CD");
    reveal_strlit("C");
    reveal_strlit("XC");
    reveal_strlit("L");
    reveal_strlit("XL");
    reveal_strlit("X");
    reveal_strlit("IX");
    reveal_strlit("V");
    reveal_strlit("IV");
    reveal_strlit("I");
}

/// The values of [`PAIRS`] are positive and strictly descending.
pub proof fn lemma_pairs_descend()
    ensures
        forall|i: int| 0 <= i < 13 ==> #[trigger] pair_value(i) >= 1,
        forall|i: int, j: int| 0 <= i < j < 13 ==> #[trigger] pair_value(i) > #[trigger] pair_value(j),
{
    lemma_pairs();
}

/// Looks `c` up in [`SYMBOLS`].
pub fn lookup(c: char) -> (r: Option<u16>)
    ensures
        r == symbol_value(c),
{
    let mut k: usize = 0;
    while k < SYMBOLS.len()
        invariant
            k <= 7,
            forall|j: int| 0 <= j < k ==> #[trigger] SYMBOLS@[j].0 != c,
        decreases 7 - k,
    {
        let (symbol, value) = SYMBOLS[k];
        if symbol == c {
            proof {
                lemma_symbols();
            }
            return Some(value);
        }
        k += 1;
    }
    proof {
        lemma_symbols();
    }
    None
}

} // verus!
