//! From a number to its numeral.

use crate::numeral::{digit, numeral, thousands};
use crate::table::{lemma_pairs, pair_text, pair_value, MAX, PAIRS};
use vstd::prelude::*;

verus! {

/// What a scan of [`PAIRS`] from entry `i` on writes for `n`: the text of an
/// entry as long as its value fits into what is left, then on to the next.
pub open spec fn scan_text(n: int, i: int) -> Seq<char>
    decreases 13 - i, n,
{
    if i < 0 || i >= 13 {
        Seq::empty()
    } else if n >= pair_value(i) {
        pair_text(i) + scan_text(n - pair_value(i), i)
    } else {
        scan_text(n, i + 1)
    }
}

/// What such a scan leaves of `n` when it has passed the last entry.
pub open spec fn scan_rest(n: int, i: int) -> int
    decreases 13 - i, n,
{
    if i < 0 || i >= 13 {
        n
    } else if n >= pair_value(i) {
        scan_rest(n - pair_value(i), i)
    } else {
        scan_rest(n, i + 1)
    }
}

/// The scan writes the thousands of `n` with the first entry and goes on
/// with what is below a thousand.
proof fn lemma_scan_thousands(n: int)
    requires
        0 <= n,
    ensures
        scan_text(n, 0) == thousands(n / 1000) + scan_text(n % 1000, 1),
        scan_rest(n, 0) == scan_rest(n % 1000, 1),
    decreases n,
{
    lemma_pairs();
    if n >= 1000 {
        lemma_scan_thousands(n - 1000);
        assert(thousands(n / 1000) =~= seq!['M'] + thousands((n - 1000) / 1000));
        assert(scan_text(n, 0) =~= thousands(n / 1000) + scan_text(n % 1000, 1));
    } else {
        assert(thousands(n / 1000) + scan_text(n % 1000, 1) =~= scan_text(n, 1));
    }
}

/// The scan writes one decimal digit with the four entries from `i` on,
/// which hold nine, five, four and one of `unit`, and goes on with what is
/// below `unit`.
proof fn lemma_scan_digit(n: int, i: int, unit: int, one: char, five: char, ten: char)
    requires
        0 <= n < 10 * unit,
        (i == 1 && unit == 100) || (i == 5 && unit == 10) || (i == 9 && unit == 1),
        pair_text(i) == seq![one, ten],
        pair_text(i + 1) == seq![five],
        pair_text(i + 2) == seq![one, five],
        pair_text(i + 3) == seq![one],
    ensures
        scan_text(n, i) == digit(n / unit, one, five, ten) + scan_text(n % unit, i + 4),
        scan_rest(n, i) == scan_rest(n % unit, i + 4),
{
    lemma_pairs();
    reveal_with_fuel(scan_text, 8);
    reveal_with_fuel(scan_rest, 8);
    let d = n / unit;
    let low = n % unit;
    assert(n == d * unit + low && 0 <= low < unit && 0 <= d <= 9);
    let tail = scan_text(low, i + 4);
    if d == 9 {
        assert(scan_text(n, i) =~= seq![one, ten] + tail);
    } else if d == 8 {
        assert(scan_text(n, i) =~= seq![five] + (seq![one] + (seq![one] + (seq![one] + tail))));
        assert(scan_text(n, i) =~= seq![five, one, one, one] + tail);
    } else if d == 7 {
        assert(scan_text(n, i) =~= seq![five] + (seq![one] + (seq![one] + tail)));
        assert(scan_text(n, i) =~= seq![five, one, one] + tail);
    } else if d == 6 {
        assert(scan_text(n, i) =~= seq![five] + (seq![one] + tail));
        assert(scan_text(n, i) =~= seq![five, one] + tail);
    } else if d == 5 {
        assert(scan_text(n, i) =~= seq![five] + tail);
    } else if d == 4 {
        assert(scan_text(n, i) =~= seq![one, five] + tail);
    } else if d == 3 {
        assert(scan_text(n, i) =~= seq![one] + (seq![one] + (seq![one] + tail)));
        assert(scan_text(n, i) =~= seq![one, one, one] + tail);
    } else if d == 2 {
        assert(scan_text(n, i) =~= seq![one] + (seq![one] + tail));
        assert(scan_text(n, i) =~= seq![one, one] + tail);
    } else if d == 1 {
        assert(scan_text(n, i) =~= seq![one] + tail);
    } else {
        assert(scan_text(n, i) =~= Seq::<char>::empty() + tail);
    }
}

/// The scan writes the hundreds of a number below a thousand.
proof fn lemma_scan_hundreds(n: int)
    requires
        0 <= n < 1000,
    ensures
        scan_text(n, 1) == digit(n / 100, 'C', 'D', 'M') + scan_text(n % 100, 5),
        scan_rest(n, 1) == scan_rest(n % 100, 5),
{
    lemma_pairs();
    lemma_scan_digit(n, 1, 100, 'C', 'D', 'M');
}

/// The scan writes the tens of a number below a hundred.
proof fn lemma_scan_tens(n: int)
    requires
        0 <= n < 100,
    ensures
        scan_text(n, 5) == digit(n / 10, 'X', 'L', 'C') + scan_text(n % 10, 9),
        scan_rest(n, 5) == scan_rest(n % 10, 9),
{
    lemma_pairs();
    lemma_scan_digit(n, 5, 10, 'X', 'L', 'C');
}

/// The scan writes the units, and then nothing is left.
proof fn lemma_scan_units(n: int)
    requires
        0 <= n < 10,
    ensures
        scan_text(n, 9) == digit(n, 'I', 'V', 'X'),
        scan_rest(n, 9) == 0,
{
    lemma_pairs();
    lemma_scan_digit(n, 9, 1, 'I', 'V', 'X');
    assert(digit(n, 'I', 'V', 'X') + scan_text(0, 13) =~= digit(n, 'I', 'V', 'X'));
}

/// The decimal digits of `n` are those of what is left of it below a
/// thousand, a hundred and ten.
proof fn lemma_digits(n: int)
    requires
        0 <= n,
    ensures
        n % 1000 / 100 == n / 100 % 10,
        n % 1000 % 100 / 10 == n / 10 % 10,
        n % 1000 % 100 % 10 == n % 10,
{
    let (m, c) = (n / 1000, n % 1000);
    let (h, x) = (c / 100, c % 100);
    let (t, u) = (x / 10, x % 10);
    assert(n == 100 * (10 * m + h) + x);
    assert(n / 100 == 10 * m + h);
    assert(n == 10 * (100 * m + 10 * h + t) + u);
    assert(n / 10 == 10 * (10 * m + h) + t);
}

/// The scan of [`PAIRS`] from its first entry writes the canonical numeral of
/// `n` and leaves nothing of `n`.
pub proof fn lemma_scan_numeral(n: int)
    requires
        0 <= n,
    ensures
        scan_text(n, 0) == numeral(n),
        scan_rest(n, 0) == 0,
{
    let c = n % 1000;
    let x = c % 100;
    let u = x % 10;
    lemma_digits(n);
    lemma_scan_thousands(n);
    lemma_scan_hundreds(c);
    lemma_scan_tens(x);
    lemma_scan_units(u);
}

/// Converts an integer into a roman numeral.
///
/// Works for integers between 1 and [`MAX`] inclusive, returns `None`
/// otherwise.
pub fn to(n: u16) -> (r: Option<String>)
    ensures
        r is Some <==> 1 <= n <= MAX,
        r is Some ==> r->0@ == numeral(n as int),
{
    if n == 0 || n > MAX {
        return None;
    }
    let mut out = String::new();
    let mut rest: u16 = n;
    let mut i: usize = 0;
    while i < PAIRS.len()
        invariant
            i <= 13,
            out@ + scan_text(rest as int, i as int) == scan_text(n as int, 0),
            scan_rest(rest as int, i as int) == scan_rest(n as int, 0),
        decreases 13 - i,
    {
        let (text, value) = PAIRS[i];
        proof {
            lemma_pairs();
        }
        while rest >= value
            invariant
                i < 13,
                text@ == pair_text(i as int),
                value == pair_value(i as int),
                value >= 1,
                out@ + scan_text(rest as int, i as int) == scan_text(n as int, 0),
                scan_rest(rest as int, i as int) == scan_rest(n as int, 0),
            decreases rest,
        {
            proof {
                assert(out@ + text@ + scan_text(rest - value, i as int) =~= out@ + scan_text(
                    rest as int,
                    i as int,
                ));
            }
            rest -= value;
            out.append(text);
        }
        i += 1;
    }
    proof {
        lemma_scan_numeral(n as int);
        assert(out@ + scan_text(rest as int, 13) =~= out@);
    }
    // The last entry is worth one, so that the scan leaves nothing.
    assert(rest == 0);
    Some(out)
}

} // verus!
