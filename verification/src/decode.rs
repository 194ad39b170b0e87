//! From a numeral to its number.

use crate::encode::to;
use crate::laws::lemma_round_trip;
use crate::numeral::{all_symbols, in_range, is_symbol, lax_value, numeral, peak, value_of};
use crate::table::lookup;
use vstd::prelude::*;

verus! {

/// Whether two texts are the same, character for character.
pub fn same_text(a: &str, b: &str) -> (r: bool)
    ensures
        r == (a@ == b@),
{
    let x = a.as_bytes();
    let y = b.as_bytes();
    proof {
        // The characters of a text are its bytes decoded, so that texts of
        // the same bytes are the same.
        vstd::utf8::encode_utf8_decode_utf8(a@);
        vstd::utf8::encode_utf8_decode_utf8(b@);
    }
    if x.len() != y.len() {
        return false;
    }
    let mut i: usize = 0;
    while i < x.len()
        invariant
            i <= x@.len(),
            x@.len() == y@.len(),
            a@ == b@ ==> x@ == y@,
            forall|j: int| 0 <= j < i ==> x@[j] == y@[j],
        decreases x@.len() - i,
    {
        if x[i] != y[i] {
            return false;
        }
        i += 1;
    }
    assert(x@ =~= y@);
    true
}

/// A text made of symbols only is plain ASCII.
proof fn lemma_symbols_are_ascii(s: Seq<char>)
    requires
        all_symbols(s),
    ensures
        vstd::utf8::is_ascii_chars(s),
{
    assert forall|i: int| 0 <= i < s.len() implies '\0' <= #[trigger] s[i] <= '\u{7f}' by {
        assert(is_symbol(s[i]));
    }
}

/// Reads a text of symbols leniently, from its last symbol to its first:
/// a symbol that is smaller than the largest one read so far is taken off
/// the sum, any other is added to it. Nothing is asked of the order of the
/// symbols, so that many texts have a value here that are no numerals.
///
/// Returns `None` where a character is none of the seven symbols, and where
/// the value is negative or too large for the result.
pub fn from_lax(txt: &str) -> (r: Option<u16>)
    ensures
        r is Some <==> all_symbols(txt@) && 0 <= lax_value(txt@) <= u16::MAX,
        r is Some ==> r->0 == lax_value(txt@),
{
    if !txt.is_ascii() {
        proof {
            if all_symbols(txt@) {
                lemma_symbols_are_ascii(txt@);
            }
        }
        return None;
    }
    let bytes = txt.as_bytes();
    let len = bytes.len();
    proof {
        vstd::string::is_ascii_spec_bytes(txt);
        assert(txt@.subrange(len as int, len as int) =~= Seq::<char>::empty());
    }
    let mut n: i128 = 0;
    let mut max: u16 = 0;
    let mut i: usize = len;
    while i > 0
        invariant
            i <= len == txt@.len() == bytes@.len(),
            vstd::utf8::is_ascii_chars(txt@),
            forall|j: int| 0 <= j < len ==> bytes@[j] == txt@[j] as u8,
            all_symbols(txt@.subrange(i as int, len as int)),
            n == lax_value(txt@.subrange(i as int, len as int)),
            max == peak(txt@.subrange(i as int, len as int)),
            -1000 * (len - i) <= n <= 1000 * (len - i),
        decreases i,
    {
        i -= 1;
        let c = bytes[i] as char;
        let ghost seen = txt@.subrange(i + 1, len as int);
        let ghost now = txt@.subrange(i as int, len as int);
        proof {
            assert(c == txt@[i as int]);
            assert(now.drop_first() =~= seen);
            assert(now[0] == c);
        }
        let val = match lookup(c) {
            Some(val) => val,
            None => {
                proof {
                    if all_symbols(txt@) {
                        assert(is_symbol(txt@[i as int]));
                    }
                }
                return None;
            },
        };
        proof {
            assert forall|j: int| 0 <= j < now.len() implies is_symbol(#[trigger] now[j]) by {
                if j > 0 {
                    assert(now[j] == seen[j - 1]);
                }
            }
        }
        if val < max {
            n -= val as i128;
        } else {
            n += val as i128;
            max = val;
        }
    }
    proof {
        assert(txt@.subrange(0, len as int) =~= txt@);
    }
    if 0 <= n && n <= u16::MAX as i128 {
        Some(n as u16)
    } else {
        None
    }
}

/// Converts a roman numeral to an integer.
///
/// Works for the numerals of the integers between 1 and [`crate::MAX`]
/// inclusive, each in its canonical spelling, and returns `None` for every
/// other text: the text is read leniently, the value is written again, and
/// it counts only where this gives the text back.
pub fn from(txt: &str) -> (r: Option<u16>)
    ensures
        r == value_of(txt@),
        match r {
            Some(n) => in_range(n as int) && txt@ == numeral(n as int),
            None => forall|n: int| in_range(n) ==> txt@ != #[trigger] numeral(n),
        },
{
    proof {
        assert forall|n: int| in_range(n) && txt@ == #[trigger] numeral(n) implies value_of(txt@)
            == Some(n as u16) by {
            lemma_round_trip(n as u16);
        }
    }
    let n = match from_lax(txt) {
        Some(n) => n,
        None => return None,
    };
    match to(n) {
        Some(x) => {
            if same_text(x.as_str(), txt) {
                Some(n)
            } else {
                None
            }
        },
        None => None,
    }
}

} // verus!
