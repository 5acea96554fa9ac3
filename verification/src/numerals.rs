//! Decimal numerals: what the lexer accepts as a signed 32-bit number,
//! and how the executor renders one back into text.

use vstd::prelude::*;
use vstd::string::*;

verus! {

/// `c` is an ASCII decimal digit.
pub open spec fn is_digit(c: char) -> bool {
    48 <= c as u32 && c as u32 <= 57
}

/// The numeric value of a digit character.
pub open spec fn digit_val(c: char) -> int {
    c as u32 - 48
}

/// The value of a sequence of digit characters, most significant first.
pub open spec fn digits_val(s: Seq<char>) -> int
    decreases s.len(),
{
    if s.len() == 0 {
        0
    } else {
        digits_val(s.drop_last()) * 10 + digit_val(s.last())
    }
}

pub open spec fn all_digits(s: Seq<char>) -> bool {
    forall|i: int| 0 <= i < s.len() ==> is_digit(s[i])
}

/// A leading `+` or `-`.
pub open spec fn has_sign(s: Seq<char>) -> bool {
    s.len() > 0 && (s[0] == '+' || s[0] == '-')
}

/// The digits of a numeral, the optional sign stripped.
pub open spec fn numeral_digits(s: Seq<char>) -> Seq<char> {
    if has_sign(s) {
        s.drop_first()
    } else {
        s
    }
}

/// An optional sign followed by one or more digits: exactly the words
/// the lexer reads as numbers.
pub open spec fn is_numeral(s: Seq<char>) -> bool {
    numeral_digits(s).len() > 0 && all_digits(numeral_digits(s))
}

/// The mathematical value of a numeral.
pub open spec fn numeral_val(s: Seq<char>) -> int {
    if s.len() > 0 && s[0] == '-' {
        -digits_val(numeral_digits(s))
    } else {
        digits_val(numeral_digits(s))
    }
}

/// A numeral whose value fits in a 32-bit signed integer.
pub open spec fn is_i32_numeral(s: Seq<char>) -> bool {
    is_numeral(s) && i32::MIN <= numeral_val(s) <= i32::MAX
}

pub proof fn lemma_digits_val_nonneg(s: Seq<char>)
    requires
        all_digits(s),
    ensures
        digits_val(s) >= 0,
    decreases s.len(),
{
    if s.len() > 0 {
        assert(all_digits(s.drop_last()));
        lemma_digits_val_nonneg(s.drop_last());
    }
}

/// Appending digits never shrinks the value of a digit string.
pub proof fn lemma_digits_val_prefix(s: Seq<char>, k: int)
    requires
        all_digits(s),
        0 <= k <= s.len(),
    ensures
        digits_val(s.take(k)) <= digits_val(s),
    decreases s.len(),
{
    if k == s.len() {
        assert(s.take(k) =~= s);
    } else {
        assert(all_digits(s.drop_last()));
        lemma_digits_val_nonneg(s.drop_last());
        lemma_digits_val_prefix(s.drop_last(), k);
        assert(s.drop_last().take(k) =~= s.take(k));
    }
}

/// Reads a word as a signed 32-bit decimal numeral, as the lexer does:
/// `Some` exactly on well-formed numerals whose value fits in `i32`.
pub fn parse_i32(s: &str) -> (r: Option<i32>)
    ensures
        is_i32_numeral(s@) ==> r == Some((numeral_val(s@) as i32)),
        !is_i32_numeral(s@) ==> r is None,
{
    let len = s.unicode_len();
    if len == 0 {
        return None;
    }
    let c0 = s.get_char(0);
    let neg = c0 == '-';
    let start: usize = if c0 == '-' || c0 == '+' {
        1
    } else {
        0
    };
    if len == start {
        return None;
    }
    let ghost d = numeral_digits(s@);
    proof {
        assert(d =~= s@.subrange(start as int, len as int));
    }
    let mut i: usize = start;
    let mut mag: u32 = 0;
    while i < len
        invariant
            s@.len() == len,
            start <= i <= len,
            start <= 1,
            (start == 1) == has_sign(s@),
            d == numeral_digits(s@),
            d =~= s@.subrange(start as int, len as int),
            all_digits(s@.subrange(start as int, i as int)),
            mag == digits_val(s@.subrange(start as int, i as int)),
            mag <= 2147483649,
        decreases len - i,
    {
        let c = s.get_char(i);
        let cu = c as u32;
        if cu < 48 || cu > 57 {
            proof {
                assert(d[i - start] == s@[i as int]);
                assert(!is_digit(d[i - start]));
            }
            return None;
        }
        let ghost pref = s@.subrange(start as int, i as int);
        let ghost pref1 = s@.subrange(start as int, i + 1 as int);
        proof {
            assert(pref1.drop_last() =~= pref);
            assert(pref1.last() == s@[i as int]);
        }
        if mag > 214748364 {
            // The value read so far already overflows `i32` once this
            // digit is appended, and further digits only enlarge it.
            proof {
                if is_numeral(s@) {
                    assert(pref1 =~= d.take(i + 1 - start));
                    lemma_digits_val_prefix(d, i + 1 - start);
                    assert(digits_val(pref1) >= 2147483650);
                }
            }
            return None;
        }
        mag = mag * 10 + (cu - 48);
        i += 1;
    }
    proof {
        assert(s@.subrange(start as int, i as int) =~= d);
    }
    if neg {
        if mag > 2147483648 {
            return None;
        }
        Some((-(mag as i64)) as i32)
    } else {
        if mag > 2147483647 {
            return None;
        }
        Some(mag as i32)
    }
}

/// The character for one decimal digit.
pub open spec fn dec_digit_char(d: int) -> char {
    if d == 0 {
        '0'
    } else if d == 1 {
        '1'
    } else if d == 2 {
        '2'
    } else if d == 3 {
        '3'
    } else if d == 4 {
        '4'
    } else if d == 5 {
        '5'
    } else if d == 6 {
        '6'
    } else if d == 7 {
        '7'
    } else if d == 8 {
        '8'
    } else {
        '9'
    }
}

/// The decimal rendering of a non-negative integer, no leading zeros.
pub open spec fn u32_dec(n: int) -> Seq<char>
    decreases n,
{
    if n < 10 {
        seq![dec_digit_char(n)]
    } else {
        u32_dec(n / 10).push(dec_digit_char(n % 10))
    }
}

/// The decimal rendering of a signed integer, `-` before the magnitude.
pub open spec fn i32_dec(n: int) -> Seq<char> {
    if n < 0 {
        seq!['-'] + u32_dec(-n)
    } else {
        u32_dec(n)
    }
}

fn dec_digit_str(d: u32) -> (r: &'static str)
    requires
        d < 10,
    ensures
        r@ =~= seq![dec_digit_char(d as int)],
{
    proof {
        reveal_strlit("0");
        reveal_strlit("1");
        reveal_strlit("2");
        reveal_strlit("3");
        reveal_strlit("4");
        reveal_strlit("5");
        reveal_strlit("6");
        reveal_strlit("7");
        reveal_strlit("8");
        reveal_strlit("9");
    }
    if d == 0 {
        "0"
    } else if d == 1 {
        "1"
    } else if d == 2 {
        "2"
    } else if d == 3 {
        "3"
    } else if d == 4 {
        "4"
    } else if d == 5 {
        "5"
    } else if d == 6 {
        "6"
    } else if d == 7 {
        "7"
    } else if d == 8 {
        "8"
    } else {
        "9"
    }
}

/// Renders `n` in decimal.
pub fn u32_dec_str(n: u32) -> (r: String)
    ensures
        r@ == u32_dec(n as int),
    decreases n,
{
    if n < 10 {
        String::from_str(dec_digit_str(n))
    } else {
        let mut r = u32_dec_str(n / 10);
        r.append(dec_digit_str(n % 10));
        proof {
            assert(r@ =~= u32_dec(n as int));
        }
        r
    }
}

/// Renders `n` in decimal, with a leading `-` when negative.
pub fn i32_dec_str(n: i32) -> (r: String)
    ensures
        r@ == i32_dec(n as int),
{
    if n >= 0 {
        u32_dec_str(n as u32)
    } else {
        let mag: u32 = (-(n as i64)) as u32;
        let digits = u32_dec_str(mag);
        let mut r = String::from_str("-");
        r.append(digits.as_str());
        proof {
            reveal_strlit("-");
            assert(r@ =~= i32_dec(n as int));
        }
        r
    }
}

} // verus!
