//! Decimal rendering of integers and booleans, and decimal parsing of
//! integers, with exact character-level specifications. These are the
//! conversions the literal coercion rules rely on: a non-text operand is
//! stringified before text concatenation, and a text operand is parsed
//! before numeric conversion.

use vstd::prelude::*;

verus! {

/// The character for a single decimal digit.
pub open spec fn digit_char(d: int) -> char {
    if d == 0 {
        '0'
    } else if d == 1 {
        '1'
    } else if d == 2 {
        '2'
    } else if d == 3 {
        '3'
    } else if d == 4 {
        '4'
    } else if d == 5 {
        '5'
    } else if d == 6 {
        '6'
    } else if d == 7 {
        '7'
    } else if d == 8 {
        '8'
    } else {
        '9'
    }
}

/// Decimal digits of a non-negative integer, most significant first.
pub open spec fn digit_chars(n: nat) -> Seq<char>
    decreases n,
{
    if n < 10 {
        seq![digit_char(n as int)]
    } else {
        digit_chars(n / 10).push(digit_char((n % 10) as int))
    }
}

/// The decimal rendering of an integer, with a leading '-' when negative.
pub open spec fn int_chars(i: int) -> Seq<char> {
    if i < 0 {
        seq!['-'] + digit_chars((-i) as nat)
    } else {
        digit_chars(i as nat)
    }
}

/// The rendering of a boolean, as Rust renders it.
pub open spec fn bool_chars(b: bool) -> Seq<char> {
    if b {
        seq!['t', 'r', 'u', 'e']
    } else {
        seq!['f', 'a', 'l', 's', 'e']
    }
}

/// The numeric value of a digit character.
pub open spec fn digit_val(c: char) -> int {
    c as int - '0' as int
}

pub open spec fn is_digit(c: char) -> bool {
    0 <= digit_val(c) && digit_val(c) <= 9
}

pub open spec fn all_digits(s: Seq<char>) -> bool {
    forall|i: int| 0 <= i < s.len() ==> is_digit(#[trigger] s[i])
}

/// The value of a sequence of digit characters, most significant first.
pub open spec fn digits_val(s: Seq<char>) -> int
    decreases s.len(),
{
    if s.len() == 0 {
        0
    } else {
        digits_val(s.drop_last()) * 10 + digit_val(s.last())
    }
}

/// Whether a character sequence is a decimal integer: an optional sign
/// followed by at least one digit. This is the shape `str::parse::<i64>`
/// accepts, leading zeros included.
pub open spec fn valid_int_chars(s: Seq<char>) -> bool {
    if s.len() == 0 {
        false
    } else if s[0] == '-' || s[0] == '+' {
        s.len() > 1 && all_digits(s.skip(1))
    } else {
        all_digits(s)
    }
}

/// The mathematical value of a decimal integer literal.
pub open spec fn str_int(s: Seq<char>) -> int
    recommends
        valid_int_chars(s),
{
    if s.len() == 0 {
        0
    } else if s[0] == '-' {
        -digits_val(s.skip(1))
    } else if s[0] == '+' {
        digits_val(s.skip(1))
    } else {
        digits_val(s)
    }
}

pub proof fn lemma_digits_val_nonneg(s: Seq<char>)
    requires
        all_digits(s),
    ensures
        digits_val(s) >= 0,
    decreases s.len(),
{
    if s.len() > 0 {
        assert forall|i: int| 0 <= i < s.drop_last().len() implies is_digit(
            #[trigger] s.drop_last()[i],
        ) by {
            assert(s.drop_last()[i] == s[i]);
        }
        lemma_digits_val_nonneg(s.drop_last());
    }
}

/// The value of a digit string is monotone in its prefixes: reading more
/// digits can only keep or grow the (non-negative) value.
pub proof fn lemma_digits_val_take_le(s: Seq<char>, k: int)
    requires
        all_digits(s),
        0 <= k <= s.len(),
    ensures
        digits_val(s.take(k)) <= digits_val(s),
    decreases s.len() - k,
{
    if k == s.len() {
        assert(s.take(k) =~= s);
    } else {
        lemma_digits_val_take_le(s, k + 1);
        assert(s.take(k + 1).drop_last() =~= s.take(k));
        assert forall|i: int| 0 <= i < s.take(k).len() implies is_digit(
            #[trigger] s.take(k)[i],
        ) by {
            assert(s.take(k)[i] == s[i]);
        }
        lemma_digits_val_nonneg(s.take(k));
        assert(digits_val(s.take(k + 1)) == digits_val(s.take(k)) * 10 + digit_val(s[k]));
        assert(digits_val(s.take(k)) * 10 >= digits_val(s.take(k)));
    }
}

fn digit_str(d: u64) -> (s: &'static str)
    requires
        d < 10,
    ensures
        s@ == seq![digit_char(d as int)],
{
    let s: &'static str = if d == 0 {
        "0"
    } else if d == 1 {
        "1"
    } else if d == 2 {
        "2"
    } else if d == 3 {
        "3"
    } else if d == 4 {
        "4"
    } else if d == 5 {
        "5"
    } else if d == 6 {
        "6"
    } else if d == 7 {
        "7"
    } else if d == 8 {
        "8"
    } else {
        "9"
    };
    proof {
        reveal_strlit("0");
        reveal_strlit("1");
        reveal_strlit("2");
        reveal_strlit("3");
        reveal_strlit("4");
        reveal_strlit("5");
        reveal_strlit("6");
        reveal_strlit("7");
        reveal_strlit("8");
        reveal_strlit("9");
        assert(s@ =~= seq![digit_char(d as int)]);
    }
    s
}

fn push_digits(out: &mut String, n: u64)
    ensures
        final(out)@ == old(out)@ + digit_chars(n as nat),
    decreases n,
{
    if n < 10 {
        out.append(digit_str(n));
        proof {
            assert(out@ =~= old(out)@ + digit_chars(n as nat));
        }
    } else {
        push_digits(out, n / 10);
        out.append(digit_str(n % 10));
        proof {
            assert(out@ =~= old(out)@ + digit_chars(n as nat));
        }
    }
}

/// Render an integer in decimal, as Rust's own formatting would.
pub fn int_to_string(i: i64) -> (s: String)
    ensures
        s@ == int_chars(i as int),
{
    let mut out = String::new();
    if i < 0 {
        out.append("-");
        let mag: u64 = if i == i64::MIN {
            9223372036854775808u64
        } else {
            (-i) as u64
        };
        push_digits(&mut out, mag);
        proof {
            reveal_strlit("-");
            assert(mag as nat == (-(i as int)) as nat);
            assert(out@ =~= int_chars(i as int));
        }
    } else {
        push_digits(&mut out, i as u64);
        proof {
            assert(out@ =~= int_chars(i as int));
        }
    }
    out
}

/// Parse a decimal integer, accepting exactly what `str::parse::<i64>`
/// accepts: an optional sign, at least one digit, and a value within the
/// range of the machine integer.
pub fn parse_int(s: &str) -> (r: Option<i64>)
    ensures
        match r {
            Some(v) => valid_int_chars(s@) && i64::MIN <= str_int(s@) <= i64::MAX && v as int
                == str_int(s@),
            None => !(valid_int_chars(s@) && i64::MIN <= str_int(s@) <= i64::MAX),
        },
{
    let n = s.unicode_len();
    if n == 0 {
        return None;
    }
    let first = s.get_char(0);
    let neg = first == '-';
    let has_sign = neg || first == '+';
    let start: usize = if has_sign {
        1
    } else {
        0
    };
    if start >= n {
        // a bare sign with no digits
        return None;
    }
    let ghost t = s@.skip(start as int);
    proof {
        if has_sign {
            assert(t =~= s@.subrange(1, n as int));
        } else {
            assert(t =~= s@);
        }
    }
    // The largest magnitude that still fits: one more for the negative side.
    let limit: u64 = if neg {
        9223372036854775808u64
    } else {
        9223372036854775807u64
    };
    let mut acc: u64 = 0;
    let mut i: usize = start;
    while i < n
        invariant
            start <= i <= n,
            n == s@.len(),
            start == if has_sign { 1int } else { 0int },
            has_sign == (s@[0] == '-' || s@[0] == '+'),
            neg == (s@[0] == '-'),
            t == s@.skip(start as int),
            limit == if neg { 9223372036854775808u64 } else { 9223372036854775807u64 },
            all_digits(t.take(i - start)),
            acc as int == digits_val(t.take(i - start)),
            acc <= limit,
        decreases n - i,
    {
        let c = s.get_char(i);
        let u = c as u32;
        if u < 48 || u > 57 {
            proof {
                assert(t[i - start] == s@[i as int]);
                assert(!is_digit(s@[i as int]));
                assert(!all_digits(t));
                assert(!valid_int_chars(s@));
            }
            return None;
        }
        let d: u64 = (u - 48) as u64;
        proof {
            assert(t[i - start] == s@[i as int]);
            assert(is_digit(s@[i as int]));
            assert(digit_val(s@[i as int]) == d as int);
            assert(t.take(i + 1 - start).drop_last() =~= t.take(i - start));
            assert(digits_val(t.take(i + 1 - start)) == acc as int * 10 + d as int);
        }
        let overflowed: bool = match acc.checked_mul(10) {
            None => true,
            Some(m) => match m.checked_add(d) {
                None => true,
                Some(a2) => {
                    if a2 > limit {
                        true
                    } else {
                        acc = a2;
                        false
                    }
                },
            },
        };
        if overflowed {
            proof {
                assert(digits_val(t.take(i + 1 - start)) > limit as int);
                if valid_int_chars(s@) {
                    assert(all_digits(t));
                    lemma_digits_val_take_le(t, i + 1 - start);
                    assert(digits_val(t) > limit as int);
                    if !has_sign {
                        assert(t =~= s@);
                    }
                    if neg {
                        assert(str_int(s@) == -digits_val(t));
                        assert(str_int(s@) < i64::MIN);
                    } else {
                        assert(str_int(s@) == digits_val(t));
                        assert(str_int(s@) > i64::MAX);
                    }
                }
            }
            return None;
        }
        i = i + 1;
    }
    proof {
        assert(t.take(n - start) =~= t);
        assert(all_digits(t));
        assert(acc as int == digits_val(t));
        if !has_sign {
            assert(t =~= s@);
        }
        assert(valid_int_chars(s@));
        if neg {
            assert(str_int(s@) == -(acc as int));
        } else {
            assert(str_int(s@) == acc as int);
        }
    }
    if neg {
        if acc == 9223372036854775808u64 {
            Some(i64::MIN)
        } else {
            Some(-(acc as i64))
        }
    } else {
        Some(acc as i64)
    }
}

/// The fixed rendering of a boolean.
pub fn bool_str(b: bool) -> (s: &'static str)
    ensures
        s@ == bool_chars(b),
{
    if b {
        let s: &'static str = "true";
        proof {
            reveal_strlit("true");
            assert(s@ =~= bool_chars(true));
        }
        s
    } else {
        let s: &'static str = "false";
        proof {
            reveal_strlit("false");
            assert(s@ =~= bool_chars(false));
        }
        s
    }
}

} // verus!
