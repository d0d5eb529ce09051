//! Small verified string helpers shared across the crate: string equality,
//! and decimal digit strings with their mathematical reading.

use vstd::prelude::*;
use vstd::string::*;

verus! {

/// Whether two string slices hold the same characters.
pub fn str_eq(a: &str, b: &str) -> (r: bool)
    ensures
        r == (a@ == b@),
{
    let x = a.to_owned();
    let y = b.to_owned();
    x == y
}

/// The needle occurs somewhere in the haystack.
pub open spec fn contains_sub(h: Seq<char>, n: Seq<char>) -> bool {
    exists|i: int| 0 <= i <= h.len() - n.len() && #[trigger] h.subrange(i, i + n.len()) == n
}

/// Whether the string contains the pattern, case-sensitively.
#[verifier::loop_isolation(false)]
pub fn str_contains(s: &str, pat: &str) -> (r: bool)
    requires
        pat@.len() >= 1,
    ensures
        r == contains_sub(s@, pat@),
{
    let n = s.unicode_len();
    let m = pat.unicode_len();
    if m > n {
        return false;
    }
    let mut i: usize = 0;
    while i <= n - m
        invariant
            0 <= i <= n - m + 1,
            forall|i0: int| 0 <= i0 < i ==> #[trigger] s@.subrange(i0, i0 + pat@.len()) != pat@,
        decreases n - i,
    {
        let mut j: usize = 0;
        let mut all_match = true;
        while j < m && all_match
            invariant
                0 <= j <= m,
                i + m <= n,
                all_match ==> forall|j0: int| 0 <= j0 < j ==> s@[i + j0] == pat@[j0],
                !all_match ==> s@.subrange(i as int, i as int + pat@.len()) != pat@,
            decreases m - j, (if all_match {
                1int
            } else {
                0int
            }),
        {
            let sc = s.get_char(i + j);
            let pc = pat.get_char(j);
            if sc != pc {
                proof {
                    assert(s@.subrange(i as int, i as int + pat@.len())[j as int] == s@[i as int
                        + j as int]);
                }
                all_match = false;
            } else {
                j += 1;
            }
        }
        if all_match {
            proof {
                assert(s@.subrange(i as int, i as int + pat@.len()) =~= pat@);
            }
            return true;
        }
        i += 1;
    }
    proof {
        assert forall|i0: int|
            0 <= i0 <= s@.len() - pat@.len() implies #[trigger] s@.subrange(i0, i0 + pat@.len())
            != pat@ by {}
    }
    false
}

/// A decimal digit.
pub open spec fn is_dec_digit(c: char) -> bool {
    ('0' as u32) <= (c as u32) <= ('9' as u32)
}

/// Numeric value of a decimal digit.
pub open spec fn dec_digit_value(c: char) -> int {
    (c as u32) - ('0' as u32)
}

pub open spec fn all_dec_digits(s: Seq<char>) -> bool {
    forall|i: int| 0 <= i < s.len() ==> is_dec_digit(#[trigger] s[i])
}

/// The number a digit string denotes, most significant digit first.
pub open spec fn dec_value(s: Seq<char>) -> int
    decreases s.len(),
{
    if s.len() == 0 {
        0
    } else {
        dec_value(s.drop_last()) * 10 + dec_digit_value(s.last())
    }
}

/// The digit character for a value below 10.
pub open spec fn dec_digit_char(d: int) -> char {
    ((('0' as u32) + d as u32) as char)
}

/// `n` written in decimal, zero-padded to exactly `w` digits (the `w` least
/// significant digits of `n`, if `n` needs more).
pub open spec fn dec_width(n: int, w: nat) -> Seq<char>
    decreases w,
{
    if w == 0 {
        Seq::empty()
    } else {
        dec_width(n / 10, (w - 1) as nat).push(dec_digit_char(n % 10))
    }
}

/// How many times a character occurs in a string.
pub open spec fn count_char(s: Seq<char>, c: char) -> int
    decreases s.len(),
{
    if s.len() == 0 {
        0
    } else {
        count_char(s.drop_last(), c) + if s.last() == c {
            1int
        } else {
            0
        }
    }
}

/// Index of the first occurrence of a character; the string's length when
/// it does not occur.
pub open spec fn first_index_of(s: Seq<char>, c: char) -> int
    decreases s.len(),
{
    if s.len() == 0 {
        0
    } else if s[0] == c {
        0
    } else {
        1 + first_index_of(s.drop_first(), c)
    }
}

pub proof fn lemma_first_index_of(s: Seq<char>, c: char)
    ensures
        0 <= first_index_of(s, c) <= s.len(),
        first_index_of(s, c) < s.len() ==> s[first_index_of(s, c)] == c,
        forall|m: int| 0 <= m < first_index_of(s, c) ==> s[m] != c,
    decreases s.len(),
{
    if s.len() > 0 && s[0] != c {
        lemma_first_index_of(s.drop_first(), c);
        assert forall|m: int| 0 <= m < first_index_of(s, c) implies s[m] != c by {
            if m > 0 {
                assert(s.drop_first()[m - 1] == s[m]);
            }
        }
    }
}

/// The number a digit string denotes is never negative.
pub proof fn lemma_dec_value_nonneg(s: Seq<char>)
    requires
        all_dec_digits(s),
    ensures
        dec_value(s) >= 0,
    decreases s.len(),
{
    if s.len() > 0 {
        assert(all_dec_digits(s.drop_last()));
        lemma_dec_value_nonneg(s.drop_last());
    }
}

/// Extending a digit string never shrinks its value.
pub proof fn lemma_dec_value_take_le(s: Seq<char>, k: int)
    requires
        all_dec_digits(s),
        0 <= k <= s.len(),
    ensures
        dec_value(s.take(k)) <= dec_value(s),
    decreases s.len(),
{
    if k < s.len() {
        assert(all_dec_digits(s.drop_last()));
        assert(s.drop_last().take(k) =~= s.take(k));
        lemma_dec_value_take_le(s.drop_last(), k);
        lemma_dec_value_nonneg(s.drop_last());
    } else {
        assert(s.take(k) =~= s);
    }
}

/// The digit part of a number string: what follows an optional leading `+`.
pub open spec fn number_digits(s: Seq<char>) -> Seq<char> {
    if s.len() > 0 && s[0] == '+' {
        s.drop_first()
    } else {
        s
    }
}

/// A string that `u16` parsing accepts: an optional `+`, then at least one
/// decimal digit, denoting a value below 2^16.
pub open spec fn valid_u16_str(s: Seq<char>) -> bool {
    &&& number_digits(s).len() > 0
    &&& all_dec_digits(number_digits(s))
    &&& dec_value(number_digits(s)) <= 65535
}

/// Parses a `u16` the way the standard library does: an optional leading
/// `+`, then decimal digits; anything else, or a value past 2^16 - 1, is
/// rejected.
pub fn parse_u16(t: &str) -> (r: Option<u16>)
    ensures
        r is Some <==> valid_u16_str(t@),
        r is Some ==> r->0 == dec_value(number_digits(t@)),
{
    let tl = t.unicode_len();
    let start: usize = if tl > 0 && t.get_char(0) == '+' {
        1
    } else {
        0
    };
    proof {
        if start == 1 {
            assert(number_digits(t@) =~= t@.skip(1));
        } else {
            assert(number_digits(t@) =~= t@.skip(0));
            assert(t@.skip(0) =~= t@);
        }
    }
    if tl == start {
        return None;
    }
    let ghost digits: Seq<char> = t@.skip(start as int);
    let mut v: u32 = 0;
    let mut i: usize = start;
    while i < tl
        invariant
            start <= i <= tl,
            tl == t@.len(),
            start <= 1,
            digits == t@.skip(start as int),
            digits == number_digits(t@),
            digits.len() == tl - start,
            forall|m: int| 0 <= m < i - start ==> is_dec_digit(#[trigger] digits[m]),
            v == dec_value(digits.take(i - start)),
            v <= 65535,
        decreases tl - i,
    {
        let c = t.get_char(i);
        let cu = c as u32;
        if !(48 <= cu && cu <= 57) {
            proof {
                assert(digits[i - start] == t@[i as int]);
                assert(!is_dec_digit(digits[i - start]));
            }
            return None;
        }
        let d = cu - 48;
        v = v * 10 + d;
        proof {
            assert(digits[i - start] == t@[i as int]);
            assert(digits.take(i - start + 1).drop_last() =~= digits.take(i - start));
            assert(digits.take(i - start + 1).last() == digits[i - start]);
            assert(v == dec_value(digits.take(i - start + 1)));
        }
        if v > 65535 {
            proof {
                assert(digits.take(i - start + 1) =~= digits.take(i + 1 - start));
                if valid_u16_str(t@) {
                    lemma_dec_value_take_le(digits, i + 1 - start);
                }
            }
            return None;
        }
        i += 1;
    }
    proof {
        assert(digits.take(tl - start) =~= digits);
    }
    Some(v as u16)
}

/// The one-character string for a decimal digit.
pub fn dec_digit_str(d: u64) -> (r: &'static str)
    requires
        d < 10,
    ensures
        r@ =~= seq![dec_digit_char(d as int)],
{
    let r = match d {
        0 => "0",
        1 => "1",
        2 => "2",
        3 => "3",
        4 => "4",
        5 => "5",
        6 => "6",
        7 => "7",
        8 => "8",
        _ => "9",
    };
    proof {
        reveal_strlit("0");
        reveal_strlit("1");
        reveal_strlit("2");
        reveal_strlit("3");
        reveal_strlit("4");
        reveal_strlit("5");
        reveal_strlit("6");
        reveal_strlit("7");
        reveal_strlit("8");
        reveal_strlit("9");
    }
    r
}

/// Renders the `w` least significant decimal digits of `n`, zero-padded.
pub fn render_dec_width(n: u64, w: u8) -> (r: String)
    ensures
        r@ == dec_width(n as int, w as nat),
    decreases w,
{
    if w == 0 {
        String::new()
    } else {
        let mut s = render_dec_width(n / 10, w - 1);
        s.append(dec_digit_str(n % 10));
        proof {
            assert(s@ =~= dec_width(n as int, w as nat));
        }
        s
    }
}

} // verus!
