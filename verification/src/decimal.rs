//! Unsigned decimal numbers as text: what a digit string is worth, how a
//! number is written, and how a token is read into a `u64`.

use vstd::prelude::*;
use vstd::string::*;
use crate::text::chars_of;

verus! {

/// Why a token is not a decimal `u64`.
#[derive(Debug, Clone, Copy, PartialEq, Eq)]
pub enum IntErrorKind {
    /// The token holds no character.
    Empty,
    /// A character that is not one of `0` to `9` was met.
    InvalidDigit,
    /// The digits read so far already exceed `u64::MAX`.
    PosOverflow,
}

/// Whether `c` is one of `0` to `9`.
pub open spec fn is_digit(c: char) -> bool {
    '0' <= c <= '9'
}

/// The number that the digit `c` stands for.
pub open spec fn digit_value(c: char) -> int {
    c as int - '0' as int
}

/// The digit that stands for `d`, for `0 <= d <= 9`.
pub open spec fn digit_char(d: int) -> char {
    (d + '0' as int) as char
}

/// Whether `s` holds digits only.
pub open spec fn all_digits(s: Seq<char>) -> bool {
    forall|i: int| 0 <= i < s.len() ==> is_digit(#[trigger] s[i])
}

/// The number that the digit string `s` denotes in base ten; leading zeros
/// count for nothing, the empty string denotes zero.
pub open spec fn decimal_value(s: Seq<char>) -> int
    decreases s.len(),
{
    if s.len() == 0 {
        0
    } else {
        decimal_value(s.drop_last()) * 10 + digit_value(s.last())
    }
}

/// The shortest digit string that denotes `n`, for `n >= 0`.
pub open spec fn decimal(n: int) -> Seq<char>
    decreases n,
{
    if n < 10 {
        seq![digit_char(n)]
    } else {
        decimal(n / 10).push(digit_char(n % 10))
    }
}

/// Reads `s` from left to right and stops at the first character that is no
/// digit, or whose digit carries the number beyond `u64::MAX`.
pub open spec fn read_digits(s: Seq<char>) -> Result<int, IntErrorKind>
    decreases s.len(),
{
    if s.len() == 0 {
        Ok(0)
    } else {
        match read_digits(s.drop_last()) {
            Err(e) => Err(e),
            Ok(v) => if !is_digit(s.last()) {
                Err(IntErrorKind::InvalidDigit)
            } else if v * 10 + digit_value(s.last()) > u64::MAX {
                Err(IntErrorKind::PosOverflow)
            } else {
                Ok(v * 10 + digit_value(s.last()))
            },
        }
    }
}

/// The `u64` that the token `s` denotes, or why it denotes none.
pub open spec fn parse_decimal(s: Seq<char>) -> Result<int, IntErrorKind> {
    if s.len() == 0 {
        Err(IntErrorKind::Empty)
    } else {
        read_digits(s)
    }
}

/// Reading succeeds exactly on digit strings that denote at most `u64::MAX`,
/// and then yields the number denoted.
pub proof fn lemma_read_digits_ok(s: Seq<char>)
    ensures
        read_digits(s) is Ok <==> all_digits(s) && decimal_value(s) <= u64::MAX,
        read_digits(s) matches Ok(v) ==> v == decimal_value(s) && 0 <= v <= u64::MAX,
    decreases s.len(),
{
    if s.len() > 0 {
        let t = s.drop_last();
        lemma_read_digits_ok(t);
        if all_digits(s) {
            assert(all_digits(t)) by {
                assert forall|i: int| 0 <= i < t.len() implies is_digit(#[trigger] t[i]) by {}
            }
        }
        if read_digits(s) is Ok {
            assert(all_digits(s)) by {
                assert forall|i: int| 0 <= i < s.len() implies is_digit(#[trigger] s[i]) by {
                    if i < t.len() {
                        assert(t[i] == s[i]);
                    }
                }
            }
        }
    }
}

/// A token is a `u64` exactly when it is a non-empty digit string that
/// denotes at most `u64::MAX`; its value is the number denoted.
pub proof fn lemma_parse_decimal_ok(s: Seq<char>)
    ensures
        parse_decimal(s) is Ok <==> s.len() > 0 && all_digits(s) && decimal_value(s) <= u64::MAX,
        parse_decimal(s) matches Ok(v) ==> v == decimal_value(s) && 0 <= v <= u64::MAX,
{
    lemma_read_digits_ok(s);
}

/// Once reading has failed on a prefix, it fails in the same way on the whole.
pub proof fn lemma_read_digits_stops(s: Seq<char>, k: int)
    requires
        0 <= k <= s.len(),
        read_digits(s.take(k)) is Err,
    ensures
        read_digits(s) == read_digits(s.take(k)),
    decreases s.len() - k,
{
    if k == s.len() {
        assert(s.take(k) =~= s);
    } else {
        let t = s.drop_last();
        assert(t.take(k) =~= s.take(k));
        lemma_read_digits_stops(t, k);
    }
}

/// What `decimal` writes is a non-empty digit string, and it denotes the
/// number written.
pub proof fn lemma_decimal_denotes(n: int)
    requires
        0 <= n,
    ensures
        decimal(n).len() > 0,
        all_digits(decimal(n)),
        decimal_value(decimal(n)) == n,
    decreases n,
{
    if n < 10 {
        let s = decimal(n);
        assert(decimal_value(s.drop_last()) == 0);
    } else {
        lemma_decimal_denotes(n / 10);
        let p = decimal(n / 10);
        let s = p.push(digit_char(n % 10));
        assert(s.drop_last() =~= p);
    }
}

/// Writing a `u64` and reading it back gives the same number.
pub proof fn lemma_decimal_round_trip(n: int)
    requires
        0 <= n <= u64::MAX,
    ensures
        parse_decimal(decimal(n)) matches Ok(m) && m == n,
{
    lemma_decimal_denotes(n);
    lemma_parse_decimal_ok(decimal(n));
}

/// The number that `c` stands for, if `c` is a digit.
fn digit_of(c: char) -> (r: Option<u64>)
    ensures
        r is Some <==> is_digit(c),
        r matches Some(d) ==> d == digit_value(c),
{
    if '0' <= c && c <= '9' {
        Some((c as u32 - '0' as u32) as u64)
    } else {
        None
    }
}

/// Reads the token `s` as a decimal `u64`.
pub fn parse_u64(s: &str) -> (r: Result<u64, IntErrorKind>)
    ensures
        match r {
            Ok(n) => parse_decimal(s@) matches Ok(m) && m == n,
            Err(e) => parse_decimal(s@) matches Err(k) && k == e,
        },
{
    let v = chars_of(s);
    if v.len() == 0 {
        return Err(IntErrorKind::Empty);
    }
    let mut acc: u64 = 0;
    let mut i: usize = 0;
    while i < v.len()
        invariant
            i <= v.len(),
            v@ == s@,
            read_digits(v@.take(i as int)) matches Ok(m) && m == acc,
        decreases v.len() - i,
    {
        proof {
            assert(v@.take(i + 1).drop_last() =~= v@.take(i as int));
        }
        let d: u64 = match digit_of(v[i]) {
            Some(d) => d,
            None => {
                proof {
                    lemma_read_digits_stops(v@, i + 1);
                }
                return Err(IntErrorKind::InvalidDigit);
            },
        };
        let next = match acc.checked_mul(10) {
            Some(m) => m.checked_add(d),
            None => None,
        };
        match next {
            Some(n) => {
                acc = n;
            },
            None => {
                proof {
                    lemma_read_digits_stops(v@, i + 1);
                }
                return Err(IntErrorKind::PosOverflow);
            },
        }
        i += 1;
    }
    proof {
        assert(v@.take(i as int) =~= v@);
    }
    Ok(acc)
}

/// The one-character text of the digit `d`.
fn digit_text(d: u64) -> (r: &'static str)
    requires
        d < 10,
    ensures
        r@ == seq![digit_char(d as int)],
{
    proof {
        reveal_strlit("0");
        reveal_strlit("1");
        reveal_strlit("2");
        reveal_strlit("3");
        reveal_strlit("4");
        reveal_strlit("5");
        reveal_strlit("6");
        reveal_strlit("7");
        reveal_strlit("8");
        reveal_strlit("9");
    }
    let r = if d == 0 {
        "0"
    } else if d == 1 {
        "1"
    } else if d == 2 {
        "2"
    } else if d == 3 {
        "3"
    } else if d == 4 {
        "4"
    } else if d == 5 {
        "5"
    } else if d == 6 {
        "6"
    } else if d == 7 {
        "7"
    } else if d == 8 {
        "8"
    } else {
        "9"
    };
    r
}

/// Appends `n`, written in base ten, to `out`.
pub fn push_decimal(out: &mut String, n: u64)
    ensures
        final(out)@ == old(out)@ + decimal(n as int),
    decreases n,
{
    if n >= 10 {
        push_decimal(out, n / 10);
    }
    out.append(digit_text(n % 10));
}

} // verus!
