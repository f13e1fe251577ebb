//! Verified decimal formatting and parsing for ids.

use vstd::prelude::*;
use vstd::string::StrSliceExecFns;
use vstd::string::StringExecFns;

verus! {

/// The decimal digit character for a value below ten.
pub open spec fn digit_char(d: int) -> char {
    if d == 0 {
        '0'
    } else if d == 1 {
        '1'
    } else if d == 2 {
        '2'
    } else if d == 3 {
        '3'
    } else if d == 4 {
        '4'
    } else if d == 5 {
        '5'
    } else if d == 6 {
        '6'
    } else if d == 7 {
        '7'
    } else if d == 8 {
        '8'
    } else {
        '9'
    }
}

/// The canonical decimal representation of a non-negative value: no sign, no
/// leading zero except for zero itself.
pub open spec fn dec_rep(n: nat) -> Seq<char>
    decreases n,
{
    if n < 10 {
        seq![digit_char(n as int)]
    } else {
        dec_rep(n / 10).push(digit_char((n % 10) as int))
    }
}

/// The decimal representation of any integer: a leading minus sign for
/// negative values.
pub open spec fn int_rep(n: int) -> Seq<char> {
    if n < 0 {
        seq!['-'] + dec_rep((-n) as nat)
    } else {
        dec_rep(n as nat)
    }
}

fn digit_str(d: u64) -> (r: &'static str)
    requires
        d < 10,
    ensures
        r@ == seq![digit_char(d as int)],
{
    proof {
        reveal_strlit("0");
        reveal_strlit("1");
        reveal_strlit("2");
        reveal_strlit("3");
        reveal_strlit("4");
        reveal_strlit("5");
        reveal_strlit("6");
        reveal_strlit("7");
        reveal_strlit("8");
        reveal_strlit("9");
    }
    let r = match d {
        0 => "0",
        1 => "1",
        2 => "2",
        3 => "3",
        4 => "4",
        5 => "5",
        6 => "6",
        7 => "7",
        8 => "8",
        _ => "9",
    };
    proof {
        assert(r@ =~= seq![digit_char(d as int)]);
    }
    r
}

fn dec_string(n: u64) -> (r: String)
    ensures
        r@ == dec_rep(n as nat),
    decreases n,
{
    if n < 10 {
        String::from_str(digit_str(n))
    } else {
        let mut r = dec_string(n / 10);
        r.append(digit_str(n % 10));
        proof {
            assert(r@ =~= dec_rep(n as nat));
        }
        r
    }
}

/// Renders an id in decimal, with a minus sign when it is negative.
pub fn i32_to_string(n: i32) -> (r: String)
    ensures
        r@ == int_rep(n as int),
{
    if n < 0 {
        let mag: u64 = (-(n as i64)) as u64;
        let mut r = String::from_str("-");
        let digits = dec_string(mag);
        r.append(digits.as_str());
        proof {
            reveal_strlit("-");
            assert(r@ =~= int_rep(n as int));
        }
        r
    } else {
        dec_string(n as u64)
    }
}

/// A decimal digit character.
pub open spec fn is_digit(c: char) -> bool {
    48 <= c as int <= 57
}

/// The numeric value of a digit character.
pub open spec fn digit_val(c: char) -> int {
    c as int - 48
}

/// Every character of the sequence is a decimal digit.
pub open spec fn all_digits(s: Seq<char>) -> bool {
    forall|i: int| 0 <= i < s.len() ==> is_digit(#[trigger] s[i])
}

/// The numeric value of a digit sequence read in base ten; leading zeros
/// are permitted and carry no weight.
pub open spec fn dec_val(s: Seq<char>) -> int
    decreases s.len(),
{
    if s.len() == 0 {
        0
    } else {
        dec_val(s.drop_last()) * 10 + digit_val(s.last())
    }
}

/// What parsing a path segment as an id yields: an optional sign followed
/// by at least one digit, with a value that fits the id type; anything else
/// is non-numeric and yields nothing.
pub open spec fn parse_i32_spec(s: Seq<char>) -> Option<int> {
    if s.len() >= 1 && (s[0] == '-' || s[0] == '+') {
        let digits = s.subrange(1, s.len() as int);
        let sign: int = if s[0] == '-' {
            -1
        } else {
            1
        };
        if digits.len() > 0 && all_digits(digits) && i32::MIN <= sign * dec_val(digits)
            <= i32::MAX {
            Some(sign * dec_val(digits))
        } else {
            None
        }
    } else {
        if s.len() > 0 && all_digits(s) && dec_val(s) <= i32::MAX {
            Some(dec_val(s))
        } else {
            None
        }
    }
}

/// The value of a digit sequence is never negative.
proof fn lemma_dec_val_nonneg(s: Seq<char>)
    requires
        all_digits(s),
    ensures
        dec_val(s) >= 0,
    decreases s.len(),
{
    if s.len() > 0 {
        assert(all_digits(s.drop_last())) by {
            assert(forall|i: int|
                0 <= i < s.len() - 1 ==> #[trigger] s.drop_last()[i] == s[i]);
        }
        lemma_dec_val_nonneg(s.drop_last());
    }
}

/// Reading more digits never shrinks the value: every prefix of a digit
/// sequence is worth at most the whole.
proof fn lemma_dec_val_prefix_le(s: Seq<char>, k: int)
    requires
        all_digits(s),
        0 <= k <= s.len(),
    ensures
        dec_val(s.subrange(0, k)) <= dec_val(s),
    decreases s.len(),
{
    lemma_dec_val_nonneg(s);
    if k == s.len() {
        assert(s.subrange(0, k) =~= s);
    } else {
        let t = s.drop_last();
        assert(all_digits(t)) by {
            assert(forall|i: int| 0 <= i < t.len() ==> #[trigger] t[i] == s[i]);
        }
        assert(s.subrange(0, k) =~= t.subrange(0, k));
        lemma_dec_val_prefix_le(t, k);
        lemma_dec_val_nonneg(t);
    }
}

/// Parses a path segment as an id, accepting exactly what
/// [`parse_i32_spec`] accepts.
pub fn parse_i32(s: &str) -> (r: Option<i32>)
    ensures
        r matches Some(v) ==> parse_i32_spec(s@) == Some(v as int),
        r is None ==> parse_i32_spec(s@) is None,
{
    let n = s.unicode_len();
    if n == 0 {
        return None;
    }
    let first = s.get_char(0);
    let neg = first == '-';
    let start: usize = if first == '-' || first == '+' {
        1
    } else {
        0
    };
    if n == start {
        return None;
    }
    let ghost digits = s@.subrange(start as int, n as int);
    let mut acc: u64 = 0;
    let mut k = start;
    while k < n
        invariant
            start <= k <= n,
            n == s@.len(),
            start == 0 || start == 1,
            start == 1 ==> (s@[0] == '-' || s@[0] == '+'),
            start == 0 ==> !(s@[0] == '-' || s@[0] == '+'),
            neg == (s@[0] == '-' && start == 1),
            start < n,
            digits == s@.subrange(start as int, n as int),
            all_digits(s@.subrange(start as int, k as int)),
            acc == dec_val(s@.subrange(start as int, k as int)),
            acc <= 0x8000_0000u64,
        decreases n - k,
    {
        let c = s.get_char(k);
        let d = c as u32;
        if d < 48 || d > 57 {
            proof {
                if start == 0 {
                    assert(digits =~= s@);
                }
                assert(digits[k as int - start as int] == s@[k as int]);
                assert(!is_digit(c));
                assert(!all_digits(digits));
            }
            return None;
        }
        acc = acc * 10 + ((d - 48) as u64);
        k += 1;
        proof {
            let p = s@.subrange(start as int, k as int);
            assert(p.drop_last() =~= s@.subrange(start as int, k as int - 1));
            assert(p.last() == c);
            assert(all_digits(p)) by {
                assert(forall|i: int|
                    0 <= i < p.len() - 1 ==> #[trigger] p[i] == s@.subrange(
                        start as int,
                        k as int - 1,
                    )[i]);
            }
            assert(acc == dec_val(p));
        }
        if acc > 0x8000_0000u64 {
            proof {
                if start == 0 {
                    assert(digits =~= s@);
                }
                if all_digits(digits) {
                    let p = s@.subrange(start as int, k as int);
                    assert(p =~= digits.subrange(0, k - start));
                    lemma_dec_val_prefix_le(digits, k - start);
                    lemma_dec_val_nonneg(digits);
                    assert(dec_val(digits) >= dec_val(p));
                    assert(dec_val(digits) > 0x8000_0000);
                }
            }
            return None;
        }
    }
    proof {
        assert(s@.subrange(start as int, k as int) =~= digits);
        if start == 0 {
            assert(digits =~= s@);
        }
        lemma_dec_val_nonneg(digits);
    }
    if neg {
        let v = (-(acc as i64)) as i32;
        proof {
            assert(i32::MIN as i64 <= -(acc as i64) <= i32::MAX as i64);
            assert(v as int == -(acc as int));
            assert(parse_i32_spec(s@) == Some(-1 * dec_val(digits)));
        }
        Some(v)
    } else {
        if acc > 0x7fff_ffffu64 {
            return None;
        }
        Some(acc as i32)
    }
}

} // verus!
