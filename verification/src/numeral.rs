//! Base-10 text of integers: spec-level definitions of decimal digit
//! strings, together with verified printing and parsing routines.

use vstd::prelude::*;
use vstd::string::*;

verus! {

/// Does `c` stand for a base-10 digit?
pub open spec fn is_digit(c: char) -> bool {
    48 <= c as u32 <= 57
}

/// Numeric value of a digit character.
pub open spec fn digit_value(c: char) -> int {
    c as u32 - 48
}

/// Digit character for a value in `0..=9`.
pub open spec fn digit_char(d: int) -> char {
    if d == 0 {
        '0'
    } else if d == 1 {
        '1'
    } else if d == 2 {
        '2'
    } else if d == 3 {
        '3'
    } else if d == 4 {
        '4'
    } else if d == 5 {
        '5'
    } else if d == 6 {
        '6'
    } else if d == 7 {
        '7'
    } else if d == 8 {
        '8'
    } else {
        '9'
    }
}

/// Base-10 text of a natural number, most significant digit first,
/// without sign and without leading zeros (except for zero itself).
pub open spec fn dec_digits(n: nat) -> Seq<char>
    decreases n,
{
    if n < 10 {
        seq![digit_char(n as int)]
    } else {
        dec_digits(n / 10).push(digit_char((n % 10) as int))
    }
}

/// Base-10 text of an integer: a leading minus sign for negative
/// numbers, no plus sign.
pub open spec fn int_text(i: int) -> Seq<char> {
    if i >= 0 {
        dec_digits(i as nat)
    } else {
        seq!['-'] + dec_digits((-i) as nat)
    }
}

/// Every character of `s` is a base-10 digit.
pub open spec fn all_digits(s: Seq<char>) -> bool {
    forall|i: int| 0 <= i < s.len() ==> is_digit(s[i])
}

/// Value of a digit string, most significant digit first.
pub open spec fn digits_value(s: Seq<char>) -> nat
    decreases s.len(),
{
    if s.len() == 0 {
        0nat
    } else {
        (digits_value(s.drop_last()) * 10 + digit_value(s.last())) as nat
    }
}

/// The signed 64-bit integer denoted by an optional sign followed by
/// digits, or `None` when the text is not such a numeral or its value
/// does not fit.
pub open spec fn parse_i64_spec(s: Seq<char>) -> Option<i64> {
    if s.len() > 0 && (s[0] == '-' || s[0] == '+') {
        parse_digits_signed(s.drop_first(), s[0] == '-')
    } else {
        parse_digits_signed(s, false)
    }
}

/// The value of a digit body under a sign, or `None` when the body is
/// empty, holds a non-digit, or denotes a value outside the signed
/// 64-bit range.
pub open spec fn parse_digits_signed(body: Seq<char>, neg: bool) -> Option<i64> {
    if body.len() == 0 || !all_digits(body) {
        None
    } else {
        let v = digits_value(body) as int;
        if neg {
            if -v >= i64::MIN {
                Some((-v) as i64)
            } else {
                None
            }
        } else {
            if v <= i64::MAX {
                Some(v as i64)
            } else {
                None
            }
        }
    }
}

/// One-character string for a digit value.
fn digit_str(d: u64) -> (r: &'static str)
    requires
        d < 10,
    ensures
        r@ == seq![digit_char(d as int)],
{
    let digits = "0123456789";
    proof {
        reveal_strlit("0123456789");
    }
    let r = digits.substring_ascii(d as usize, d as usize + 1);
    proof {
        assert(r@ =~= seq![digit_char(d as int)]);
    }
    r
}

/// Prints `n` in base 10.
pub fn u64_to_string(n: u64) -> (r: String)
    ensures
        r@ == dec_digits(n as nat),
    decreases n,
{
    let ds = digit_str(n % 10);
    if n < 10 {
        ds.to_owned()
    } else {
        let mut prefix = u64_to_string(n / 10);
        prefix.append(ds);
        proof {
            assert(prefix@ =~= dec_digits(n as nat));
        }
        prefix
    }
}

/// Prints `n` in base 10, with a minus sign when `n` is negative.
pub fn i64_to_string(n: i64) -> (r: String)
    ensures
        r@ == int_text(n as int),
{
    if n >= 0 {
        u64_to_string(n as u64)
    } else {
        let mag: u64 = if n == i64::MIN {
            9223372036854775808u64
        } else {
            (-n) as u64
        };
        let mut s = String::from_str("-");
        let digits = u64_to_string(mag);
        s.append(digits.as_str());
        proof {
            reveal_strlit("-");
            assert(s@ =~= int_text(n as int));
        }
        s
    }
}

proof fn lemma_digits_value_take_monotone(s: Seq<char>, j: int, k: int)
    requires
        0 <= j <= k <= s.len(),
        all_digits(s),
    ensures
        digits_value(s.take(j)) <= digits_value(s.take(k)),
    decreases k - j,
{
    if j < k {
        lemma_digits_value_take_monotone(s, j, k - 1);
        assert(s.take(k).drop_last() =~= s.take(k - 1));
        assert(is_digit(s[k - 1]));
        assert(digits_value(s.take(k)) >= digits_value(s.take(k - 1)));
    }
}

/// Reads an optionally signed base-10 numeral.
pub fn parse_i64(s: &str) -> (r: Option<i64>)
    ensures
        r == parse_i64_spec(s@),
{
    let len = s.unicode_len();
    if len == 0 {
        return None;
    }
    let first = s.get_char(0);
    let mut neg = false;
    let mut start: usize = 0;
    if first == '-' {
        neg = true;
        start = 1;
    } else if first == '+' {
        start = 1;
    }
    let ghost body = if start == 1 {
        s@.drop_first()
    } else {
        s@
    };
    proof {
        assert(body =~= s@.subrange(start as int, s@.len() as int));
        assert(parse_i64_spec(s@) == parse_digits_signed(body, neg));
    }
    if start >= len {
        return None;
    }
    let limit: u64 = if neg {
        9223372036854775808u64
    } else {
        9223372036854775807u64
    };
    let mut acc: u64 = 0;
    let mut j: usize = start;
    while j < len
        invariant
            start <= j <= len,
            start < len,
            len == s@.len(),
            start == 0 || start == 1,
            body == s@.subrange(start as int, s@.len() as int),
            parse_i64_spec(s@) == parse_digits_signed(body, neg),
            limit == (if neg {
                9223372036854775808u64
            } else {
                9223372036854775807u64
            }),
            all_digits(body.take(j - start)),
            acc == digits_value(body.take(j - start)),
            acc <= limit,
        decreases len - j,
    {
        let c = s.get_char(j);
        let cu = c as u32;
        proof {
            assert(body[j - start] == s@[j as int]);
        }
        if cu < 48 || cu > 57 {
            proof {
                assert(!is_digit(body[j - start]));
                assert(!all_digits(body));
            }
            return None;
        }
        let d = (cu - 48) as u64;
        if acc > (limit - d) / 10 {
            proof {
                if all_digits(body) {
                    assert(body.take(j - start + 1).drop_last() =~= body.take(j - start));
                    assert(body.take(j - start + 1).last() == body[j - start]);
                    assert(digits_value(body.take(j - start + 1)) == acc * 10 + d);
                    assert(acc * 10 + d > limit) by (nonlinear_arith)
                        requires
                            acc > (limit - d) / 10,
                            d <= 9,
                            d <= limit,
                    ;
                    lemma_digits_value_take_monotone(body, j - start + 1, body.len() as int);
                    assert(body.take(body.len() as int) =~= body);
                    assert(digits_value(body) > limit);
                }
            }
            return None;
        }
        proof {
            assert(acc * 10 + d <= limit) by (nonlinear_arith)
                requires
                    acc <= (limit - d) / 10,
                    d <= limit,
            ;
            assert(body.take(j - start + 1).drop_last() =~= body.take(j - start));
            assert(body.take(j - start + 1).last() == body[j - start]);
            assert(is_digit(body[j - start]));
            assert(all_digits(body.take(j - start + 1)));
        }
        acc = acc * 10 + d;
        j += 1;
    }
    proof {
        assert(body.take(len - start) =~= body);
        assert(all_digits(body));
        assert(body.len() > 0);
    }
    if neg {
        if acc == 9223372036854775808u64 {
            Some(i64::MIN)
        } else {
            Some(-(acc as i64))
        }
    } else {
        Some(acc as i64)
    }
}

proof fn lemma_dec_digits_wf(n: nat)
    ensures
        dec_digits(n).len() >= 1,
        all_digits(dec_digits(n)),
        digits_value(dec_digits(n)) == n,
    decreases n,
{
    if n < 10 {
        let s = dec_digits(n);
        assert(s == seq![digit_char(n as int)]);
        assert(is_digit(s[0]));
        assert(s.len() == 1);
        assert(s.last() == digit_char(n as int));
        assert(s.drop_last() =~= Seq::<char>::empty());
        assert(digits_value(s.drop_last()) == 0);
        assert(digit_value(digit_char(n as int)) == n);
        assert(digits_value(s) == (digits_value(s.drop_last()) * 10 + digit_value(s.last())) as nat);
        assert(digits_value(s) == n);
    } else {
        lemma_dec_digits_wf(n / 10);
        let s = dec_digits(n);
        assert(s.drop_last() =~= dec_digits(n / 10));
        assert(s.last() == digit_char((n % 10) as int));
        assert(is_digit(s.last()));
        assert(forall|i: int| 0 <= i < s.len() ==> is_digit(#[trigger] s[i]));
        assert(digit_value(digit_char((n % 10) as int)) == n % 10);
        assert(digits_value(s) == n / 10 * 10 + n % 10);
        assert(n / 10 * 10 + n % 10 == n) by (nonlinear_arith);
    }
}

/// The decimal text of a signed 64-bit integer parses back to that
/// same integer.
pub proof fn lemma_parse_int_text_roundtrip(i: i64)
    ensures
        parse_i64_spec(int_text(i as int)) == Some(i),
{
    if i >= 0 {
        let s = dec_digits(i as nat);
        lemma_dec_digits_wf(i as nat);
        assert(is_digit(s[0]));
        assert(s[0] != '-' && s[0] != '+');
        assert(parse_i64_spec(s) == parse_digits_signed(s, false));
    } else {
        let m = (-(i as int)) as nat;
        let s = int_text(i as int);
        lemma_dec_digits_wf(m);
        assert(s[0] == '-');
        assert(s.drop_first() =~= dec_digits(m));
        assert(parse_i64_spec(s) == parse_digits_signed(dec_digits(m), true));
    }
}

} // verus!
