//! Error-handling exercises around reading integers from text: typed
//! parse errors, combinator-style chaining, a custom application
//! error, and validated user input.

use crate::numeral::{digit_value, int_text, is_digit};
use vstd::prelude::*;
use vstd::string::*;

verus! {

/// Why a numeral failed to read as a 32-bit integer: the same cases,
/// under the same conditions, as std's integer parsing.
#[derive(Debug, Clone, Copy, PartialEq, Eq, Structural)]
pub enum ParseError {
    /// The input was empty.
    Empty,
    /// A character that is no base-10 digit; a sign with nothing
    /// after it counts as this too.
    InvalidDigit,
    /// The value exceeds the largest 32-bit integer.
    PosOverflow,
    /// The value falls below the smallest 32-bit integer.
    NegOverflow,
}

/// The message std's integer parsing gives each failure.
pub open spec fn parse_error_text(e: ParseError) -> Seq<char> {
    match e {
        ParseError::Empty => "cannot parse integer from empty string"@,
        ParseError::InvalidDigit => "invalid digit found in string"@,
        ParseError::PosOverflow => "number too large to fit in target type"@,
        ParseError::NegOverflow => "number too small to fit in target type"@,
    }
}

/// The message std's integer parsing gives this failure.
pub fn parse_error_string(e: ParseError) -> (r: String)
    ensures
        r@ == parse_error_text(e),
{
    match e {
        ParseError::Empty => String::from_str("cannot parse integer from empty string"),
        ParseError::InvalidDigit => String::from_str("invalid digit found in string"),
        ParseError::PosOverflow => String::from_str("number too large to fit in target type"),
        ParseError::NegOverflow => String::from_str("number too small to fit in target type"),
    }
}

/// Digit-by-digit scan of a numeral's body from position `i`, with
/// the magnitude read so far.  The first violation in reading order
/// wins: a non-digit is reported where it stands, an overflow is
/// reported as soon as the magnitude leaves the 32-bit range, exactly
/// as std's parsing walks the text.
pub open spec fn scan_digits(body: Seq<char>, i: int, acc: nat, neg: bool) -> Result<
    i32,
    ParseError,
>
    decreases body.len() - i,
{
    if i >= body.len() {
        if neg {
            Ok((-(acc as int)) as i32)
        } else {
            Ok(acc as i32)
        }
    } else if !is_digit(body[i]) {
        Err(ParseError::InvalidDigit)
    } else {
        let acc2 = acc * 10 + digit_value(body[i]);
        let limit: int = if neg {
            2147483648
        } else {
            2147483647
        };
        if acc2 > limit {
            Err(
                if neg {
                    ParseError::NegOverflow
                } else {
                    ParseError::PosOverflow
                },
            )
        } else {
            scan_digits(body, i + 1, acc2 as nat, neg)
        }
    }
}

/// What a piece of text denotes as a 32-bit integer: an optional
/// sign, then digits, with the outcome std's `parse::<i32>` has on
/// the same text.
pub open spec fn parse_i32_spec(s: Seq<char>) -> Result<i32, ParseError> {
    if s.len() == 0 {
        Err(ParseError::Empty)
    } else {
        let neg = s[0] == '-';
        let body = if s[0] == '-' || s[0] == '+' {
            s.drop_first()
        } else {
            s
        };
        if body.len() == 0 {
            Err(ParseError::InvalidDigit)
        } else {
            scan_digits(body, 0, 0, neg)
        }
    }
}

/// Reads a 32-bit integer from its decimal text, failing exactly
/// where and how std's parsing would.
pub fn parse_number(s: &str) -> (r: Result<i32, ParseError>)
    ensures
        r == parse_i32_spec(s@),
{
    let len = s.unicode_len();
    if len == 0 {
        return Err(ParseError::Empty);
    }
    let first = s.get_char(0);
    let mut neg = false;
    let mut start: usize = 0;
    if first == '-' {
        neg = true;
        start = 1;
    } else if first == '+' {
        start = 1;
    }
    let ghost body = if start == 1 {
        s@.drop_first()
    } else {
        s@
    };
    if start >= len {
        return Err(ParseError::InvalidDigit);
    }
    proof {
        assert(parse_i32_spec(s@) == scan_digits(body, 0, 0, neg));
    }
    let limit: u32 = if neg {
        2147483648u32
    } else {
        2147483647u32
    };
    let mut acc: u32 = 0;
    let mut j: usize = start;
    while j < len
        invariant
            start <= j <= len,
            start < len,
            len == s@.len(),
            start == 0 || start == 1,
            body == (if start == 1 {
                s@.drop_first()
            } else {
                s@
            }),
            limit == (if neg {
                2147483648u32
            } else {
                2147483647u32
            }),
            acc <= limit,
            parse_i32_spec(s@) == scan_digits(body, j - start, acc as nat, neg),
        decreases len - j,
    {
        let c = s.get_char(j);
        let cu = c as u32;
        proof {
            assert(body[j - start] == s@[j as int]);
        }
        if cu < 48 || cu > 57 {
            return Err(ParseError::InvalidDigit);
        }
        let d = cu - 48;
        let wide: u64 = acc as u64 * 10 + d as u64;
        if wide > limit as u64 {
            return Err(
                if neg {
                    ParseError::NegOverflow
                } else {
                    ParseError::PosOverflow
                },
            );
        }
        acc = wide as u32;
        j += 1;
    }
    proof {
        assert(body.len() == len - start);
    }
    if neg {
        if acc == 2147483648u32 {
            Ok(i32::MIN)
        } else {
            Ok(-(acc as i32))
        }
    } else {
        Ok(acc as i32)
    }
}

/// An error of this crate's own, converted from the error that
/// actually occurred.
#[derive(Debug, Clone, Copy, PartialEq, Eq, Structural)]
pub enum MyError {
    IoError,
    ParseError(ParseError),
}

/// Reads a number, wrapping a failure in [`MyError`].
pub fn parse_with_custom_error(s: &str) -> (r: Result<i32, MyError>)
    ensures
        match r {
            Ok(n) => parse_i32_spec(s@) == Ok::<i32, ParseError>(n),
            Err(e) => e matches MyError::ParseError(p) && parse_i32_spec(s@) == Err::<
                i32,
                ParseError,
            >(p),
        },
{
    match parse_number(s) {
        Ok(n) => Ok(n),
        Err(e) => Err(MyError::ParseError(e)),
    }
}

/// Reads a number and doubles it; a parse failure is reported as its
/// stringified error.  The doubled value must fit.
pub fn parse_and_double(s: &str) -> (r: Result<i32, String>)
    requires
        parse_i32_spec(s@) matches Ok(v) ==> i32::MIN <= 2 * v <= i32::MAX,
    ensures
        match r {
            Ok(n) => parse_i32_spec(s@) matches Ok(v) && n == 2 * v,
            Err(m) => parse_i32_spec(s@) matches Err(e) && m@ == parse_error_text(e),
        },
{
    match parse_number(s) {
        Ok(v) => Ok(2 * v),
        Err(e) => Err(parse_error_string(e)),
    }
}

/// Reads two numbers and adds them; the first failing read decides
/// the stringified error.  The sum must fit.
pub fn parse_and_add(s1: &str, s2: &str) -> (r: Result<i32, String>)
    requires
        parse_i32_spec(s1@) matches Ok(a) && parse_i32_spec(s2@) matches Ok(b) ==> i32::MIN <= a
            + b <= i32::MAX,
    ensures
        match r {
            Ok(n) => parse_i32_spec(s1@) matches Ok(a) && parse_i32_spec(s2@) matches Ok(b) && n
                == a + b,
            Err(m) => match (parse_i32_spec(s1@), parse_i32_spec(s2@)) {
                (Err(e), _) => m@ == parse_error_text(e),
                (Ok(_), Err(e)) => m@ == parse_error_text(e),
                (Ok(_), Ok(_)) => false,
            },
        },
{
    let a = match parse_number(s1) {
        Ok(a) => a,
        Err(e) => {
            return Err(parse_error_string(e));
        },
    };
    let b = match parse_number(s2) {
        Ok(b) => b,
        Err(e) => {
            return Err(parse_error_string(e));
        },
    };
    Ok(a + b)
}

/// The value on success, zero on failure.
pub fn get_value(result: Result<i32, &str>) -> (r: i32)
    ensures
        r == (match result {
            Ok(v) => v,
            Err(_) => 0,
        }),
{
    match result {
        Ok(v) => v,
        Err(_) => 0,
    }
}

/// The value on success, `-1` on failure.
pub fn handle_with_match(result: Result<i32, &str>) -> (r: i32)
    ensures
        r == (match result {
            Ok(v) => v,
            Err(_) => -1i32,
        }),
{
    match result {
        Ok(v) => v,
        Err(_) => -1,
    }
}

/// One application-level error, each variant carrying what its caller
/// needs to report it.
#[derive(Debug, PartialEq)]
pub enum AppError {
    /// An input/output failure, by its message.
    Io { message: String },
    /// A numeral that did not read.
    Parse { source: ParseError },
    /// A well-formed value that the application rejects.
    Validation { message: String },
}

/// Reads an age and accepts it when it lies between 0 and 150.
pub fn validate_age(age: &str) -> (r: Result<i32, AppError>)
    ensures
        match r {
            Ok(n) => parse_i32_spec(age@) == Ok::<i32, ParseError>(n) && 0 <= n <= 150,
            Err(e) => match e {
                AppError::Parse { source } => parse_i32_spec(age@) == Err::<i32, ParseError>(
                    source,
                ),
                AppError::Validation { message } => parse_i32_spec(age@) matches Ok(n) && !(0 <= n
                    <= 150) && message@ == "年龄 "@ + int_text(n as int) + " 无效"@,
                AppError::Io { .. } => false,
            },
        },
{
    let n = match parse_number(age) {
        Ok(n) => n,
        Err(e) => {
            return Err(AppError::Parse { source: e });
        },
    };
    if n < 0 || n > 150 {
        let mut message = String::from_str("年龄 ");
        let digits = crate::numeral::i64_to_string(n as i64);
        message.append(digits.as_str());
        message.append(" 无效");
        return Err(AppError::Validation { message });
    }
    Ok(n)
}

/// Is this character white space?  The set is Unicode's `White_Space`
/// property, the same characters std's `char::is_whitespace` accepts.
pub open spec fn is_space_char(c: char) -> bool {
    ||| 0x09 <= c as u32 <= 0x0d
    ||| c as u32 == 0x20
    ||| c as u32 == 0x85
    ||| c as u32 == 0xa0
    ||| c as u32 == 0x1680
    ||| 0x2000 <= c as u32 <= 0x200a
    ||| c as u32 == 0x2028
    ||| c as u32 == 0x2029
    ||| c as u32 == 0x202f
    ||| c as u32 == 0x205f
    ||| c as u32 == 0x3000
}

/// `s` with leading white space removed.
pub open spec fn trim_front(s: Seq<char>) -> Seq<char>
    decreases s.len(),
{
    if s.len() > 0 && is_space_char(s[0]) {
        trim_front(s.drop_first())
    } else {
        s
    }
}

/// `s` with trailing white space removed.
pub open spec fn trim_back(s: Seq<char>) -> Seq<char>
    decreases s.len(),
{
    if s.len() > 0 && is_space_char(s.last()) {
        trim_back(s.drop_last())
    } else {
        s
    }
}

/// `s` with leading and trailing white space removed.
pub open spec fn trim_spec(s: Seq<char>) -> Seq<char> {
    trim_back(trim_front(s))
}

fn space_char(c: char) -> (r: bool)
    ensures
        r == is_space_char(c),
{
    let u = c as u32;
    (0x09 <= u && u <= 0x0d) || u == 0x20 || u == 0x85 || u == 0xa0 || u == 0x1680 || (0x2000 <= u
        && u <= 0x200a) || u == 0x2028 || u == 0x2029 || u == 0x202f || u == 0x205f || u == 0x3000
}

proof fn lemma_trim_front_skip(s: Seq<char>, a: int)
    requires
        0 <= a <= s.len(),
        forall|k: int| 0 <= k < a ==> is_space_char(s[k]),
        a < s.len() ==> !is_space_char(s[a]),
    ensures
        trim_front(s) == s.skip(a),
    decreases s.len(),
{
    if s.len() > 0 && is_space_char(s[0]) {
        assert(a > 0);
        let rest = s.drop_first();
        assert(forall|k: int| 0 <= k < a - 1 ==> is_space_char(#[trigger] rest[k]));
        lemma_trim_front_skip(rest, a - 1);
        assert(rest.skip(a - 1) =~= s.skip(a));
    } else {
        assert(a == 0);
        assert(s.skip(0) =~= s);
    }
}

proof fn lemma_trim_back_take(s: Seq<char>, b: int)
    requires
        0 <= b <= s.len(),
        forall|k: int| b <= k < s.len() ==> is_space_char(s[k]),
        b > 0 ==> !is_space_char(s[b - 1]),
    ensures
        trim_back(s) == s.take(b),
    decreases s.len(),
{
    if s.len() > 0 && is_space_char(s.last()) {
        assert(b < s.len());
        let rest = s.drop_last();
        lemma_trim_back_take(rest, b);
        assert(rest.take(b) =~= s.take(b));
    } else {
        assert(b == s.len());
        assert(s.take(b) =~= s);
    }
}

/// `s` without its leading and trailing white space.
pub fn trim<'a>(s: &'a str) -> (r: &'a str)
    ensures
        r@ == trim_spec(s@),
{
    let len = s.unicode_len();
    let mut a: usize = 0;
    while a < len && space_char(s.get_char(a))
        invariant
            0 <= a <= len,
            len == s@.len(),
            forall|k: int| 0 <= k < a ==> is_space_char(s@[k]),
        decreases len - a,
    {
        a += 1;
    }
    let mut b: usize = len;
    while b > a && space_char(s.get_char(b - 1))
        invariant
            a <= b <= len,
            len == s@.len(),
            forall|k: int| b <= k < len ==> is_space_char(s@[k]),
        decreases b,
    {
        b -= 1;
    }
    proof {
        lemma_trim_front_skip(s@, a as int);
        let mid = s@.skip(a as int);
        assert(forall|k: int| b - a <= k < mid.len() ==> is_space_char(#[trigger] mid[k]));
        lemma_trim_back_take(mid, b - a);
        assert(mid.take(b - a) =~= s@.subrange(a as int, b as int));
    }
    s.substring_char(a, b)
}

/// Reads a non-negative number from possibly padded input: white
/// space is trimmed, empty input and negative numbers are rejected.
pub fn process_user_input(input: &str) -> (r: Result<i32, AppError>)
    ensures
        match r {
            Ok(n) => parse_i32_spec(trim_spec(input@)) == Ok::<i32, ParseError>(n) && n >= 0,
            Err(e) => match e {
                AppError::Io { message } => trim_spec(input@).len() == 0 && message@
                    == "输入为空"@,
                AppError::Parse { source } => trim_spec(input@).len() > 0 && parse_i32_spec(
                    trim_spec(input@),
                ) == Err::<i32, ParseError>(source),
                AppError::Validation { message } => parse_i32_spec(trim_spec(input@)) matches Ok(n)
                    && n < 0 && message@ == "数字不能为负"@,
            },
        },
{
    let trimmed = trim(input);
    if trimmed.is_empty() {
        return Err(AppError::Io { message: String::from_str("输入为空") });
    }
    let n = match parse_number(trimmed) {
        Ok(n) => n,
        Err(e) => {
            return Err(AppError::Parse { source: e });
        },
    };
    if n < 0 {
        return Err(AppError::Validation { message: String::from_str("数字不能为负") });
    }
    Ok(n)
}

} // verus!
