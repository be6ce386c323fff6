//! Text for the numbers and the indentation of a rendered derivation.

use vstd::prelude::*;
use vstd::string::*;
use crate::error::Error;

verus! {

/// `n` copies of `s`, one after the other.
pub open spec fn repeat(s: Seq<char>, n: nat) -> Seq<char>
    decreases n,
{
    if n == 0 {
        Seq::empty()
    } else {
        repeat(s, (n - 1) as nat) + s
    }
}

/// The Peano numeral of `n`: `n` times `S(`, then `Z`, then `n` times `)`.
pub open spec fn peano(n: nat) -> Seq<char> {
    repeat("S("@, n) + "Z"@ + repeat(")"@, n)
}

/// The indentation of a line at the given depth: one blank per unit.
pub open spec fn spaces(depth: nat) -> Seq<char> {
    repeat(" "@, depth)
}

/// The text of one decimal digit.
pub open spec fn digit_text(d: nat) -> Seq<char> {
    if d == 0 {
        "0"@
    } else if d == 1 {
        "1"@
    } else if d == 2 {
        "2"@
    } else if d == 3 {
        "3"@
    } else if d == 4 {
        "4"@
    } else if d == 5 {
        "5"@
    } else if d == 6 {
        "6"@
    } else if d == 7 {
        "7"@
    } else if d == 8 {
        "8"@
    } else {
        "9"@
    }
}

/// The decimal digits of a natural number, without leading zeros.
pub open spec fn natural_text(n: nat) -> Seq<char>
    decreases n,
{
    if n < 10 {
        digit_text(n)
    } else {
        natural_text(n / 10) + digit_text(n % 10)
    }
}

/// The decimal text of an integer, with `-` in front of a negative one.
pub open spec fn integer_text(i: int) -> Seq<char> {
    if i < 0 {
        "-"@ + natural_text((-i) as nat)
    } else {
        natural_text(i as nat)
    }
}

/// The text of a truth value.
pub open spec fn bool_text(b: bool) -> Seq<char> {
    if b {
        "true"@
    } else {
        "false"@
    }
}

/// The line end that closes a rule when `with_newline` is set.
pub open spec fn line_end(with_newline: bool) -> Seq<char> {
    if with_newline {
        "\n"@
    } else {
        Seq::empty()
    }
}

fn repeat_str(piece: &str, n: usize) -> (s: String)
    ensures
        s@ == repeat(piece@, n as nat),
{
    let mut s = String::new();
    let mut i: usize = 0;
    while i < n
        invariant
            i <= n,
            s@ == repeat(piece@, i as nat),
        decreases n - i,
    {
        s.append(piece);
        i += 1;
    }
    s
}

/// Writes a natural number as a Peano numeral.
pub fn get_peano_num(nat_num: usize) -> (s: String)
    ensures
        s@ == peano(nat_num as nat),
{
    let mut s = repeat_str("S(", nat_num);
    s.append("Z");
    let closing = repeat_str(")", nat_num);
    s.append(closing.as_str());
    s
}

/// The blanks that indent a line at `depth`.
pub fn get_depth_space(depth: usize) -> (s: String)
    ensures
        s@ == spaces(depth as nat),
{
    repeat_str(" ", depth)
}

fn digit_str(d: u32) -> (s: &'static str)
    requires
        d < 10,
    ensures
        s@ == digit_text(d as nat),
{
    if d == 0 {
        "0"
    } else if d == 1 {
        "1"
    } else if d == 2 {
        "2"
    } else if d == 3 {
        "3"
    } else if d == 4 {
        "4"
    } else if d == 5 {
        "5"
    } else if d == 6 {
        "6"
    } else if d == 7 {
        "7"
    } else if d == 8 {
        "8"
    } else {
        "9"
    }
}

/// Writes a natural number in decimal.
pub fn natural_to_string(n: u32) -> (s: String)
    ensures
        s@ == natural_text(n as nat),
    decreases n,
{
    if n < 10 {
        String::from_str(digit_str(n))
    } else {
        let mut s = natural_to_string(n / 10);
        s.append(digit_str(n % 10));
        s
    }
}

/// Writes an integer in decimal.
pub fn integer_to_string(i: i32) -> (s: String)
    ensures
        s@ == integer_text(i as int),
{
    if i < 0 {
        let wide: i64 = -(i as i64);
        let mut s = String::from_str("-");
        let digits = natural_to_string(wide as u32);
        s.append(digits.as_str());
        s
    } else {
        natural_to_string(i as u32)
    }
}

/// Writes a truth value as `true` or `false`.
pub fn bool_to_string(b: bool) -> (s: String)
    ensures
        s@ == bool_text(b),
{
    if b {
        String::from_str("true")
    } else {
        String::from_str("false")
    }
}

/// The line end of a rule: a newline where `with_newline` is set, else nothing.
pub fn line_end_str(with_newline: bool) -> (s: &'static str)
    ensures
        s@ == line_end(with_newline),
{
    if with_newline {
        "\n"
    } else {
        proof {
            reveal_strlit("");
        }
        ""
    }
}


/// The numeral of the successor of `n`, written as `S(` numeral of `n` `)`.
pub open spec fn successor(n: nat) -> Seq<char> {
    "S("@ + peano(n) + ")"@
}

/// Writes the Peano numeral of the successor of `nat_num`.
pub fn get_successor_num(nat_num: usize) -> (s: String)
    ensures
        s@ == successor(nat_num as nat),
{
    let mut s = String::from_str("S(");
    s.append(get_peano_num(nat_num).as_str());
    s.append(")");
    s
}

proof fn lemma_repeat_front(s: Seq<char>, n: nat)
    ensures
        repeat(s, n + 1) == s + repeat(s, n),
    decreases n,
{
    if n == 0 {
        assert(repeat(s, 1) =~= s + repeat(s, 0));
    } else {
        lemma_repeat_front(s, (n - 1) as nat);
        assert(repeat(s, n + 1) =~= s + repeat(s, n));
    }
}

/// The successor's numeral is the numeral of the next number.
pub proof fn lemma_successor_is_next(n: nat)
    ensures
        successor(n) == peano(n + 1),
{
    lemma_repeat_front("S("@, n);
    assert(successor(n) =~= peano(n + 1));
}


/// The value of a decimal digit.
pub open spec fn digit_value(c: char) -> Option<nat> {
    if 48 <= c as u32 <= 57 {
        Some((c as u32 - 48) as nat)
    } else {
        None
    }
}

/// Whether the text is made of decimal digits, and of one at least.
pub open spec fn is_digits(s: Seq<char>) -> bool {
    &&& s.len() > 0
    &&& forall|i: int| 0 <= i < s.len() ==> (#[trigger] digit_value(s[i])) is Some
}

/// The number that the first `count` digits of the text write.
pub open spec fn digits_value(s: Seq<char>, count: nat) -> nat
    decreases count,
{
    if count == 0 || count > s.len() {
        0
    } else {
        digits_value(s, (count - 1) as nat) * 10 + match digit_value(s[count - 1]) {
            Some(d) => d,
            None => 0,
        }
    }
}

/// The integer that a decimal text writes: digits, with `-` in front of
/// them for a negative number.
pub open spec fn integer_of(s: Seq<char>) -> Option<int> {
    if s.len() > 0 && s[0] == '-' {
        if is_digits(s.skip(1)) {
            Some(-(digits_value(s.skip(1), (s.len() - 1) as nat) as int))
        } else {
            None
        }
    } else if is_digits(s) {
        Some(digits_value(s, s.len()) as int)
    } else {
        None
    }
}

proof fn lemma_digits_value_grows(s: Seq<char>, count: nat, more: nat)
    requires
        count <= more <= s.len(),
    ensures
        digits_value(s, count) <= digits_value(s, more),
    decreases more,
{
    if count < more {
        lemma_digits_value_grows(s, count, (more - 1) as nat);
    }
}

proof fn lemma_digit_is_ascii(c: char)
    requires
        digit_value(c) is Some,
    ensures
        '\0' <= c <= '\u{7f}',
{
    assert(c as u32 <= '\u{7f}' as u32);
}

proof fn lemma_digits_are_ascii(s: Seq<char>)
    ensures
        is_digits(s) ==> vstd::utf8::is_ascii_chars(s),
{
    if is_digits(s) {
        assert forall|i: int| 0 <= i < s.len() implies '\0' <= #[trigger] s[i] <= '\u{7f}' by {
            assert(digit_value(s[i]) is Some);
            lemma_digit_is_ascii(s[i]);
        }
    }
}

/// Reads the decimal digits of `text` from `from` on. It gives nothing where
/// one of them is no digit or none is there, and an overflow where the
/// number is above `limit`.
fn parse_digits(text: &str, from: usize, limit: u32) -> (r: Option<Result<u32, Error>>)
    requires
        text.is_ascii(),
        from <= text@.len(),
        limit <= 0x8000_0000,
    ensures
        !is_digits(text@.skip(from as int)) ==> r is None,
        is_digits(text@.skip(from as int)) ==> r == Some(
            if digits_value(text@.skip(from as int), (text@.len() - from) as nat) <= limit {
                Ok::<u32, Error>(
                    digits_value(text@.skip(from as int), (text@.len() - from) as nat) as u32,
                )
            } else {
                Err::<u32, Error>(Error::Overflow)
            },
        ),
{
    let len = text.unicode_len();
    let ghost digits = text@.skip(from as int);
    if from >= len {
        return None;
    }
    let mut i: usize = from;
    while i < len
        invariant
            text.is_ascii(),
            len == text@.len(),
            from <= i <= len,
            digits == text@.skip(from as int),
            forall|k: int| 0 <= k < i - from ==> (#[trigger] digit_value(digits[k])) is Some,
        decreases len - i,
    {
        let byte = text.get_ascii(i);
        if byte < 48 || byte > 57 {
            assert(digit_value(digits[i - from]) is None);
            return None;
        }
        i += 1;
    }
    let mut value: u32 = 0;
    let mut i: usize = from;
    while i < len
        invariant
            text.is_ascii(),
            len == text@.len(),
            from <= i <= len,
            digits == text@.skip(from as int),
            is_digits(digits),
            limit <= 0x8000_0000,
            value == digits_value(digits, (i - from) as nat),
            value <= limit,
        decreases len - i,
    {
        let byte = text.get_ascii(i);
        assert(digit_value(digits[i - from]) is Some);
        let next: u64 = value as u64 * 10 + (byte - 48) as u64;
        if next > limit as u64 {
            proof {
                lemma_digits_value_grows(digits, (i - from + 1) as nat, digits.len());
            }
            return Some(Err(Error::Overflow));
        }
        value = next as u32;
        i += 1;
    }
    Some(Ok(value))
}

/// Reads an integer in decimal. A text that writes no integer is unknown
/// text; a number outside the machine integers is an overflow.
pub fn parse_integer(text: &str) -> (r: Result<i32, Error>)
    ensures
        match integer_of(text@) {
            Some(value) => if i32::MIN <= value <= i32::MAX {
                r == Ok::<i32, Error>(value as i32)
            } else {
                r == Err::<i32, Error>(Error::Overflow)
            },
            None => r == Err::<i32, Error>(Error::UnknownText),
        },
{
    if !text.is_ascii() {
        proof {
            lemma_digits_are_ascii(text@);
            if text@.len() > 0 && text@[0] == '-' && is_digits(text@.skip(1)) {
                lemma_digits_are_ascii(text@.skip(1));
                assert forall|i: int| 0 <= i < text@.len() implies '\0' <= #[trigger] text@[i]
                    <= '\u{7f}' by {
                    if i > 0 {
                        assert(text@.skip(1)[i - 1] == text@[i]);
                    }
                }
            }
        }
        return Err(Error::UnknownText);
    }
    let len = text.unicode_len();
    if len > 0 && text.get_ascii(0) == 45 {
        match parse_digits(text, 1, 0x8000_0000) {
            None => Err(Error::UnknownText),
            Some(Err(e)) => Err(e),
            Some(Ok(value)) => {
                let wide: i64 = -(value as i64);
                Ok(wide as i32)
            },
        }
    } else {
        assert(text@.skip(0) =~= text@);
        match parse_digits(text, 0, 0x7fff_ffff) {
            None => Err(Error::UnknownText),
            Some(Err(e)) => Err(e),
            Some(Ok(value)) => Ok(value as i32),
        }
    }
}

} // verus!
