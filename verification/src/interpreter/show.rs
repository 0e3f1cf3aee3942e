//! The text of integers and booleans, and reading it back.

use vstd::prelude::*;
use vstd::string::*;

verus! {

/// The character of a decimal digit.
pub open spec fn digit_char(d: nat) -> char {
    if d == 0 {
        '0'
    } else if d == 1 {
        '1'
    } else if d == 2 {
        '2'
    } else if d == 3 {
        '3'
    } else if d == 4 {
        '4'
    } else if d == 5 {
        '5'
    } else if d == 6 {
        '6'
    } else if d == 7 {
        '7'
    } else if d == 8 {
        '8'
    } else {
        '9'
    }
}

/// The digit that a character stands for, if it is a decimal digit.
pub open spec fn char_digit(c: char) -> Option<nat> {
    if c == '0' {
        Some(0)
    } else if c == '1' {
        Some(1)
    } else if c == '2' {
        Some(2)
    } else if c == '3' {
        Some(3)
    } else if c == '4' {
        Some(4)
    } else if c == '5' {
        Some(5)
    } else if c == '6' {
        Some(6)
    } else if c == '7' {
        Some(7)
    } else if c == '8' {
        Some(8)
    } else if c == '9' {
        Some(9)
    } else {
        None
    }
}

/// The decimal digits of a natural number, without leading zeros.
pub open spec fn digits(n: nat) -> Seq<char>
    decreases n,
{
    if n < 10 {
        seq![digit_char(n)]
    } else {
        digits(n / 10).push(digit_char(n % 10))
    }
}

/// The decimal text of an integer: its digits, behind a minus sign where it
/// is negative.
pub open spec fn int_text(v: int) -> Seq<char> {
    if v < 0 {
        seq!['-'] + digits((-v) as nat)
    } else {
        digits(v as nat)
    }
}

/// The number that a text of decimal digits stands for; none for the empty
/// text and for a text with another character in it.
pub open spec fn digits_value(s: Seq<char>) -> Option<nat>
    decreases s.len(),
{
    if s.len() == 0 {
        None
    } else {
        match char_digit(s.last()) {
            None => None,
            Some(d) => if s.len() == 1 {
                Some(d)
            } else {
                match digits_value(s.drop_last()) {
                    None => None,
                    Some(rest) => Some(rest * 10 + d),
                }
            },
        }
    }
}

/// The integer that a decimal text stands for: digits, behind a minus sign
/// or not.
pub open spec fn text_int(s: Seq<char>) -> Option<int> {
    if s.len() > 0 && s[0] == '-' {
        match digits_value(s.skip(1)) {
            Some(n) => Some(-(n as int)),
            None => None,
        }
    } else {
        match digits_value(s) {
            Some(n) => Some(n as int),
            None => None,
        }
    }
}

/// Reading the digits of a number gives the number back.
pub proof fn lemma_digits_round_trip(n: nat)
    ensures
        digits(n).len() > 0,
        digits_value(digits(n)) == Some(n),
        digits(n)[0] != '-',
    decreases n,
{
    if n >= 10 {
        lemma_digits_round_trip(n / 10);
        let s = digits(n);
        assert(s.drop_last() =~= digits(n / 10));
        assert(s.last() == digit_char(n % 10));
        assert(char_digit(digit_char(n % 10)) == Some(n % 10));
        assert(s[0] == digits(n / 10)[0]);
    } else {
        assert(char_digit(digit_char(n)) == Some(n));
    }
}

/// Reading the text of an integer gives the integer back.
pub proof fn lemma_int_text_round_trip(v: int)
    ensures
        text_int(int_text(v)) == Some(v),
{
    if v < 0 {
        let n = (-v) as nat;
        lemma_digits_round_trip(n);
        assert(int_text(v).skip(1) =~= digits(n));
    } else {
        lemma_digits_round_trip(v as nat);
    }
}

/// The text of one decimal digit.
fn digit_str(d: u64) -> (r: &'static str)
    requires
        d < 10,
    ensures
        r@ == seq![digit_char(d as nat)],
{
    proof {
        reveal_strlit("0");
        reveal_strlit("1");
        reveal_strlit("2");
        reveal_strlit("3");
        reveal_strlit("4");
        reveal_strlit("5");
        reveal_strlit("6");
        reveal_strlit("7");
        reveal_strlit("8");
        reveal_strlit("9");
    }
    let r = if d == 0 {
        "0"
    } else if d == 1 {
        "1"
    } else if d == 2 {
        "2"
    } else if d == 3 {
        "3"
    } else if d == 4 {
        "4"
    } else if d == 5 {
        "5"
    } else if d == 6 {
        "6"
    } else if d == 7 {
        "7"
    } else if d == 8 {
        "8"
    } else {
        "9"
    };
    assert(r@ =~= seq![digit_char(d as nat)]);
    r
}

/// The decimal digits of a number.
fn digits_string(n: u64) -> (r: String)
    ensures
        r@ == digits(n as nat),
    decreases n,
{
    if n < 10 {
        String::from_str(digit_str(n))
    } else {
        let mut s = digits_string(n / 10);
        s.append(digit_str(n % 10));
        assert(s@ =~= digits(n as nat));
        s
    }
}

/// The decimal digits of a number.
pub fn show_number(n: u128) -> (r: String)
    ensures
        r@ == digits(n as nat),
    decreases n,
{
    if n < 10 {
        String::from_str(digit_str(n as u64))
    } else {
        let mut s = show_number(n / 10);
        s.append(digit_str((n % 10) as u64));
        assert(s@ =~= digits(n as nat));
        s
    }
}

/// The decimal digits of an index.
pub fn show_index(n: usize) -> (r: String)
    ensures
        r@ == digits(n as nat),
    decreases n,
{
    if n < 10 {
        String::from_str(digit_str(n as u64))
    } else {
        let mut s = show_index(n / 10);
        s.append(digit_str((n % 10) as u64));
        assert(s@ =~= digits(n as nat));
        s
    }
}

/// The decimal text of an integer.
pub fn show_int(v: i64) -> (r: String)
    ensures
        r@ == int_text(v as int),
{
    if v < 0 {
        let magnitude: u64 = ((-(v + 1)) as u64) + 1;
        proof {
            reveal_strlit("-");
        }
        let mut s = String::from_str("-");
        let d = digits_string(magnitude);
        s.append(d.as_str());
        assert(s@ =~= int_text(v as int));
        s
    } else {
        digits_string(v as u64)
    }
}

/// The digit that a character stands for.
fn digit_of(c: char) -> (r: Option<u64>)
    ensures
        match r {
            Some(d) => char_digit(c) == Some(d as nat) && d < 10,
            None => char_digit(c).is_none(),
        },
{
    if c == '0' {
        Some(0)
    } else if c == '1' {
        Some(1)
    } else if c == '2' {
        Some(2)
    } else if c == '3' {
        Some(3)
    } else if c == '4' {
        Some(4)
    } else if c == '5' {
        Some(5)
    } else if c == '6' {
        Some(6)
    } else if c == '7' {
        Some(7)
    } else if c == '8' {
        Some(8)
    } else if c == '9' {
        Some(9)
    } else {
        None
    }
}

/// A text of digits stands for a number at least as large as any text that
/// it begins with does.
proof fn lemma_digits_value_prefix(s: Seq<char>, k: int)
    requires
        0 < k <= s.len(),
        digits_value(s).is_some(),
    ensures
        digits_value(s.take(k)).is_some(),
        digits_value(s.take(k)).unwrap() <= digits_value(s).unwrap(),
    decreases s.len(),
{
    if k < s.len() {
        assert(s.drop_last().take(k) =~= s.take(k));
        lemma_digits_value_prefix(s.drop_last(), k);
    } else {
        assert(s.take(k) =~= s);
    }
}

/// Where a text of digits begins with a text that stands for no number,
/// the whole stands for none.
proof fn lemma_digits_value_none(s: Seq<char>, k: int)
    requires
        0 < k <= s.len(),
        digits_value(s.take(k)).is_none(),
    ensures
        digits_value(s).is_none(),
    decreases s.len(),
{
    if k < s.len() {
        assert(s.drop_last().take(k) =~= s.take(k));
        lemma_digits_value_none(s.drop_last(), k);
    } else {
        assert(s.take(k) =~= s);
    }
}

/// The integer that a decimal text stands for, where it stands for one that
/// an `i64` holds.
pub fn parse_int(text: &str) -> (r: Option<i64>)
    ensures
        match r {
            Some(v) => text_int(text@) == Some(v as int),
            None => text_int(text@).is_none() || text_int(text@).unwrap() < i64::MIN || text_int(
                text@,
            ).unwrap() > i64::MAX,
        },
{
    let len = text.unicode_len();
    if len == 0 {
        return None;
    }
    let negative = text.get_char(0) == '-';
    let first: usize = if negative {
        1
    } else {
        0
    };
    if first >= len {
        assert(text@.skip(1).len() == 0);
        return None;
    }
    let ghost body = if negative {
        text@.skip(1)
    } else {
        text@
    };
    let limit: u64 = 9223372036854775808u64;
    let mut value: u64 = 0;
    let mut i: usize = first;
    while i < len
        invariant
            first <= i <= len,
            len == text@.len(),
            len > 0,
            negative == (text@[0] == '-'),
            body.len() == len - first,
            body == (if negative {
                text@.skip(1)
            } else {
                text@
            }),
            limit == 9223372036854775808u64,
            value <= limit,
            i > first ==> digits_value(body.take(i - first)) == Some(value as nat),
        decreases len - i,
    {
        let c = text.get_char(i);
        assert(body[i - first] == c);
        let ghost prefix = body.take(i - first + 1);
        assert(prefix.last() == c);
        assert(prefix.drop_last() =~= body.take(i - first));
        match digit_of(c) {
            None => {
                proof {
                    lemma_digits_value_none(body, i - first + 1);
                }
                return None;
            },
            Some(d) => {
                if i > first && (value > 922337203685477580u64 || value * 10 > limit - d) {
                    proof {
                        if digits_value(body).is_some() {
                            lemma_digits_value_prefix(body, i - first + 1);
                        }
                    }
                    return None;
                }
                value = if i > first {
                    value * 10 + d
                } else {
                    d
                };
            },
        }
        i = i + 1;
    }
    assert(body.take(len - first) =~= body);
    if negative {
        if value == limit {
            Some(i64::MIN)
        } else {
            Some(-(value as i64))
        }
    } else {
        if value == limit {
            None
        } else {
            Some(value as i64)
        }
    }
}

/// The text of a boolean.
pub open spec fn bool_text(v: bool) -> Seq<char> {
    if v {
        "True"@
    } else {
        "False"@
    }
}

/// The boolean that a text stands for.
pub open spec fn text_bool(s: Seq<char>) -> Option<bool> {
    if s == "True"@ {
        Some(true)
    } else if s == "False"@ {
        Some(false)
    } else {
        None
    }
}

/// Reading the text of a boolean gives the boolean back.
pub proof fn lemma_bool_text_round_trip(v: bool)
    ensures
        text_bool(bool_text(v)) == Some(v),
{
    reveal_strlit("True");
    reveal_strlit("False");
    assert("True"@.len() != "False"@.len());
}

/// The text of a boolean.
pub fn show_bool(v: bool) -> (r: String)
    ensures
        r@ == bool_text(v),
{
    if v {
        String::from_str("True")
    } else {
        String::from_str("False")
    }
}

/// The boolean that a text stands for.
pub fn parse_bool(text: &str) -> (r: Option<bool>)
    ensures
        r == text_bool(text@),
{
    if crate::util::str_equal(text, "True") {
        Some(true)
    } else if crate::util::str_equal(text, "False") {
        Some(false)
    } else {
        None
    }
}

} // verus!
