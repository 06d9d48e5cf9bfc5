use vstd::prelude::*;

verus! {

/// The character of a decimal digit.
pub open spec fn digit_char(d: nat) -> char {
    ((d + 48) as u8) as char
}

/// The decimal digits of `n`, most significant first, with no leading zero.
pub open spec fn digits(n: nat) -> Seq<char>
    decreases n,
{
    if n < 10 {
        seq![digit_char(n)]
    } else {
        digits(n / 10).push(digit_char(n % 10))
    }
}

/// `n` written in decimal, with a leading `-` where it is negative.
pub open spec fn decimal(n: int) -> Seq<char> {
    if n < 0 {
        seq!['-'] + digits((-n) as nat)
    } else {
        digits(n as nat)
    }
}

pub open spec fn is_digit(c: char) -> bool {
    '0' <= c <= '9'
}

/// The value of a string of decimal digits.
pub open spec fn digits_value(s: Seq<char>) -> int
    decreases s.len(),
{
    if s.len() == 0 {
        0
    } else {
        digits_value(s.drop_last()) * 10 + (s.last() as int - 48)
    }
}

/// `s` without its leading `+` or `-`, if it has one.
pub open spec fn unsigned_part(s: Seq<char>) -> Seq<char> {
    if s.len() > 0 && (s[0] == '-' || s[0] == '+') {
        s.drop_first()
    } else {
        s
    }
}

/// Every character of `t` is a decimal digit.
pub open spec fn all_digits(t: Seq<char>) -> bool {
    forall|i: int| 0 <= i < t.len() ==> is_digit(#[trigger] t[i])
}

/// The integer that `s` spells: an optional `+` or `-`, then one or more
/// decimal digits and nothing else.
pub open spec fn parsed_int(s: Seq<char>) -> Option<int> {
    let body = unsigned_part(s);
    if body.len() > 0 && all_digits(body) {
        Some(
            if s[0] == '-' {
                -digits_value(body)
            } else {
                digits_value(body)
            },
        )
    } else {
        None
    }
}

/// The `i32` that `s` spells, where it spells one in range.
pub open spec fn parsed_i32(s: Seq<char>) -> Option<i32> {
    match parsed_int(s) {
        Some(v) => if i32::MIN <= v <= i32::MAX {
            Some(v as i32)
        } else {
            None
        },
        None => None,
    }
}

/// The one-character string of a decimal digit.
fn digit_str(d: u32) -> (r: &'static str)
    requires
        d < 10,
    ensures
        r@ == seq![digit_char(d as nat)],
{
    proof {
        reveal_strlit("0");
        reveal_strlit("1");
        reveal_strlit("2");
        reveal_strlit("3");
        reveal_strlit("4");
        reveal_strlit("5");
        reveal_strlit("6");
        reveal_strlit("7");
        reveal_strlit("8");
        reveal_strlit("9");
    }
    let r = match d {
        0 => "0",
        1 => "1",
        2 => "2",
        3 => "3",
        4 => "4",
        5 => "5",
        6 => "6",
        7 => "7",
        8 => "8",
        _ => "9",
    };
    assert(r@ =~= seq![digit_char(d as nat)]);
    r
}

/// The decimal digits of `m`.
fn digits_string(m: u32) -> (r: String)
    ensures
        r@ == digits(m as nat),
    decreases m,
{
    if m < 10 {
        String::from_str(digit_str(m))
    } else {
        let mut s = digits_string(m / 10);
        s.append(digit_str(m % 10));
        assert(s@ =~= digits(m as nat));
        s
    }
}

/// `n` in decimal, `-` in front where it is negative.
fn i32_to_string(n: i32) -> (r: String)
    ensures
        r@ == decimal(n as int),
{
    if n < 0 {
        let m: u32 = (-(n as i64)) as u32;
        let mut s = String::from_str("-");
        proof {
            reveal_strlit("-");
        }
        s.append(digits_string(m).as_str());
        assert(s@ =~= decimal(n as int));
        s
    } else {
        digits_string(n as u32)
    }
}

proof fn lemma_digits_value_nonneg(s: Seq<char>)
    requires
        forall|i: int| 0 <= i < s.len() ==> is_digit(#[trigger] s[i]),
    ensures
        digits_value(s) >= 0,
    decreases s.len(),
{
    if s.len() > 0 {
        lemma_digits_value_nonneg(s.drop_last());
        assert(is_digit(s[s.len() - 1]));
    }
}

/// The `i32` that `s` spells: an optional sign, then one or more decimal
/// digits and nothing else, with the value in range.
fn parse_i32(s: &str) -> (r: Option<i32>)
    ensures
        r == parsed_i32(s@),
{
    let len = s.unicode_len();
    if len == 0 {
        return None;
    }
    let first = s.get_char(0);
    let signed = first == '-' || first == '+';
    let start: usize = if signed {
        1
    } else {
        0
    };
    let ghost body = unsigned_part(s@);
    assert(body =~= s@.subrange(start as int, len as int));
    if start >= len {
        return None;
    }
    let mut value: i64 = 0;
    let mut big = false;
    let mut i: usize = start;
    while i < len
        invariant
            start <= i <= len,
            len == s@.len(),
            len > 0,
            first == s@[0],
            signed == (first == '-' || first == '+'),
            body == unsigned_part(s@),
            body == s@.subrange(start as int, len as int),
            forall|j: int| 0 <= j < i - start ==> is_digit(#[trigger] body[j]),
            big ==> digits_value(body.subrange(0, i - start)) > 2147483648,
            !big ==> value == digits_value(body.subrange(0, i - start)) && 0 <= value
                <= 2147483648,
        decreases len - i,
    {
        let c = s.get_char(i);
        assert(body[i - start] == c);
        if !('0' <= c && c <= '9') {
            assert(!is_digit(body[i - start]));
            return None;
        }
        let ghost p = body.subrange(0, i - start);
        let ghost q = body.subrange(0, i - start + 1);
        assert(q.drop_last() =~= p);
        assert(q.last() == c);
        proof {
            lemma_digits_value_nonneg(p);
        }
        if !big {
            let v: i64 = value * 10 + (c as u32 - 48) as i64;
            if v > 2147483648 {
                big = true;
            } else {
                value = v;
            }
        }
        i = i + 1;
    }
    assert(body.subrange(0, len - start) =~= body);
    assert(all_digits(body));
    if big {
        assert(digits_value(body) > 2147483648);
        return None;
    }
    let v: i64 = if first == '-' {
        -value
    } else {
        value
    };
    if v < -2147483648 || v > 2147483647 {
        None
    } else {
        Some(v as i32)
    }
}

/// A value that clients send either as a JSON number or as a string.
#[derive(Clone, Debug)]
pub enum NumberOrString {
    Number(i32),
    String(String),
}

impl NumberOrString {
    /// The value as text: a number in decimal, a string as it is.
    pub fn into_string(self) -> (r: String)
        ensures
            r@ == match self {
                NumberOrString::Number(n) => decimal(n as int),
                NumberOrString::String(s) => s@,
            },
    {
        match self {
            NumberOrString::Number(n) => i32_to_string(n),
            NumberOrString::String(s) => s,
        }
    }

    /// The value as a number: a string must spell an `i32`.
    pub fn into_i32(self) -> (r: Option<i32>)
        ensures
            r == match self {
                NumberOrString::Number(n) => Some(n),
                NumberOrString::String(s) => parsed_i32(s@),
            },
    {
        match self {
            NumberOrString::Number(n) => Some(n),
            NumberOrString::String(s) => parse_i32(s.as_str()),
        }
    }
}

} // verus!
