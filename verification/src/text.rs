//! Numbers as decimal text, and the order of texts.

use std::cmp::Ordering;
use vstd::prelude::*;
use vstd::string::StringExecFns;

verus! {

/// The character of the decimal digit `digit` (0 to 9).
pub open spec fn digit_char(digit: int) -> char {
    ('0' as int + digit) as char
}

/// Whether `c` is one of `0` to `9`.
pub open spec fn is_digit(c: char) -> bool {
    '0' <= c <= '9'
}

/// The number that the digit `c` stands for.
pub open spec fn digit_value(c: char) -> int {
    c as int - '0' as int
}

/// The two characters of `n` (0 to 99), with a leading zero below ten.
pub open spec fn two_digits(n: int) -> Seq<char> {
    seq![digit_char(n / 10), digit_char(n % 10)]
}

/// The decimal digits of `n`, without leading zeros.
pub open spec fn decimal_text(n: nat) -> Seq<char>
    decreases n,
{
    if n < 10 {
        seq![digit_char(n as int)]
    } else {
        decimal_text(n / 10).push(digit_char((n % 10) as int))
    }
}

/// The decimal digits of `n`, after a minus sign where `n` is negative.
pub open spec fn signed_decimal_text(n: int) -> Seq<char> {
    if n < 0 {
        seq!['-'] + decimal_text((-n) as nat)
    } else {
        decimal_text(n as nat)
    }
}

/// How far `n` is from zero.
pub open spec fn magnitude_of(n: int) -> nat {
    if n < 0 {
        (-n) as nat
    } else {
        n as nat
    }
}

fn digit_text(digit: u64) -> (s: &'static str)
    requires
        digit < 10,
    ensures
        s@ == seq![digit_char(digit as int)],
{
    proof {
        reveal_strlit("0");
        reveal_strlit("1");
        reveal_strlit("2");
        reveal_strlit("3");
        reveal_strlit("4");
        reveal_strlit("5");
        reveal_strlit("6");
        reveal_strlit("7");
        reveal_strlit("8");
        reveal_strlit("9");
    }
    let s = if digit == 0 {
        "0"
    } else if digit == 1 {
        "1"
    } else if digit == 2 {
        "2"
    } else if digit == 3 {
        "3"
    } else if digit == 4 {
        "4"
    } else if digit == 5 {
        "5"
    } else if digit == 6 {
        "6"
    } else if digit == 7 {
        "7"
    } else if digit == 8 {
        "8"
    } else {
        "9"
    };
    s
}

/// `n` in decimal digits.
pub fn decimal(n: u64) -> (s: String)
    ensures
        s@ == decimal_text(n as nat),
    decreases n,
{
    if n < 10 {
        String::from_str(digit_text(n))
    } else {
        let mut s = decimal(n / 10);
        s.append(digit_text(n % 10));
        s
    }
}

/// How far `n` is from zero.
pub fn magnitude(n: i64) -> (m: u64)
    ensures
        m == magnitude_of(n as int),
{
    if n < 0 {
        let below: i64 = -(n + 1);
        below as u64 + 1
    } else {
        n as u64
    }
}

/// `n` in decimal digits, after a minus sign where it is negative.
pub fn signed_decimal(n: i64) -> (s: String)
    ensures
        s@ == signed_decimal_text(n as int),
{
    let digits = decimal(magnitude(n));
    if n < 0 {
        proof {
            reveal_strlit("-");
        }
        let s = String::from_str("-").concat(digits.as_str());
        s
    } else {
        digits
    }
}

/// How two texts compare: character by character from the front, by the
/// characters' code points; where one text is the beginning of the
/// other, the shorter one is the lesser.
pub open spec fn text_order(a: Seq<char>, b: Seq<char>) -> Ordering
    decreases a.len(),
{
    if a.len() == 0 {
        if b.len() == 0 {
            Ordering::Equal
        } else {
            Ordering::Less
        }
    } else if b.len() == 0 {
        Ordering::Greater
    } else if a[0] < b[0] {
        Ordering::Less
    } else if a[0] > b[0] {
        Ordering::Greater
    } else {
        text_order(a.drop_first(), b.drop_first())
    }
}

/// Two texts compare as equal where they are the same text, and only
/// there.
pub proof fn lemma_text_order_equal_is_same(a: Seq<char>, b: Seq<char>)
    ensures
        text_order(a, b) == Ordering::Equal <==> a == b,
    decreases a.len(),
{
    if a.len() > 0 && b.len() > 0 {
        lemma_text_order_equal_is_same(a.drop_first(), b.drop_first());
        if a[0] == b[0] && a.drop_first() == b.drop_first() {
            assert(a =~= seq![a[0]] + a.drop_first());
            assert(b =~= seq![b[0]] + b.drop_first());
        }
    } else if a.len() == 0 && b.len() == 0 {
        assert(a =~= b);
    }
}

/// `str`'s `cmp`: texts are ordered lexicographically by their bytes,
/// which is the order of their characters' code points.
#[verifier::external_body]
pub(crate) fn compare_texts(a: &str, b: &str) -> (order: Ordering)
    ensures
        order == text_order(a@, b@),
{
    a.cmp(b)
}

} // verus!
