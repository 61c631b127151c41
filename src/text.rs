use vstd::prelude::*;

use vstd::string::{StrSliceExecFns, StringExecFns};

verus! {

/// The character of a decimal digit.
pub open spec fn digit_char(d: nat) -> char {
    if d == 0 {
        '0'
    } else if d == 1 {
        '1'
    } else if d == 2 {
        '2'
    } else if d == 3 {
        '3'
    } else if d == 4 {
        '4'
    } else if d == 5 {
        '5'
    } else if d == 6 {
        '6'
    } else if d == 7 {
        '7'
    } else if d == 8 {
        '8'
    } else {
        '9'
    }
}

/// The decimal digits of `n`, none for zero.
pub open spec fn digits_of(n: nat) -> Seq<char>
    decreases n,
{
    if n == 0 {
        Seq::empty()
    } else {
        digits_of(n / 10).push(digit_char(n % 10))
    }
}

/// `n` written in decimal, without leading zeros.
pub open spec fn decimal(n: nat) -> Seq<char> {
    if n == 0 {
        seq!['0']
    } else {
        digits_of(n)
    }
}

/// The first `n` characters of `s`, or all of it when it is shorter.
pub open spec fn truncated(s: Seq<char>, n: nat) -> Seq<char> {
    if s.len() <= n {
        s
    } else {
        s.take(n as int)
    }
}

/// The control sequence that moves the cursor up `n` lines.
pub open spec fn cursor_up_seq(n: nat) -> Seq<char> {
    seq!['\x1b', '['] + decimal(n) + seq!['A']
}

/// The control sequence that clears everything after the cursor.
pub open spec fn clear_after_cursor_seq() -> Seq<char> {
    seq!['\x1b', '[', 'J']
}

/// The control sequence that clears the current line.
pub open spec fn clear_current_line_seq() -> Seq<char> {
    seq!['\x1b', '[', '2', 'K']
}

/// Relies on termion's `cursor::Up`, whose `Display` writes `ESC [`, the
/// count in decimal, and `A`.
#[verifier::external_body]
pub(crate) fn cursor_up(n: u16) -> (r: String)
    ensures
        r@ == cursor_up_seq(n as nat),
{
    format!("{}", termion::cursor::Up(n))
}

/// Relies on termion's `clear::AfterCursor`, whose `Display` writes `ESC [ J`.
#[verifier::external_body]
pub(crate) fn clear_after_cursor() -> (r: String)
    ensures
        r@ == clear_after_cursor_seq(),
{
    format!("{}", termion::clear::AfterCursor)
}

/// Relies on termion's `clear::CurrentLine`, whose `Display` writes `ESC [ 2 K`.
#[verifier::external_body]
pub(crate) fn clear_current_line() -> (r: String)
    ensures
        r@ == clear_current_line_seq(),
{
    format!("{}", termion::clear::CurrentLine)
}

fn digit_str(d: u128) -> (r: &'static str)
    requires
        d < 10,
    ensures
        r@ == seq![digit_char(d as nat)],
{
    proof {
        reveal_strlit("0");
        reveal_strlit("1");
        reveal_strlit("2");
        reveal_strlit("3");
        reveal_strlit("4");
        reveal_strlit("5");
        reveal_strlit("6");
        reveal_strlit("7");
        reveal_strlit("8");
        reveal_strlit("9");
    }
    if d == 0 {
        "0"
    } else if d == 1 {
        "1"
    } else if d == 2 {
        "2"
    } else if d == 3 {
        "3"
    } else if d == 4 {
        "4"
    } else if d == 5 {
        "5"
    } else if d == 6 {
        "6"
    } else if d == 7 {
        "7"
    } else if d == 8 {
        "8"
    } else {
        "9"
    }
}

/// `n` written in decimal.
pub fn decimal_string(n: u128) -> (r: String)
    ensures
        r@ == decimal(n as nat),
{
    if n == 0 {
        proof {
            reveal_strlit("0");
        }
        return String::from_str("0");
    }
    let mut s = String::new();
    let mut m: u128 = n;
    while m > 0
        invariant
            digits_of(n as nat) == digits_of(m as nat) + s@,
        decreases m,
    {
        let d = m % 10;
        let ghost s0 = s@;
        s = String::from_str(digit_str(d)).concat(s.as_str());
        assert(digits_of(m as nat) == digits_of((m / 10) as nat).push(digit_char(d as nat)));
        assert(digits_of((m / 10) as nat).push(digit_char(d as nat)) + s0 =~= digits_of(
            (m / 10) as nat,
        ) + s@);
        m = m / 10;
    }
    assert(digits_of(0) + s@ =~= s@);
    s
}

/// The first `n` characters of `s`.
pub fn truncate(s: &str, n: usize) -> (r: &str)
    ensures
        r@ == truncated(s@, n as nat),
{
    let len = s.unicode_len();
    if len <= n {
        s
    } else {
        s.substring_char(0, n)
    }
}

} // verus!
