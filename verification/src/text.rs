//! Building blocks for emitted text: decimal numbers and indentation.

use vstd::prelude::*;
use vstd::string::*;

verus! {

/// The text of a single decimal digit.
pub open spec fn digit_text(d: nat) -> Seq<char> {
    if d == 0 {
        "0"@
    } else if d == 1 {
        "1"@
    } else if d == 2 {
        "2"@
    } else if d == 3 {
        "3"@
    } else if d == 4 {
        "4"@
    } else if d == 5 {
        "5"@
    } else if d == 6 {
        "6"@
    } else if d == 7 {
        "7"@
    } else if d == 8 {
        "8"@
    } else {
        "9"@
    }
}

/// The decimal representation of `n`, without leading zeros.
pub open spec fn decimal(n: nat) -> Seq<char>
    decreases n,
{
    if n < 10 {
        digit_text(n)
    } else {
        decimal(n / 10) + digit_text(n % 10)
    }
}

/// The decimal representation of a signed number, with a leading minus
/// sign for negative values.
pub open spec fn signed_decimal(n: int) -> Seq<char> {
    if n < 0 {
        "-"@ + decimal((-n) as nat)
    } else {
        decimal(n as nat)
    }
}

/// `n` tab characters.
pub open spec fn tabs(n: nat) -> Seq<char>
    decreases n,
{
    if n == 0 {
        Seq::empty()
    } else {
        tabs((n - 1) as nat) + "\t"@
    }
}

/// `w` followed by the line that holds `s` after `indentation` tabs.
pub open spec fn line_out(w: Seq<char>, indentation: nat, s: Seq<char>) -> Seq<char> {
    w + tabs(indentation) + s + "\n"@
}

fn digit_str(d: u64) -> (s: &'static str)
    requires
        d < 10,
    ensures
        s@ == digit_text(d as nat),
{
    if d == 0 {
        "0"
    } else if d == 1 {
        "1"
    } else if d == 2 {
        "2"
    } else if d == 3 {
        "3"
    } else if d == 4 {
        "4"
    } else if d == 5 {
        "5"
    } else if d == 6 {
        "6"
    } else if d == 7 {
        "7"
    } else if d == 8 {
        "8"
    } else {
        "9"
    }
}

/// Appends the decimal representation of `n` to `w`.
pub fn push_decimal(w: &mut String, n: u64)
    ensures
        final(w)@ == old(w)@ + decimal(n as nat),
    decreases n,
{
    if n >= 10 {
        push_decimal(w, n / 10);
    }
    w.append(digit_str(n % 10));
}

/// Appends the decimal representation of `n + 1` to `w`.
pub fn push_successor(w: &mut String, n: usize)
    ensures
        final(w)@ == old(w)@ + decimal((n + 1) as nat),
{
    let m = n as u64;
    if m < u64::MAX {
        push_decimal(w, m + 1);
    } else {
        // 18446744073709551616, printed as quotient and last digit
        push_decimal(w, 1844674407370955161);
        w.append(digit_str(6));
    }
}

/// Appends `s` and a line break to `w`, after `indentation` tabs.
pub fn push_line(w: &mut String, indentation: usize, s: &str)
    ensures
        final(w)@ == line_out(old(w)@, indentation as nat, s@),
{
    push_tabs(w, indentation);
    w.append(s);
    w.append("\n");
}

/// Appends the decimal representation of a `usize` to `w`.
pub fn push_index(w: &mut String, n: usize)
    ensures
        final(w)@ == old(w)@ + decimal(n as nat),
{
    push_decimal(w, n as u64);
}

/// Appends the signed decimal representation of `n` to `w`.
pub fn push_signed(w: &mut String, n: i64)
    ensures
        final(w)@ == old(w)@ + signed_decimal(n as int),
{
    if n < 0 {
        w.append("-");
        let m: u64 = if n == i64::MIN {
            9223372036854775808u64
        } else {
            (-n) as u64
        };
        push_decimal(w, m);
    } else {
        push_decimal(w, n as u64);
    }
}

/// Appends `n` tab characters to `w`.
pub fn push_tabs(w: &mut String, n: usize)
    ensures
        final(w)@ == old(w)@ + tabs(n as nat),
{
    let mut i: usize = 0;
    while i < n
        invariant
            i <= n,
            w@ == old(w)@ + tabs(i as nat),
        decreases n - i,
    {
        w.append("\t");
        i += 1;
    }
}

} // verus!
