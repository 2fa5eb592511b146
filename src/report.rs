//! The one-line status text for a status bar.
use vstd::prelude::*;
use crate::volume::StatusView;

verus! {

pub open spec fn digit_char(d: nat) -> char {
    if d == 0 {
        '0'
    } else if d == 1 {
        '1'
    } else if d == 2 {
        '2'
    } else if d == 3 {
        '3'
    } else if d == 4 {
        '4'
    } else if d == 5 {
        '5'
    } else if d == 6 {
        '6'
    } else if d == 7 {
        '7'
    } else if d == 8 {
        '8'
    } else {
        '9'
    }
}

/// The decimal digits of `n`.
pub open spec fn nat_text(n: nat) -> Seq<char>
    decreases n,
{
    if n < 10 {
        seq![digit_char(n)]
    } else {
        nat_text(n / 10).push(digit_char(n % 10))
    }
}

/// `n` in decimal, with a leading `-` when negative.
pub open spec fn int_text(n: int) -> Seq<char> {
    if n < 0 {
        seq!['-'] + nat_text((-n) as nat)
    } else {
        nat_text(n as nat)
    }
}

/// The status line of `s`.
pub open spec fn status_line(s: StatusView) -> Seq<char> {
    match s {
        StatusView::Muted => "{\"alt\":\"mute\", \"tooltip\":\"muted\"}"@,
        StatusView::Level(p) => "{\"percentage\":"@ + int_text(p as int) + ", \"tooltip\":\""@
            + int_text(p as int) + "%\"}"@,
    }
}

/// The one-character text of the digit `d`.
fn digit_str(d: u128) -> (r: &'static str)
    requires
        d < 10,
    ensures
        r@ == seq![digit_char(d as nat)],
{
    proof {
        reveal_strlit("0");
        reveal_strlit("1");
        reveal_strlit("2");
        reveal_strlit("3");
        reveal_strlit("4");
        reveal_strlit("5");
        reveal_strlit("6");
        reveal_strlit("7");
        reveal_strlit("8");
        reveal_strlit("9");
    }
    if d == 0 {
        "0"
    } else if d == 1 {
        "1"
    } else if d == 2 {
        "2"
    } else if d == 3 {
        "3"
    } else if d == 4 {
        "4"
    } else if d == 5 {
        "5"
    } else if d == 6 {
        "6"
    } else if d == 7 {
        "7"
    } else if d == 8 {
        "8"
    } else {
        "9"
    }
}

/// Appends the decimal digits of `n` to `out`.
fn push_digits(out: &mut String, n: u128)
    ensures
        final(out)@ == old(out)@ + nat_text(n as nat),
    decreases n,
{
    if n >= 10 {
        push_digits(out, n / 10);
    }
    out.append(digit_str(n % 10));
    assert(nat_text(n as nat) =~= if n < 10 {
        seq![digit_char(n as nat)]
    } else {
        nat_text((n / 10) as nat).push(digit_char((n % 10) as nat))
    });
}

/// `n` in decimal, with a leading `-` when negative.
fn integer_text(n: i128) -> (r: String)
    ensures
        r@ == int_text(n as int),
{
    let mut out = String::new();
    if n < 0 {
        proof {
            reveal_strlit("-");
        }
        out.append("-");
        let magnitude: u128 = (-(n + 1)) as u128 + 1;
        push_digits(&mut out, magnitude);
    } else {
        push_digits(&mut out, n as u128);
    }
    out
}

impl StatusView {
    /// The status line, as a status bar reads it.
    pub fn render(&self) -> (r: String)
        ensures
            r@ == status_line(*self),
    {
        match self {
            StatusView::Muted => String::from_str("{\"alt\":\"mute\", \"tooltip\":\"muted\"}"),
            StatusView::Level(p) => {
                let digits = integer_text(*p);
                let mut out = String::from_str("{\"percentage\":");
                out.append(digits.as_str());
                out.append(", \"tooltip\":\"");
                out.append(digits.as_str());
                out.append("%\"}");
                out
            },
        }
    }
}

} // verus!
