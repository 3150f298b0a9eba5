//! Terminal control sequences, built character-exactly into a frame buffer:
//! cursor positioning and 256-color foreground/background selection.

use vstd::prelude::*;
use crate::math::Point;

verus! {

/// The decimal digits of `n`, most significant first.
pub open spec fn dec_seq(n: nat) -> Seq<char>
    decreases n,
{
    if n < 10 {
        seq![digit_char(n)]
    } else {
        dec_seq(n / 10).push(digit_char(n % 10))
    }
}

/// The character of one decimal digit.
pub open spec fn digit_char(d: nat) -> char {
    if d == 0 {
        '0'
    } else if d == 1 {
        '1'
    } else if d == 2 {
        '2'
    } else if d == 3 {
        '3'
    } else if d == 4 {
        '4'
    } else if d == 5 {
        '5'
    } else if d == 6 {
        '6'
    } else if d == 7 {
        '7'
    } else if d == 8 {
        '8'
    } else {
        '9'
    }
}

/// Appends the character of the decimal digit `d`.
fn push_digit(f: &mut String, d: u8)
    requires
        d < 10,
    ensures
        final(f)@ == old(f)@ + seq![digit_char(d as nat)],
{
    let s: &str = match d {
        0 => "0",
        1 => "1",
        2 => "2",
        3 => "3",
        4 => "4",
        5 => "5",
        6 => "6",
        7 => "7",
        8 => "8",
        _ => "9",
    };
    proof {
        reveal_strlit("0");
        reveal_strlit("1");
        reveal_strlit("2");
        reveal_strlit("3");
        reveal_strlit("4");
        reveal_strlit("5");
        reveal_strlit("6");
        reveal_strlit("7");
        reveal_strlit("8");
        reveal_strlit("9");
        assert(s@ =~= seq![digit_char(d as nat)]);
    }
    f.append(s);
}

/// Appends the decimal form of `n`.
pub fn push_dec(f: &mut String, n: u64)
    ensures
        final(f)@ == old(f)@ + dec_seq(n as nat),
    decreases n,
{
    if n >= 10 {
        push_dec(f, n / 10);
    }
    push_digit(f, (n % 10) as u8);
    proof {
        if n >= 10 {
            assert(old(f)@ + dec_seq((n / 10) as nat) + seq![digit_char((n % 10) as nat)]
                =~= old(f)@ + dec_seq(n as nat));
        } else {
            assert(old(f)@ + seq![digit_char(n as nat)] =~= old(f)@ + dec_seq(n as nat));
        }
    }
}

/// The decimal digits of `n`, zero-padded to at least three places.
pub open spec fn dec3_seq(n: nat) -> Seq<char> {
    if n < 10 {
        seq!['0', '0'] + dec_seq(n)
    } else if n < 100 {
        seq!['0'] + dec_seq(n)
    } else {
        dec_seq(n)
    }
}

/// Appends the decimal form of `n`, zero-padded to at least three places.
pub fn push_dec3(f: &mut String, n: u64)
    ensures
        final(f)@ == old(f)@ + dec3_seq(n as nat),
{
    proof {
        reveal_strlit("00");
        reveal_strlit("0");
    }
    if n < 10 {
        f.append("00");
    } else if n < 100 {
        f.append("0");
    }
    push_dec(f, n);
    proof {
        assert(final(f)@ =~= old(f)@ + dec3_seq(n as nat));
    }
}

/// The control sequence that moves the cursor to row `p.y`, column `p.x`.
pub open spec fn mv_seq(p: Point) -> Seq<char> {
    seq!['\u{1b}', '['] + dec_seq(p.y as nat) + seq![';'] + dec_seq(p.x as nat) + seq!['H']
}

/// Appends a cursor move to row `p.y`, column `p.x`.
pub fn mv(f: &mut String, p: &Point)
    ensures
        final(f)@ == old(f)@ + mv_seq(*p),
{
    proof {
        reveal_strlit("\u{1b}[");
        reveal_strlit(";");
        reveal_strlit("H");
    }
    f.append("\u{1b}[");
    push_dec(f, p.y as u64);
    f.append(";");
    push_dec(f, p.x as u64);
    f.append("H");
    proof {
        assert(final(f)@ =~= old(f)@ + mv_seq(*p));
    }
}

/// The control sequence that moves the cursor `n` columns forward.
pub open spec fn fwd_seq(n: u8) -> Seq<char> {
    seq!['\u{1b}', '['] + dec_seq(n as nat) + seq!['C']
}

/// Appends a cursor move `n` columns forward.
pub fn fwd(f: &mut String, n: u8)
    ensures
        final(f)@ == old(f)@ + fwd_seq(n),
{
    proof {
        reveal_strlit("\u{1b}[");
        reveal_strlit("C");
    }
    f.append("\u{1b}[");
    push_dec(f, n as u64);
    f.append("C");
    proof {
        assert(final(f)@ =~= old(f)@ + fwd_seq(n));
    }
}

/// The control sequence that selects foreground color `id`.
pub open spec fn fg_seq(id: u8) -> Seq<char> {
    seq!['\u{1b}', '[', '3', '8', ';', '5', ';'] + dec_seq(id as nat) + seq!['m']
}

/// Appends a foreground color selection.
pub fn fg(f: &mut String, id: u8)
    ensures
        final(f)@ == old(f)@ + fg_seq(id),
{
    proof {
        reveal_strlit("\u{1b}[38;5;");
        reveal_strlit("m");
    }
    f.append("\u{1b}[38;5;");
    push_dec(f, id as u64);
    f.append("m");
    proof {
        assert(final(f)@ =~= old(f)@ + fg_seq(id));
    }
}

/// The control sequence that selects background color `id`.
pub open spec fn bg_seq(id: u8) -> Seq<char> {
    seq!['\u{1b}', '[', '4', '8', ';', '5', ';'] + dec_seq(id as nat) + seq!['m']
}

/// Appends a background color selection.
pub fn bg(f: &mut String, id: u8)
    ensures
        final(f)@ == old(f)@ + bg_seq(id),
{
    proof {
        reveal_strlit("\u{1b}[48;5;");
        reveal_strlit("m");
    }
    f.append("\u{1b}[48;5;");
    push_dec(f, id as u64);
    f.append("m");
    proof {
        assert(final(f)@ =~= old(f)@ + bg_seq(id));
    }
}

/// The control sequence that resets colors and style.
pub open spec fn reset_seq() -> Seq<char> {
    seq!['\u{1b}', '[', '0', 'm']
}

/// Appends a style reset.
pub fn reset(f: &mut String)
    ensures
        final(f)@ == old(f)@ + reset_seq(),
{
    proof {
        reveal_strlit("\u{1b}[0m");
    }
    f.append("\u{1b}[0m");
    proof {
        assert(final(f)@ =~= old(f)@ + reset_seq());
    }
}

} // verus!
