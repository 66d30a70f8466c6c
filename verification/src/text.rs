use vstd::prelude::*;
use vstd::string::StringExecFns;

verus! {

/// The character of a decimal digit.
pub open spec fn digit_char(d: nat) -> char {
    (48 + d) as char
}

/// The decimal numeral of a natural number, without leading zeros.
pub open spec fn decimal(n: nat) -> Seq<char>
    decreases n,
{
    if n < 10 {
        seq![digit_char(n)]
    } else {
        decimal(n / 10).push(digit_char(n % 10))
    }
}

/// The decimal numeral of an integer, with a leading minus sign when negative.
pub open spec fn int_text(v: int) -> Seq<char> {
    if v < 0 {
        seq!['-'] + decimal((-v) as nat)
    } else {
        decimal(v as nat)
    }
}

/// The status line shown under the title.
pub open spec fn status_text(score: i32, lives: i32, won: bool, over: bool) -> Seq<char> {
    "SCORE "@ + int_text(score as int) + "    LIVES "@ + int_text(lives as int) + (if won {
        "    — YOU WIN! Enter to restart"@
    } else if over {
        "    — GAME OVER! Enter to restart"@
    } else {
        Seq::<char>::empty()
    })
}

/// The string of one decimal digit.
fn digit_str(d: u32) -> (s: &'static str)
    requires
        d < 10,
    ensures
        s@ == seq![digit_char(d as nat)],
{
    match d {
        0 => {
            proof { reveal_strlit("0"); }
            "0"
        },
        1 => {
            proof { reveal_strlit("1"); }
            "1"
        },
        2 => {
            proof { reveal_strlit("2"); }
            "2"
        },
        3 => {
            proof { reveal_strlit("3"); }
            "3"
        },
        4 => {
            proof { reveal_strlit("4"); }
            "4"
        },
        5 => {
            proof { reveal_strlit("5"); }
            "5"
        },
        6 => {
            proof { reveal_strlit("6"); }
            "6"
        },
        7 => {
            proof { reveal_strlit("7"); }
            "7"
        },
        8 => {
            proof { reveal_strlit("8"); }
            "8"
        },
        _ => {
            proof { reveal_strlit("9"); }
            "9"
        },
    }
}

/// Appends the decimal numeral of `n`.
fn append_decimal(s: &mut String, n: u32)
    ensures
        final(s)@ == old(s)@ + decimal(n as nat),
    decreases n,
{
    if n >= 10 {
        append_decimal(s, n / 10);
        s.append(digit_str(n % 10));
        assert(s@ == old(s)@ + decimal(n as nat));
    } else {
        s.append(digit_str(n));
        assert(s@ == old(s)@ + decimal(n as nat));
    }
}

/// Appends the decimal numeral of `v`, with a minus sign when negative.
pub fn append_int(s: &mut String, v: i32)
    ensures
        final(s)@ == old(s)@ + int_text(v as int),
{
    if v < 0 {
        proof { reveal_strlit("-"); }
        s.append("-");
        let m: i64 = -(v as i64);
        append_decimal(s, m as u32);
        assert(s@ == old(s)@ + int_text(v as int));
    } else {
        append_decimal(s, v as u32);
    }
}

/// Builds the status line: the score, the lives left, and how the game ended
/// if it has.
pub fn status_line(score: i32, lives: i32, won: bool, over: bool) -> (s: String)
    ensures
        s@ == status_text(score, lives, won, over),
{
    let mut s = String::new();
    s.append("SCORE ");
    append_int(&mut s, score);
    s.append("    LIVES ");
    append_int(&mut s, lives);
    if won {
        s.append("    — YOU WIN! Enter to restart");
    } else if over {
        s.append("    — GAME OVER! Enter to restart");
    }
    assert(s@ =~= status_text(score, lives, won, over));
    s
}

} // verus!
