//! Textual output helpers: the ASCII rendering of a grid and the image
//! path for a generation number.
use vstd::prelude::*;

verus! {

/// The decimal digits of `n`, most significant first.
pub open spec fn dec_digits(n: nat) -> Seq<char>
    decreases n,
{
    if n < 10 {
        seq![digit_char(n as int)]
    } else {
        dec_digits(n / 10).push(digit_char((n % 10) as int))
    }
}

/// The character for one decimal digit.
pub open spec fn digit_char(d: int) -> char {
    if d == 0 {
        '0'
    } else if d == 1 {
        '1'
    } else if d == 2 {
        '2'
    } else if d == 3 {
        '3'
    } else if d == 4 {
        '4'
    } else if d == 5 {
        '5'
    } else if d == 6 {
        '6'
    } else if d == 7 {
        '7'
    } else if d == 8 {
        '8'
    } else {
        '9'
    }
}

/// The decimal rendering of an integer, with a leading minus sign when it
/// is negative.
pub open spec fn dec_string(n: int) -> Seq<char> {
    if n < 0 {
        seq!['-'] + dec_digits((-n) as nat)
    } else {
        dec_digits(n as nat)
    }
}

/// The characters of one rendered row: `x` for an alive cell, `o` for a
/// dead one.
pub open spec fn row_chars(row: Seq<bool>) -> Seq<char> {
    Seq::new(
        row.len(),
        |c: int|
            if row[c] {
                'x'
            } else {
                'o'
            },
    )
}

/// The ASCII rendering of a grid: each row's characters followed by a
/// newline, top row first.
pub open spec fn render_chars(g: Seq<Seq<bool>>) -> Seq<char>
    decreases g.len(),
{
    if g.len() == 0 {
        Seq::empty()
    } else {
        render_chars(g.drop_last()) + row_chars(g.last()) + seq!['\n']
    }
}

/// Appends the decimal digits of `n` to `s`.
fn push_dec(s: &mut String, n: u32)
    ensures
        final(s)@ == old(s)@ + dec_digits(n as nat),
    decreases n,
{
    if n >= 10 {
        push_dec(s, n / 10);
    }
    let d = n % 10;
    let digit: &str = if d == 0 {
        "0"
    } else if d == 1 {
        "1"
    } else if d == 2 {
        "2"
    } else if d == 3 {
        "3"
    } else if d == 4 {
        "4"
    } else if d == 5 {
        "5"
    } else if d == 6 {
        "6"
    } else if d == 7 {
        "7"
    } else if d == 8 {
        "8"
    } else {
        "9"
    };
    proof {
        reveal_strlit("0");
        reveal_strlit("1");
        reveal_strlit("2");
        reveal_strlit("3");
        reveal_strlit("4");
        reveal_strlit("5");
        reveal_strlit("6");
        reveal_strlit("7");
        reveal_strlit("8");
        reveal_strlit("9");
        assert(digit@ == seq![digit_char(d as int)]);
    }
    s.append(digit);
    proof {
        if n >= 10 {
            assert(s@ =~= old(s)@ + dec_digits(n as nat));
        } else {
            assert(s@ =~= old(s)@ + dec_digits(n as nat));
        }
    }
}

/// Builds the image file path for one generation: the generation number in
/// decimal between `img/` and `.png`.
pub fn get_image_path(generation: i32) -> (path: String)
    ensures
        path@ == "img/"@ + dec_string(generation as int) + ".png"@,
{
    let mut filepath = String::new();
    filepath.append("img/");
    if generation < 0 {
        filepath.append("-");
        proof {
            reveal_strlit("-");
        }
        let wide: i64 = -(generation as i64);
        let magnitude: u32 = wide as u32;
        push_dec(&mut filepath, magnitude);
    } else {
        push_dec(&mut filepath, generation as u32);
    }
    filepath.append(".png");
    proof {
        assert(filepath@ =~= "img/"@ + dec_string(generation as int) + ".png"@);
    }
    filepath
}

} // verus!
