//! Route colors as plain red/green/blue bytes, and their rendering as the
//! six-digit uppercase hexadecimal text that is persisted.

use vstd::prelude::*;
use vstd::string::StringExecFns;

verus! {

/// A color as plain red/green/blue bytes.
#[derive(Debug, Clone, Copy, PartialEq, Eq, Hash, Structural)]
pub struct Color {
    pub r: u8,
    pub g: u8,
    pub b: u8,
}

/// The uppercase hexadecimal digit for a nibble value.
pub open spec fn hex_digit(n: int) -> char {
    if n == 0 {
        '0'
    } else if n == 1 {
        '1'
    } else if n == 2 {
        '2'
    } else if n == 3 {
        '3'
    } else if n == 4 {
        '4'
    } else if n == 5 {
        '5'
    } else if n == 6 {
        '6'
    } else if n == 7 {
        '7'
    } else if n == 8 {
        '8'
    } else if n == 9 {
        '9'
    } else if n == 10 {
        'A'
    } else if n == 11 {
        'B'
    } else if n == 12 {
        'C'
    } else if n == 13 {
        'D'
    } else if n == 14 {
        'E'
    } else {
        'F'
    }
}

/// A byte as two uppercase hexadecimal digits.
pub open spec fn byte_hex(b: u8) -> Seq<char> {
    seq![hex_digit(b as int / 16), hex_digit(b as int % 16)]
}

/// A color as six uppercase hexadecimal digits: red, green, blue.
pub open spec fn color_hex(c: Color) -> Seq<char> {
    byte_hex(c.r) + byte_hex(c.g) + byte_hex(c.b)
}

fn hex_digit_str(n: u8) -> (r: &'static str)
    requires
        n < 16,
    ensures
        r@ == seq![hex_digit(n as int)],
{
    let s: &'static str = if n == 0 {
        proof { reveal_strlit("0"); }
        "0"
    } else if n == 1 {
        proof { reveal_strlit("1"); }
        "1"
    } else if n == 2 {
        proof { reveal_strlit("2"); }
        "2"
    } else if n == 3 {
        proof { reveal_strlit("3"); }
        "3"
    } else if n == 4 {
        proof { reveal_strlit("4"); }
        "4"
    } else if n == 5 {
        proof { reveal_strlit("5"); }
        "5"
    } else if n == 6 {
        proof { reveal_strlit("6"); }
        "6"
    } else if n == 7 {
        proof { reveal_strlit("7"); }
        "7"
    } else if n == 8 {
        proof { reveal_strlit("8"); }
        "8"
    } else if n == 9 {
        proof { reveal_strlit("9"); }
        "9"
    } else if n == 10 {
        proof { reveal_strlit("A"); }
        "A"
    } else if n == 11 {
        proof { reveal_strlit("B"); }
        "B"
    } else if n == 12 {
        proof { reveal_strlit("C"); }
        "C"
    } else if n == 13 {
        proof { reveal_strlit("D"); }
        "D"
    } else if n == 14 {
        proof { reveal_strlit("E"); }
        "E"
    } else {
        proof { reveal_strlit("F"); }
        "F"
    };
    proof {
        assert(s@ =~= seq![hex_digit(n as int)]);
    }
    s
}

/// Appends a byte's two uppercase hexadecimal digits.
fn push_byte_hex(s: &mut String, b: u8)
    ensures
        final(s)@ == old(s)@ + byte_hex(b),
{
    s.append(hex_digit_str(b / 16));
    s.append(hex_digit_str(b % 16));
    proof {
        assert(s@ =~= old(s)@ + byte_hex(b));
    }
}

/// Renders an optional color as the persisted text: six uppercase
/// hexadecimal digits, or absent when the color is absent.
pub fn optional_color_to_string(color: &Option<Color>) -> (r: Option<String>)
    ensures
        r is Some <==> color is Some,
        color is Some ==> r.unwrap()@ == color_hex(color.unwrap()),
{
    match color {
        None => None,
        Some(c) => {
            let mut s = String::new();
            push_byte_hex(&mut s, c.r);
            push_byte_hex(&mut s, c.g);
            push_byte_hex(&mut s, c.b);
            proof {
                assert(s@ =~= color_hex(*c));
            }
            Some(s)
        },
    }
}

} // verus!
