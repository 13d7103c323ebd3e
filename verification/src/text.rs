//! Character-level helpers shared by the output sinks: appending string
//! slices to a character buffer, decimal and hexadecimal rendering of color
//! channels, and HTML escaping of glyphs.

use vstd::prelude::*;
use vstd::string::{StrSliceExecFns, StringExecFns};

verus! {

/// Appends every character of `s` to `out`.
pub fn append_str(out: &mut Vec<char>, s: &str)
    ensures
        final(out)@ == old(out)@ + s@,
{
    let n = s.unicode_len();
    let mut i: usize = 0;
    proof {
        assert(old(out)@ + s@.subrange(0, 0) =~= old(out)@);
    }
    while i < n
        invariant
            n == s@.len(),
            i <= n,
            out@ == old(out)@ + s@.subrange(0, i as int),
        decreases n - i,
    {
        let c = s.get_char(i);
        out.push(c);
        i = i + 1;
        proof {
            assert(s@.subrange(0, i as int)
                =~= s@.subrange(0, i - 1).push(s@[i - 1]));
            assert(out@ =~= old(out)@ + s@.subrange(0, i as int));
        }
    }
    proof {
        assert(s@.subrange(0, n as int) =~= s@);
    }
}

/// The decimal digit character for a value in 0..10.
pub open spec fn dec_digit(v: int) -> char {
    if v == 0 {
        '0'
    } else if v == 1 {
        '1'
    } else if v == 2 {
        '2'
    } else if v == 3 {
        '3'
    } else if v == 4 {
        '4'
    } else if v == 5 {
        '5'
    } else if v == 6 {
        '6'
    } else if v == 7 {
        '7'
    } else if v == 8 {
        '8'
    } else {
        '9'
    }
}

/// The decimal rendering of a channel value in 0..256, without leading zeros.
pub open spec fn dec_chars(v: int) -> Seq<char> {
    if v < 10 {
        seq![dec_digit(v)]
    } else if v < 100 {
        seq![dec_digit(v / 10), dec_digit(v % 10)]
    } else {
        seq![dec_digit(v / 100), dec_digit((v / 10) % 10), dec_digit(v % 10)]
    }
}

fn dec_digit_char(v: u8) -> (c: char)
    requires
        v < 10,
    ensures
        c == dec_digit(v as int),
{
    match v {
        0 => '0',
        1 => '1',
        2 => '2',
        3 => '3',
        4 => '4',
        5 => '5',
        6 => '6',
        7 => '7',
        8 => '8',
        _ => '9',
    }
}

/// Appends the decimal rendering of `v` to `out`.
pub fn push_dec(out: &mut Vec<char>, v: u8)
    ensures
        final(out)@ == old(out)@ + dec_chars(v as int),
{
    if v < 10 {
        out.push(dec_digit_char(v));
    } else if v < 100 {
        out.push(dec_digit_char(v / 10));
        out.push(dec_digit_char(v % 10));
    } else {
        out.push(dec_digit_char(v / 100));
        out.push(dec_digit_char((v / 10) % 10));
        out.push(dec_digit_char(v % 10));
    }
    proof {
        assert(out@ =~= old(out)@ + dec_chars(v as int));
    }
}

/// The uppercase hexadecimal digit character for a value in 0..16.
pub open spec fn hex_digit(v: int) -> char {
    if v < 10 {
        dec_digit(v)
    } else if v == 10 {
        'A'
    } else if v == 11 {
        'B'
    } else if v == 12 {
        'C'
    } else if v == 13 {
        'D'
    } else if v == 14 {
        'E'
    } else {
        'F'
    }
}

/// The CSS hex color notation `#RRGGBB` for an RGB triple, uppercase.
pub open spec fn hex_chars(c: (u8, u8, u8)) -> Seq<char> {
    seq![
        '#',
        hex_digit(c.0 as int / 16),
        hex_digit(c.0 as int % 16),
        hex_digit(c.1 as int / 16),
        hex_digit(c.1 as int % 16),
        hex_digit(c.2 as int / 16),
        hex_digit(c.2 as int % 16),
    ]
}

fn hex_digit_char(v: u8) -> (c: char)
    requires
        v < 16,
    ensures
        c == hex_digit(v as int),
{
    match v {
        0 => '0',
        1 => '1',
        2 => '2',
        3 => '3',
        4 => '4',
        5 => '5',
        6 => '6',
        7 => '7',
        8 => '8',
        9 => '9',
        10 => 'A',
        11 => 'B',
        12 => 'C',
        13 => 'D',
        14 => 'E',
        _ => 'F',
    }
}

/// Appends the `#RRGGBB` rendering of `c` to `out`.
pub fn push_hex_color(out: &mut Vec<char>, c: (u8, u8, u8))
    ensures
        final(out)@ == old(out)@ + hex_chars(c),
{
    out.push('#');
    out.push(hex_digit_char(c.0 / 16));
    out.push(hex_digit_char(c.0 % 16));
    out.push(hex_digit_char(c.1 / 16));
    out.push(hex_digit_char(c.1 % 16));
    out.push(hex_digit_char(c.2 / 16));
    out.push(hex_digit_char(c.2 % 16));
    proof {
        assert(out@ =~= old(out)@ + hex_chars(c));
    }
}

/// How a glyph appears in HTML output: markup characters are escaped,
/// everything else passes through unchanged.
pub open spec fn escaped_char(c: char) -> Seq<char> {
    if c == '<' {
        seq!['&', 'l', 't', ';']
    } else if c == '>' {
        seq!['&', 'g', 't', ';']
    } else if c == '&' {
        seq!['&', 'a', 'm', 'p', ';']
    } else {
        seq![c]
    }
}

/// Appends the HTML-escaped form of `c` to `out`.
pub fn push_escaped(out: &mut Vec<char>, c: char)
    ensures
        final(out)@ == old(out)@ + escaped_char(c),
{
    if c == '<' {
        out.push('&');
        out.push('l');
        out.push('t');
        out.push(';');
    } else if c == '>' {
        out.push('&');
        out.push('g');
        out.push('t');
        out.push(';');
    } else if c == '&' {
        out.push('&');
        out.push('a');
        out.push('m');
        out.push('p');
        out.push(';');
    } else {
        out.push(c);
    }
    proof {
        assert(out@ =~= old(out)@ + escaped_char(c));
    }
}


fn hex_digit_str(v: u8) -> (r: &'static str)
    requires
        v < 16,
    ensures
        r@ == seq![hex_digit(v as int)],
{
    if v == 0 {
        proof {
            reveal_strlit("0");
            assert("0"@ =~= seq![hex_digit(v as int)]);
        }
        "0"
    } else if v == 1 {
        proof {
            reveal_strlit("1");
            assert("1"@ =~= seq![hex_digit(v as int)]);
        }
        "1"
    } else if v == 2 {
        proof {
            reveal_strlit("2");
            assert("2"@ =~= seq![hex_digit(v as int)]);
        }
        "2"
    } else if v == 3 {
        proof {
            reveal_strlit("3");
            assert("3"@ =~= seq![hex_digit(v as int)]);
        }
        "3"
    } else if v == 4 {
        proof {
            reveal_strlit("4");
            assert("4"@ =~= seq![hex_digit(v as int)]);
        }
        "4"
    } else if v == 5 {
        proof {
            reveal_strlit("5");
            assert("5"@ =~= seq![hex_digit(v as int)]);
        }
        "5"
    } else if v == 6 {
        proof {
            reveal_strlit("6");
            assert("6"@ =~= seq![hex_digit(v as int)]);
        }
        "6"
    } else if v == 7 {
        proof {
            reveal_strlit("7");
            assert("7"@ =~= seq![hex_digit(v as int)]);
        }
        "7"
    } else if v == 8 {
        proof {
            reveal_strlit("8");
            assert("8"@ =~= seq![hex_digit(v as int)]);
        }
        "8"
    } else if v == 9 {
        proof {
            reveal_strlit("9");
            assert("9"@ =~= seq![hex_digit(v as int)]);
        }
        "9"
    } else if v == 10 {
        proof {
            reveal_strlit("A");
            assert("A"@ =~= seq![hex_digit(v as int)]);
        }
        "A"
    } else if v == 11 {
        proof {
            reveal_strlit("B");
            assert("B"@ =~= seq![hex_digit(v as int)]);
        }
        "B"
    } else if v == 12 {
        proof {
            reveal_strlit("C");
            assert("C"@ =~= seq![hex_digit(v as int)]);
        }
        "C"
    } else if v == 13 {
        proof {
            reveal_strlit("D");
            assert("D"@ =~= seq![hex_digit(v as int)]);
        }
        "D"
    } else if v == 14 {
        proof {
            reveal_strlit("E");
            assert("E"@ =~= seq![hex_digit(v as int)]);
        }
        "E"
    } else {
        proof {
            reveal_strlit("F");
            assert("F"@ =~= seq![hex_digit(v as int)]);
        }
        "F"
    }
}

/// The `#RRGGBB` CSS hex notation of a color, uppercase.
pub fn rgb_to_css_hex(color: (u8, u8, u8)) -> (r: String)
    ensures
        r@ == hex_chars(color),
{
    let mut s = String::from_str("#");
    proof {
        reveal_strlit("#");
    }
    s.append(hex_digit_str(color.0 / 16));
    s.append(hex_digit_str(color.0 % 16));
    s.append(hex_digit_str(color.1 / 16));
    s.append(hex_digit_str(color.1 % 16));
    s.append(hex_digit_str(color.2 / 16));
    s.append(hex_digit_str(color.2 % 16));
    proof {
        assert(s@ =~= hex_chars(color));
    }
    s
}

} // verus!
