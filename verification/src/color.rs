//! Hex color parsing and encoding.
//!
//! A color stop is written as six hex digits, optionally prefixed with
//! `#`. Parsing yields the three RGB channel bytes; encoding renders
//! them back as uppercase hex digits.

use vstd::prelude::*;
use vstd::arithmetic::div_mod::lemma_fundamental_div_mod_converse;

use crate::GradientError;

verus! {

/// The value of a hex digit, or -1 when `c` is not a hex digit.
pub open spec fn hex_val(c: char) -> int {
    if c == '0' {
        0
    } else if c == '1' {
        1
    } else if c == '2' {
        2
    } else if c == '3' {
        3
    } else if c == '4' {
        4
    } else if c == '5' {
        5
    } else if c == '6' {
        6
    } else if c == '7' {
        7
    } else if c == '8' {
        8
    } else if c == '9' {
        9
    } else if c == 'a' || c == 'A' {
        10
    } else if c == 'b' || c == 'B' {
        11
    } else if c == 'c' || c == 'C' {
        12
    } else if c == 'd' || c == 'D' {
        13
    } else if c == 'e' || c == 'E' {
        14
    } else if c == 'f' || c == 'F' {
        15
    } else {
        -1
    }
}

pub open spec fn is_hex_digit(c: char) -> bool {
    hex_val(c) >= 0
}

/// The string with one optional leading `#` removed.
pub open spec fn strip_hash(s: Seq<char>) -> Seq<char> {
    if s.len() > 0 && s[0] == '#' {
        s.subrange(1, s.len() as int)
    } else {
        s
    }
}

/// Exactly six hex digits.
pub open spec fn is_valid_hex6(s: Seq<char>) -> bool {
    &&& s.len() == 6
    &&& forall|i: int| 0 <= i < 6 ==> is_hex_digit(#[trigger] s[i])
}

/// Channel `i` (0 = red, 1 = green, 2 = blue) of a six-hex-digit color.
pub open spec fn hex_byte_at(s: Seq<char>, i: int) -> int {
    16 * hex_val(s[2 * i]) + hex_val(s[2 * i + 1])
}

/// Parses one hex digit, upper or lower case.
fn hex_digit_value(c: char) -> (r: Option<u8>)
    ensures
        r == (if is_hex_digit(c) {
            Some(hex_val(c) as u8)
        } else {
            None::<u8>
        }),
{
    match c {
        '0' => Some(0),
        '1' => Some(1),
        '2' => Some(2),
        '3' => Some(3),
        '4' => Some(4),
        '5' => Some(5),
        '6' => Some(6),
        '7' => Some(7),
        '8' => Some(8),
        '9' => Some(9),
        'a' | 'A' => Some(10),
        'b' | 'B' => Some(11),
        'c' | 'C' => Some(12),
        'd' | 'D' => Some(13),
        'e' | 'E' => Some(14),
        'f' | 'F' => Some(15),
        _ => None,
    }
}

/// Parses a color stop into its three RGB channel bytes.
///
/// Succeeds exactly when the string, after one optional leading `#`,
/// is six hex digits; anything else is an invalid color format.
pub fn hex_to_rgb(hex: &str) -> (res: Result<Vec<u8>, GradientError>)
    ensures
        res matches Ok(rgb) ==> {
            &&& is_valid_hex6(strip_hash(hex@))
            &&& rgb@.len() == 3
            &&& forall|i: int|
                0 <= i < 3 ==> #[trigger] rgb@[i] as int == hex_byte_at(strip_hash(hex@), i)
        },
        res is Err ==> !is_valid_hex6(strip_hash(hex@)) && res == Err::<Vec<u8>, GradientError>(
            GradientError::InvalidColorFormat,
        ),
{
    let ghost stripped = strip_hash(hex@);
    let len = hex.unicode_len();
    let start: usize = if len > 0 && hex.get_char(0) == '#' {
        1
    } else {
        0
    };
    proof {
        assert(stripped =~= hex@.subrange(start as int, len as int));
    }
    if len - start != 6 {
        return Err(GradientError::InvalidColorFormat);
    }
    let mut out: Vec<u8> = Vec::new();
    let mut k: usize = 0;
    while k < 3
        invariant
            stripped == strip_hash(hex@),
            stripped =~= hex@.subrange(start as int, len as int),
            len == hex@.len(),
            start + 6 == len,
            k <= 3,
            out@.len() == k,
            forall|j: int|
                0 <= j < 2 * k ==> is_hex_digit(#[trigger] stripped[j]),
            forall|j: int| 0 <= j < k ==> #[trigger] out@[j] as int == hex_byte_at(stripped, j),
        decreases 3 - k,
    {
        let hi = hex_digit_value(hex.get_char(start + 2 * k));
        let lo = hex_digit_value(hex.get_char(start + 2 * k + 1));
        match (hi, lo) {
            (Some(h), Some(l)) => {
                out.push(16 * h + l);
            },
            _ => {
                proof {
                    assert(stripped[2 * k as int] == hex@[start + 2 * k]);
                    assert(stripped[2 * k as int + 1] == hex@[start + 2 * k + 1]);
                }
                return Err(GradientError::InvalidColorFormat);
            },
        }
        k += 1;
    }
    Ok(out)
}

/// The uppercase hex digit with value `v`; `'0'` when `v` is out of range.
pub open spec fn hex_char_of(v: int) -> char {
    if v == 0 {
        '0'
    } else if v == 1 {
        '1'
    } else if v == 2 {
        '2'
    } else if v == 3 {
        '3'
    } else if v == 4 {
        '4'
    } else if v == 5 {
        '5'
    } else if v == 6 {
        '6'
    } else if v == 7 {
        '7'
    } else if v == 8 {
        '8'
    } else if v == 9 {
        '9'
    } else if v == 10 {
        'A'
    } else if v == 11 {
        'B'
    } else if v == 12 {
        'C'
    } else if v == 13 {
        'D'
    } else if v == 14 {
        'E'
    } else if v == 15 {
        'F'
    } else {
        '0'
    }
}

/// The six uppercase hex digits encoding the channels `r`, `g`, `b`.
pub open spec fn encode_hex6(r: u8, g: u8, b: u8) -> Seq<char> {
    seq![
        hex_char_of(r as int / 16),
        hex_char_of(r as int % 16),
        hex_char_of(g as int / 16),
        hex_char_of(g as int % 16),
        hex_char_of(b as int / 16),
        hex_char_of(b as int % 16),
    ]
}

/// Uppercases the six lowercase hex letters; leaves any other character alone.
pub open spec fn upper_hex_char(c: char) -> char {
    if c == 'a' {
        'A'
    } else if c == 'b' {
        'B'
    } else if c == 'c' {
        'C'
    } else if c == 'd' {
        'D'
    } else if c == 'e' {
        'E'
    } else if c == 'f' {
        'F'
    } else {
        c
    }
}

/// One uppercase hex digit as a string slice.
fn hex_char_str(v: u8) -> (s: &'static str)
    requires
        v < 16,
    ensures
        s@ =~= seq![hex_char_of(v as int)],
{
    match v {
        0 => {
            proof {
                reveal_strlit("0");
            }
            "0"
        },
        1 => {
            proof {
                reveal_strlit("1");
            }
            "1"
        },
        2 => {
            proof {
                reveal_strlit("2");
            }
            "2"
        },
        3 => {
            proof {
                reveal_strlit("3");
            }
            "3"
        },
        4 => {
            proof {
                reveal_strlit("4");
            }
            "4"
        },
        5 => {
            proof {
                reveal_strlit("5");
            }
            "5"
        },
        6 => {
            proof {
                reveal_strlit("6");
            }
            "6"
        },
        7 => {
            proof {
                reveal_strlit("7");
            }
            "7"
        },
        8 => {
            proof {
                reveal_strlit("8");
            }
            "8"
        },
        9 => {
            proof {
                reveal_strlit("9");
            }
            "9"
        },
        10 => {
            proof {
                reveal_strlit("A");
            }
            "A"
        },
        11 => {
            proof {
                reveal_strlit("B");
            }
            "B"
        },
        12 => {
            proof {
                reveal_strlit("C");
            }
            "C"
        },
        13 => {
            proof {
                reveal_strlit("D");
            }
            "D"
        },
        14 => {
            proof {
                reveal_strlit("E");
            }
            "E"
        },
        _ => {
            proof {
                reveal_strlit("F");
            }
            "F"
        },
    }
}

/// Encodes three RGB channel bytes as six uppercase hex digits,
/// zero-padded to two digits per channel.
pub fn rgb_to_hex(r: u8, g: u8, b: u8) -> (s: String)
    ensures
        s@ == encode_hex6(r, g, b),
{
    let mut s = String::new();
    s.append(hex_char_str(r / 16));
    s.append(hex_char_str(r % 16));
    s.append(hex_char_str(g / 16));
    s.append(hex_char_str(g % 16));
    s.append(hex_char_str(b / 16));
    s.append(hex_char_str(b % 16));
    proof {
        assert(s@ =~= encode_hex6(r, g, b));
    }
    s
}

/// Round trip: parsing a six-digit hex color (after its optional `#`)
/// and re-encoding the three parsed channel bytes yields the same six
/// digits, with lowercase hex letters uppercased — that is, the original
/// digits up to letter case.
pub proof fn lemma_hex_round_trip(s: Seq<char>)
    requires
        is_valid_hex6(strip_hash(s)),
    ensures
        encode_hex6(
            hex_byte_at(strip_hash(s), 0) as u8,
            hex_byte_at(strip_hash(s), 1) as u8,
            hex_byte_at(strip_hash(s), 2) as u8,
        ) =~= Seq::new(6, |i: int| upper_hex_char(strip_hash(s)[i])),
{
    let t = strip_hash(s);
    assert(is_hex_digit(t[0]) && is_hex_digit(t[1]) && is_hex_digit(t[2]) && is_hex_digit(t[3])
        && is_hex_digit(t[4]) && is_hex_digit(t[5]));
    lemma_fundamental_div_mod_converse(
        16 * hex_val(t[0]) + hex_val(t[1]),
        16,
        hex_val(t[0]),
        hex_val(t[1]),
    );
    lemma_fundamental_div_mod_converse(
        16 * hex_val(t[2]) + hex_val(t[3]),
        16,
        hex_val(t[2]),
        hex_val(t[3]),
    );
    lemma_fundamental_div_mod_converse(
        16 * hex_val(t[4]) + hex_val(t[5]),
        16,
        hex_val(t[4]),
        hex_val(t[5]),
    );
}

} // verus!
