//! Normalization of label colors.
//!
//! A color is written as six hexadecimal digits, optionally preceded by one
//! `#`, in either letter case. Normalization strips the leading `#`, checks
//! the six digits, and folds them to lower case; it runs before any remote
//! call that carries a color.

use vstd::prelude::*;
use crate::error::BiaoError;

verus! {

/// A character the color grammar accepts as a digit.
pub open spec fn is_hex_digit(c: char) -> bool {
    ('0' <= c && c <= '9') || ('a' <= c && c <= 'f') || ('A' <= c && c <= 'F')
}

/// The digit with an upper-case letter folded to lower case.
pub open spec fn hex_lower_char(c: char) -> char {
    if 'A' <= c && c <= 'F' {
        ((c as u32) + 32) as char
    } else {
        c
    }
}

/// Every character folded to lower case.
pub open spec fn lower_hex(s: Seq<char>) -> Seq<char> {
    s.map_values(|c: char| hex_lower_char(c))
}

/// The text with one leading `#` removed, when there is one.
pub open spec fn strip_hash(s: Seq<char>) -> Seq<char> {
    if s.len() > 0 && s[0] == '#' {
        s.drop_first()
    } else {
        s
    }
}

/// Exactly six characters, each a hexadecimal digit.
pub open spec fn valid_color_chars(s: Seq<char>) -> bool {
    s.len() == 6 && (forall|i: int| 0 <= i < s.len() ==> is_hex_digit(#[trigger] s[i]))
}

/// What a malformed length reports.
pub open spec fn color_length_message() -> Seq<char> {
    "Color must be 6 hex digits (e.g., ff0000)"@
}

/// What a malformed digit reports.
pub open spec fn color_digit_message() -> Seq<char> {
    "Invalid hex color format"@
}

/// Strips one leading `#`, requires six hexadecimal digits, and folds them to
/// lower case; rejects everything else with `InvalidInput`.
pub fn normalize_color(color: &str) -> (r: Result<String, BiaoError>)
    ensures
        match r {
            Ok(s) => valid_color_chars(strip_hash(color@)) && s@ == lower_hex(strip_hash(color@)),
            Err(e) => !valid_color_chars(strip_hash(color@)) && e is InvalidInput
                && e.message_view() == (if strip_hash(color@).len() != 6 {
                    color_length_message()
                } else {
                    color_digit_message()
                }),
        },
{
    let n = color.unicode_len();
    let stripped: &str = if n > 0 && color.get_char(0) == '#' {
        color.substring_char(1, n)
    } else {
        color
    };
    proof {
        assert(stripped@ =~= strip_hash(color@));
    }

    let m = stripped.unicode_len();
    if m != 6 {
        return Err(BiaoError::InvalidInput(String::from_str(
            "Color must be 6 hex digits (e.g., ff0000)",
        )));
    }

    let mut out = String::new();
    let mut i: usize = 0;
    while i < 6
        invariant
            0 <= i <= 6,
            stripped@.len() == 6,
            stripped@ == strip_hash(color@),
            out@ == lower_hex(stripped@.take(i as int)),
            forall|j: int| 0 <= j < i ==> is_hex_digit(#[trigger] stripped@[j]),
        decreases 6 - i,
    {
        let c = stripped.get_char(i);
        if ('0' <= c && c <= '9') || ('a' <= c && c <= 'f') {
            let piece = stripped.substring_char(i, i + 1);
            out.append(piece);
            proof {
                assert(piece@ =~= seq![c]);
                assert(hex_lower_char(c) == c);
                assert(out@ =~= lower_hex(stripped@.take(i + 1 as int)));
            }
        } else if 'A' <= c && c <= 'F' {
            let piece: &str = if c == 'A' {
                "a"
            } else if c == 'B' {
                "b"
            } else if c == 'C' {
                "c"
            } else if c == 'D' {
                "d"
            } else if c == 'E' {
                "e"
            } else {
                "f"
            };
            proof {
                reveal_strlit("a");
                reveal_strlit("b");
                reveal_strlit("c");
                reveal_strlit("d");
                reveal_strlit("e");
                reveal_strlit("f");
                assert(piece@ =~= seq![hex_lower_char(c)]);
            }
            out.append(piece);
            proof {
                assert(out@ =~= lower_hex(stripped@.take(i + 1 as int)));
            }
        } else {
            proof {
                assert(!is_hex_digit(stripped@[i as int]));
            }
            return Err(BiaoError::InvalidInput(String::from_str(
                "Invalid hex color format",
            )));
        }
        i = i + 1;
    }
    proof {
        assert(stripped@.take(6) =~= stripped@);
    }
    Ok(out)
}

} // verus!
