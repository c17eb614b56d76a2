//! Braille cells and the navigation-highlight subband.
//!
//! A braille cell is a Unicode scalar in U+2800..=U+28FF.  The low 64 cells
//! carry only dots 1-6; the 192 cells with dot 7 and/or dot 8 set form the
//! highlighted subband used for the navigation overlay.  `highlight` sets
//! dots 7 and 8 on a cell; `unhighlight` clears them.

use vstd::prelude::*;

verus! {

/// A Unicode braille cell (U+2800..=U+28FF).
pub open spec fn is_cell(c: char) -> bool {
    0x2800 <= c as u32 && c as u32 <= 0x28FF
}

/// A braille cell with dot 7 and/or dot 8 set: the navigation subband.
pub open spec fn is_highlighted_cell(c: char) -> bool {
    0x2840 <= c as u32 && c as u32 <= 0x28FF
}

/// A braille cell carrying only dots 1-6.
pub open spec fn is_plain_cell(c: char) -> bool {
    0x2800 <= c as u32 && c as u32 <= 0x283F
}

/// The cell with dots 7 and 8 added; other characters are left alone.
pub open spec fn spec_highlight(c: char) -> char {
    if is_cell(c) {
        (c as u32 | 0xC0) as char
    } else {
        c
    }
}

/// The cell with dots 7 and 8 cleared, for cells of the highlighted
/// subband; other characters are left alone.
pub open spec fn spec_unhighlight(c: char) -> char {
    if is_highlighted_cell(c) {
        (c as u32 & 0x283F) as char
    } else {
        c
    }
}

/// Relies on char::from_u32: for a scalar value in the braille block it
/// returns Some of the character with exactly that value.
#[verifier::external_body]
fn cell_char_from_u32(x: u32) -> (c: char)
    requires
        0x2800 <= x && x <= 0x28FF,
    ensures
        c as u32 == x,
{
    char::from_u32(x).unwrap()
}

pub fn is_braille_cell(c: char) -> (r: bool)
    ensures
        r == is_cell(c),
{
    let u = c as u32;
    0x2800 <= u && u <= 0x28FF
}

pub fn is_highlighted(c: char) -> (r: bool)
    ensures
        r == is_highlighted_cell(c),
{
    let u = c as u32;
    0x2840 <= u && u <= 0x28FF
}

/// Set dots 7 and 8 on a braille cell; non-cells pass through unchanged.
pub fn highlight(c: char) -> (r: char)
    ensures
        r == spec_highlight(c),
{
    if is_braille_cell(c) {
        let base = c as u32;
        let u = base | 0xC0;
        proof {
            assert(0x2800 <= (base | 0xC0) && (base | 0xC0) <= 0x28FF) by (bit_vector)
                requires
                    0x2800 <= base && base <= 0x28FF,
            ;
        }
        cell_char_from_u32(u)
    } else {
        c
    }
}

/// Clear dots 7 and 8 on a cell of the highlighted subband; other
/// characters pass through unchanged.
pub fn unhighlight(c: char) -> (r: char)
    ensures
        r == spec_unhighlight(c),
{
    if is_highlighted(c) {
        let base = c as u32;
        let u = base & 0x283F;
        proof {
            assert(0x2800 <= (base & 0x283F) && (base & 0x283F) <= 0x28FF) by (bit_vector)
                requires
                    0x2840 <= base && base <= 0x28FF,
            ;
        }
        cell_char_from_u32(u)
    } else {
        c
    }
}

/// Highlighting never leaves the braille block, and a highlighted result
/// always lies in the navigation subband.
pub proof fn lemma_highlight_is_cell(c: char)
    requires
        is_cell(c),
    ensures
        is_cell(spec_highlight(c)),
        is_highlighted_cell(spec_highlight(c)),
{
    let u: u32 = c as u32;
    assert(0x2840 <= (u | 0xC0) && (u | 0xC0) <= 0x28FF) by (bit_vector)
        requires
            0x2800 <= u && u <= 0x28FF,
    ;
}

/// Clearing dots 7 and 8 yields a plain cell.
pub proof fn lemma_unhighlight_is_plain(c: char)
    requires
        is_highlighted_cell(c),
    ensures
        is_plain_cell(spec_unhighlight(c)),
{
    let u: u32 = c as u32;
    assert(0x2800 <= (u & 0x283F) && (u & 0x283F) <= 0x283F) by (bit_vector)
        requires
            0x2840 <= u && u <= 0x28FF,
    ;
}

/// The braille cells for the letters a-j, which double as digit shapes.
pub open spec fn is_letter_number_cell(c: char) -> bool {
    c == '\u{2801}' || c == '\u{2803}' || c == '\u{2809}' || c == '\u{2819}' || c == '\u{2811}'
        || c == '\u{280B}' || c == '\u{281B}' || c == '\u{2813}' || c == '\u{280A}' || c == '\u{281A}'
}

pub fn is_letter_number(c: char) -> (r: bool)
    ensures
        r == is_letter_number_cell(c),
{
    c == '⠁' || c == '⠃' || c == '⠉' || c == '⠙' || c == '⠑' || c == '⠋' || c == '⠛' || c == '⠓'
        || c == '⠊' || c == '⠚'
}

} // verus!
