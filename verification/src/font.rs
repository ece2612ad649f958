use vstd::prelude::*;

verus! {

/// ASCII upper-casing: `a..=z` map to `A..=Z`, every other byte is kept.
pub open spec fn ascii_upper(c: u8) -> u8 {
    if 97 <= c <= 122 {
        (c - 32) as u8
    } else {
        c
    }
}

/// The 16-segment mask of a character. Bit `i` lights segment `i` in the
/// order A-B-C-D-E-F-G-H-K-M-N-P-R-S-T-U. Letters are shown in upper case;
/// a character without a glyph shows a fallback mark.
pub open spec fn glyph_mask(character: u8) -> u16 {
    let c = ascii_upper(character);
    if c == 32 { 0b0000000000000000u16 }           // ' '
    else if c == 45 { 0b1000100000000000u16 }      // '-'
    else if c == 48 { 0b0100010011111111u16 }      // '0'
    else if c == 49 { 0b0000010000001100u16 }      // '1'
    else if c == 50 { 0b1000100001110111u16 }      // '2'
    else if c == 51 { 0b0000100000111111u16 }      // '3'
    else if c == 52 { 0b1000100010001100u16 }      // '4'
    else if c == 53 { 0b1001000010110011u16 }      // '5'
    else if c == 54 { 0b1000100011111011u16 }      // '6'
    else if c == 55 { 0b0000000000001111u16 }      // '7'
    else if c == 56 { 0b1000100011111111u16 }      // '8'
    else if c == 57 { 0b1000100010111111u16 }      // '9'
    else if c == 65 { 0b1000100011001111u16 }      // 'A'
    else if c == 66 { 0b0010101000111111u16 }      // 'B'
    else if c == 67 { 0b0000000011110011u16 }      // 'C'
    else if c == 68 { 0b0010001000111111u16 }      // 'D'
    else if c == 69 { 0b1000000011110011u16 }      // 'E'
    else if c == 70 { 0b1000000011000011u16 }      // 'F'
    else if c == 71 { 0b0000100011111011u16 }      // 'G'
    else if c == 72 { 0b1000100011001100u16 }      // 'H'
    else if c == 73 { 0b0010001000110011u16 }      // 'I'
    else if c == 74 { 0b0000000001111100u16 }      // 'J'
    else if c == 75 { 0b1001010011000000u16 }      // 'K'
    else if c == 76 { 0b0000000011110000u16 }      // 'L'
    else if c == 77 { 0b0000010111001100u16 }      // 'M'
    else if c == 78 { 0b0001000111001100u16 }      // 'N'
    else if c == 79 { 0b0000000011111111u16 }      // 'O'
    else if c == 80 { 0b1000100011000111u16 }      // 'P'
    else if c == 81 { 0b0001000011111111u16 }      // 'Q'
    else if c == 82 { 0b1001100011000111u16 }      // 'R'
    else if c == 83 { 0b1000100010111011u16 }      // 'S'
    else if c == 84 { 0b0010001000000011u16 }      // 'T'
    else if c == 85 { 0b0000000011111100u16 }      // 'U'
    else if c == 86 { 0b0100010011000000u16 }      // 'V'
    else if c == 87 { 0b0101000011001100u16 }      // 'W'
    else if c == 88 { 0b0101010100000000u16 }      // 'X'
    else if c == 89 { 0b1000100010111100u16 }      // 'Y'
    else if c == 90 { 0b0100010000110011u16 }      // 'Z'
    else { 0b0010100000000111u16 }
}

/// Upper and lower case of a letter look the same.
pub proof fn lemma_glyph_ignores_case(c: u8)
    requires
        97 <= c <= 122,
    ensures
        glyph_mask(c) == glyph_mask((c - 32) as u8),
{
}

/// The masks of the digits '0' to '9', in order, as the font draws them.
pub open spec fn digit_masks() -> Seq<u16> {
    seq![
        0b0100010011111111u16, // '0'
        0b0000010000001100, // '1'
        0b1000100001110111, // '2'
        0b0000100000111111, // '3'
        0b1000100010001100, // '4'
        0b1001000010110011, // '5'
        0b1000100011111011, // '6'
        0b0000000000001111, // '7'
        0b1000100011111111, // '8'
        0b1000100010111111, // '9'
    ]
}

/// The masks of the letters 'A' to 'Z', in order, as the font draws them.
pub open spec fn letter_masks() -> Seq<u16> {
    seq![
        0b1000100011001111u16, // 'A'
        0b0010101000111111, // 'B'
        0b0000000011110011, // 'C'
        0b0010001000111111, // 'D'
        0b1000000011110011, // 'E'
        0b1000000011000011, // 'F'
        0b0000100011111011, // 'G'
        0b1000100011001100, // 'H'
        0b0010001000110011, // 'I'
        0b0000000001111100, // 'J'
        0b1001010011000000, // 'K'
        0b0000000011110000, // 'L'
        0b0000010111001100, // 'M'
        0b0001000111001100, // 'N'
        0b0000000011111111, // 'O'
        0b1000100011000111, // 'P'
        0b0001000011111111, // 'Q'
        0b1001100011000111, // 'R'
        0b1000100010111011, // 'S'
        0b0010001000000011, // 'T'
        0b0000000011111100, // 'U'
        0b0100010011000000, // 'V'
        0b0101000011001100, // 'W'
        0b0101010100000000, // 'X'
        0b1000100010111100, // 'Y'
        0b0100010000110011, // 'Z'
    ]
}

/// The mark shown for a character that has no glyph.
pub open spec fn fallback_mask() -> u16 {
    0b0010100000000111u16
}

/// Each digit shows its own fixed mask: `glyph('0' + d)` is `digit_masks()[d]`.
pub proof fn lemma_digit_glyphs(d: int)
    requires
        0 <= d < 10,
    ensures
        glyph_mask((48 + d) as u8) == digit_masks()[d],
        glyph_mask((48 + d) as u8) != fallback_mask(),
{
    assert(d == 0 || d == 1 || d == 2 || d == 3 || d == 4 || d == 5 || d == 6 || d == 7 || d == 8 || d == 9);
}

/// Each letter, in either case, shows its own fixed mask: `glyph('A' + i)`
/// and `glyph('a' + i)` are `letter_masks()[i]`.
pub proof fn lemma_letter_glyphs(i: int)
    requires
        0 <= i < 26,
    ensures
        glyph_mask((65 + i) as u8) == letter_masks()[i],
        glyph_mask((97 + i) as u8) == letter_masks()[i],
        glyph_mask((65 + i) as u8) != fallback_mask(),
{
    assert(0 <= i <= 4 || 5 <= i <= 9 || 10 <= i <= 14 || 15 <= i <= 19 || 20 <= i <= 25);
}

/// Space is blank and '-' lights the two middle segments.
pub proof fn lemma_blank_and_dash()
    ensures
        glyph_mask(32) == 0,
        glyph_mask(45) == 0b1000100000000000u16,
{
}

/// Characters without a glyph (other than space, '-', digits and letters)
/// show the fallback mark.
pub proof fn lemma_fallback(c: u8)
    requires
        c != 32,
        c != 45,
        !(48 <= c <= 57),
        !(65 <= c <= 90),
        !(97 <= c <= 122),
    ensures
        glyph_mask(c) == fallback_mask(),
{
}

/// No two of the characters with a glyph look alike: distinct digits and
/// letters have distinct masks, and none is the fallback mark.
pub proof fn lemma_glyphs_distinct()
    ensures
        forall|i: int, j: int| 0 <= i < j < 10 ==> digit_masks()[i] != digit_masks()[j],
        forall|i: int, j: int| 0 <= i < j < 26 ==> letter_masks()[i] != letter_masks()[j],
        forall|i: int, j: int| 0 <= i < 10 && 0 <= j < 26 ==> digit_masks()[i] != letter_masks()[j],
        forall|i: int| 0 <= i < 10 ==> digit_masks()[i] != fallback_mask(),
        forall|i: int| 0 <= i < 26 ==> letter_masks()[i] != fallback_mask(),
{
    assert(digit_masks().len() == 10);
    assert(letter_masks().len() == 26);
}

/// Returns the 16-segment mask of `character` (see `glyph_mask`).
pub fn glyph(character: u8) -> (mask: u16)
    ensures
        mask == glyph_mask(character),
{
    let c = if 97 <= character && character <= 122 {
        character - 32
    } else {
        character
    };
    match c {
        32 => 0b0000000000000000, // ' '
        45 => 0b1000100000000000, // '-'
        48 => 0b0100010011111111, // '0'
        49 => 0b0000010000001100, // '1'
        50 => 0b1000100001110111, // '2'
        51 => 0b0000100000111111, // '3'
        52 => 0b1000100010001100, // '4'
        53 => 0b1001000010110011, // '5'
        54 => 0b1000100011111011, // '6'
        55 => 0b0000000000001111, // '7'
        56 => 0b1000100011111111, // '8'
        57 => 0b1000100010111111, // '9'
        65 => 0b1000100011001111, // 'A'
        66 => 0b0010101000111111, // 'B'
        67 => 0b0000000011110011, // 'C'
        68 => 0b0010001000111111, // 'D'
        69 => 0b1000000011110011, // 'E'
        70 => 0b1000000011000011, // 'F'
        71 => 0b0000100011111011, // 'G'
        72 => 0b1000100011001100, // 'H'
        73 => 0b0010001000110011, // 'I'
        74 => 0b0000000001111100, // 'J'
        75 => 0b1001010011000000, // 'K'
        76 => 0b0000000011110000, // 'L'
        77 => 0b0000010111001100, // 'M'
        78 => 0b0001000111001100, // 'N'
        79 => 0b0000000011111111, // 'O'
        80 => 0b1000100011000111, // 'P'
        81 => 0b0001000011111111, // 'Q'
        82 => 0b1001100011000111, // 'R'
        83 => 0b1000100010111011, // 'S'
        84 => 0b0010001000000011, // 'T'
        85 => 0b0000000011111100, // 'U'
        86 => 0b0100010011000000, // 'V'
        87 => 0b0101000011001100, // 'W'
        88 => 0b0101010100000000, // 'X'
        89 => 0b1000100010111100, // 'Y'
        90 => 0b0100010000110011, // 'Z'
        _ => 0b0010100000000111,
    }
}

} // verus!
