//! A tiny embedded 5x7 bitmap font for key caps and labels.
//!
//! Key labels are short ASCII strings, so a hand-authored bitmap is plenty.
//! Each glyph is 7 rows of 5 columns; in each row byte, bit 4 is the leftmost
//! column and bit 0 the rightmost.

use vstd::prelude::*;
use crate::ascii::{ascii_upper, is_ascii_lower, to_upper_ascii};

verus! {

/// Glyph cell dimensions in pixels-before-scaling.
pub const GLYPH_W: usize = 5;
pub const GLYPH_H: usize = 7;

/// Number of glyphs in the font.
pub const GLYPH_COUNT: usize = 69;

/// The font: each covered char (letters in uppercase) with its 7 rows.
pub const GLYPHS: [(char, [u8; 7]); 69] = [
    (' ', [0, 0, 0, 0, 0, 0, 0]),
    ('A', [0b01110, 0b10001, 0b10001, 0b11111, 0b10001, 0b10001, 0b10001]),
    ('B', [0b11110, 0b10001, 0b10001, 0b11110, 0b10001, 0b10001, 0b11110]),
    ('C', [0b01110, 0b10001, 0b10000, 0b10000, 0b10000, 0b10001, 0b01110]),
    ('D', [0b11110, 0b10001, 0b10001, 0b10001, 0b10001, 0b10001, 0b11110]),
    ('E', [0b11111, 0b10000, 0b10000, 0b11110, 0b10000, 0b10000, 0b11111]),
    ('F', [0b11111, 0b10000, 0b10000, 0b11110, 0b10000, 0b10000, 0b10000]),
    ('G', [0b01110, 0b10001, 0b10000, 0b10111, 0b10001, 0b10001, 0b01111]),
    ('H', [0b10001, 0b10001, 0b10001, 0b11111, 0b10001, 0b10001, 0b10001]),
    ('I', [0b01110, 0b00100, 0b00100, 0b00100, 0b00100, 0b00100, 0b01110]),
    ('J', [0b00111, 0b00010, 0b00010, 0b00010, 0b00010, 0b10010, 0b01100]),
    ('K', [0b10001, 0b10010, 0b10100, 0b11000, 0b10100, 0b10010, 0b10001]),
    ('L', [0b10000, 0b10000, 0b10000, 0b10000, 0b10000, 0b10000, 0b11111]),
    ('M', [0b10001, 0b11011, 0b10101, 0b10101, 0b10001, 0b10001, 0b10001]),
    ('N', [0b10001, 0b10001, 0b11001, 0b10101, 0b10011, 0b10001, 0b10001]),
    ('O', [0b01110, 0b10001, 0b10001, 0b10001, 0b10001, 0b10001, 0b01110]),
    ('P', [0b11110, 0b10001, 0b10001, 0b11110, 0b10000, 0b10000, 0b10000]),
    ('Q', [0b01110, 0b10001, 0b10001, 0b10001, 0b10101, 0b10010, 0b01101]),
    ('R', [0b11110, 0b10001, 0b10001, 0b11110, 0b10100, 0b10010, 0b10001]),
    ('S', [0b01111, 0b10000, 0b10000, 0b01110, 0b00001, 0b00001, 0b11110]),
    ('T', [0b11111, 0b00100, 0b00100, 0b00100, 0b00100, 0b00100, 0b00100]),
    ('U', [0b10001, 0b10001, 0b10001, 0b10001, 0b10001, 0b10001, 0b01110]),
    ('V', [0b10001, 0b10001, 0b10001, 0b10001, 0b10001, 0b01010, 0b00100]),
    ('W', [0b10001, 0b10001, 0b10001, 0b10101, 0b10101, 0b11011, 0b10001]),
    ('X', [0b10001, 0b10001, 0b01010, 0b00100, 0b01010, 0b10001, 0b10001]),
    ('Y', [0b10001, 0b10001, 0b01010, 0b00100, 0b00100, 0b00100, 0b00100]),
    ('Z', [0b11111, 0b00001, 0b00010, 0b00100, 0b01000, 0b10000, 0b11111]),
    ('0', [0b01110, 0b10001, 0b10011, 0b10101, 0b11001, 0b10001, 0b01110]),
    ('1', [0b00100, 0b01100, 0b00100, 0b00100, 0b00100, 0b00100, 0b01110]),
    ('2', [0b01110, 0b10001, 0b00001, 0b00010, 0b00100, 0b01000, 0b11111]),
    ('3', [0b11111, 0b00010, 0b00100, 0b00010, 0b00001, 0b10001, 0b01110]),
    ('4', [0b00010, 0b00110, 0b01010, 0b10010, 0b11111, 0b00010, 0b00010]),
    ('5', [0b11111, 0b10000, 0b11110, 0b00001, 0b00001, 0b10001, 0b01110]),
    ('6', [0b00110, 0b01000, 0b10000, 0b11110, 0b10001, 0b10001, 0b01110]),
    ('7', [0b11111, 0b00001, 0b00010, 0b00100, 0b01000, 0b01000, 0b01000]),
    ('8', [0b01110, 0b10001, 0b10001, 0b01110, 0b10001, 0b10001, 0b01110]),
    ('9', [0b01110, 0b10001, 0b10001, 0b01111, 0b00001, 0b00010, 0b01100]),
    (',', [0b00000, 0b00000, 0b00000, 0b00000, 0b00100, 0b00100, 0b01000]),
    ('.', [0b00000, 0b00000, 0b00000, 0b00000, 0b00000, 0b01100, 0b01100]),
    ('\'', [0b00100, 0b00100, 0b01000, 0b00000, 0b00000, 0b00000, 0b00000]),
    ('?', [0b01110, 0b10001, 0b00001, 0b00010, 0b00100, 0b00000, 0b00100]),
    ('!', [0b00100, 0b00100, 0b00100, 0b00100, 0b00100, 0b00000, 0b00100]),
    ('<', [0b00010, 0b00100, 0b01000, 0b10000, 0b01000, 0b00100, 0b00010]),
    ('>', [0b01000, 0b00100, 0b00010, 0b00001, 0b00010, 0b00100, 0b01000]),
    ('-', [0b00000, 0b00000, 0b00000, 0b11111, 0b00000, 0b00000, 0b00000]),
    ('@', [0b01110, 0b10001, 0b10111, 0b10101, 0b10111, 0b10000, 0b01110]),
    ('#', [0b01010, 0b01010, 0b11111, 0b01010, 0b11111, 0b01010, 0b01010]),
    ('$', [0b00100, 0b01111, 0b10100, 0b01110, 0b00101, 0b11110, 0b00100]),
    ('&', [0b01100, 0b10010, 0b10010, 0b01100, 0b10101, 0b10010, 0b01101]),
    ('+', [0b00000, 0b00100, 0b00100, 0b11111, 0b00100, 0b00100, 0b00000]),
    ('(', [0b00010, 0b00100, 0b01000, 0b01000, 0b01000, 0b00100, 0b00010]),
    (')', [0b01000, 0b00100, 0b00010, 0b00010, 0b00010, 0b00100, 0b01000]),
    ('/', [0b00001, 0b00010, 0b00010, 0b00100, 0b01000, 0b01000, 0b10000]),
    (':', [0b00000, 0b01100, 0b01100, 0b00000, 0b01100, 0b01100, 0b00000]),
    ('*', [0b00000, 0b00100, 0b10101, 0b01110, 0b10101, 0b00100, 0b00000]),
    ('"', [0b01010, 0b01010, 0b01010, 0b00000, 0b00000, 0b00000, 0b00000]),
    ('_', [0b00000, 0b00000, 0b00000, 0b00000, 0b00000, 0b00000, 0b11111]),
    (';', [0b00000, 0b01100, 0b01100, 0b00000, 0b01100, 0b00100, 0b01000]),
    ('~', [0b00000, 0b00000, 0b01001, 0b10110, 0b00000, 0b00000, 0b00000]),
    ('`', [0b01000, 0b00100, 0b00010, 0b00000, 0b00000, 0b00000, 0b00000]),
    ('|', [0b00100, 0b00100, 0b00100, 0b00100, 0b00100, 0b00100, 0b00100]),
    ('\\', [0b10000, 0b01000, 0b01000, 0b00100, 0b00010, 0b00010, 0b00001]),
    ('^', [0b00100, 0b01010, 0b10001, 0b00000, 0b00000, 0b00000, 0b00000]),
    ('=', [0b00000, 0b00000, 0b11111, 0b00000, 0b11111, 0b00000, 0b00000]),
    ('%', [0b11000, 0b11001, 0b00010, 0b00100, 0b01000, 0b10011, 0b00011]),
    ('{', [0b00110, 0b01000, 0b01000, 0b11000, 0b01000, 0b01000, 0b00110]),
    ('}', [0b01100, 0b00010, 0b00010, 0b00011, 0b00010, 0b00010, 0b01100]),
    ('[', [0b01110, 0b01000, 0b01000, 0b01000, 0b01000, 0b01000, 0b01110]),
    (']', [0b01110, 0b00010, 0b00010, 0b00010, 0b00010, 0b00010, 0b01110]),
];

/// The rows listed for `c` in `table`, first match.
pub open spec fn table_lookup(table: Seq<(char, [u8; 7])>, c: char) -> Option<[u8; 7]>
    decreases table.len(),
{
    if table.len() == 0 {
        None
    } else if table[0].0 == c {
        Some(table[0].1)
    } else {
        table_lookup(table.drop_first(), c)
    }
}

/// The bitmap drawn for `ch`: letters are drawn from their uppercase form.
pub open spec fn glyph_spec(ch: char) -> Option<[u8; 7]> {
    table_lookup(GLYPHS@, ascii_upper(ch))
}

/// Returns the 7-row bitmap for `ch`, or `None` if unglyphed.
///
/// Letters are rendered from their uppercase form. Unknown printable chars
/// fall back to a hollow box via [`glyph_or_box`].
pub fn glyph(ch: char) -> (r: Option<[u8; 7]>)
    ensures
        r == glyph_spec(ch),
{
    let c = to_upper_ascii(ch);
    let mut i: usize = 0;
    proof {
        assert(GLYPHS@.skip(0) =~= GLYPHS@);
    }
    while i < GLYPH_COUNT
        invariant
            i <= GLYPH_COUNT,
            c == ascii_upper(ch),
            table_lookup(GLYPHS@, c) == table_lookup(GLYPHS@.skip(i as int), c),
        decreases GLYPH_COUNT - i,
    {
        let (k, rows) = GLYPHS[i];
        proof {
            assert(GLYPHS@.skip(i as int)[0] == GLYPHS@[i as int]);
            assert(GLYPHS@.skip(i as int).drop_first() =~= GLYPHS@.skip(i + 1));
        }
        if k == c {
            return Some(rows);
        }
        i = i + 1;
    }
    None
}

/// The hollow box drawn for chars the font lacks.
pub open spec fn hollow_box() -> [u8; 7] {
    [0b11111, 0b10001, 0b10001, 0b10001, 0b10001, 0b10001, 0b11111]
}

/// Like [`glyph`] but renders a hollow box for unglyphed characters so
/// missing coverage is visible rather than blank.
pub fn glyph_or_box(ch: char) -> (r: [u8; 7])
    ensures
        r == (match glyph_spec(ch) {
            Some(g) => g,
            None => hollow_box(),
        }),
{
    match glyph(ch) {
        Some(g) => g,
        None => [0b11111, 0b10001, 0b10001, 0b10001, 0b10001, 0b10001, 0b11111],
    }
}

/// Pixel width of `n` glyphs at integer `scale` with 1-px-scaled spacing.
pub open spec fn text_width_spec(n: int, scale: int) -> int {
    if n == 0 {
        0
    } else {
        n * GLYPH_W * scale + (n - 1) * scale
    }
}

/// Pixel width of `text` rendered at integer `scale` with 1-px-scaled spacing.
pub fn text_width(text: &str, scale: usize) -> (r: usize)
    requires
        text@.len() * GLYPH_W <= usize::MAX,
        text_width_spec(text@.len() as int, scale as int) <= usize::MAX,
    ensures
        r == text_width_spec(text@.len() as int, scale as int),
{
    let n = text.unicode_len();
    if n == 0 {
        return 0;
    }
    proof {
        assert((n - 1) * scale >= 0) by (nonlinear_arith)
            requires
                n >= 1,
        ;
    }
    n * GLYPH_W * scale + (n - 1) * scale
}

/// Every glyph row fits the 5-column cell: only bits 0 to 4 are set.
pub proof fn law_glyph_rows_fit_cell()
    ensures
        forall|i: int, k: int| 0 <= i < GLYPH_COUNT && 0 <= k < 7 ==> (#[trigger] GLYPHS@[i].1[k]) < 32,
{
    assert forall|i: int, k: int| 0 <= i < GLYPH_COUNT && 0 <= k < 7 implies (#[trigger] GLYPHS@[i].1[k]) < 32 by {
        assert(0 <= i < 69);
    }
}

/// Letters are case-insensitive: a lowercase letter draws its uppercase
/// glyph.
pub proof fn law_glyph_case_insensitive(c: char)
    requires
        is_ascii_lower(c),
    ensures
        glyph_spec(c) == glyph_spec(ascii_upper(c)),
{
}

} // verus!
