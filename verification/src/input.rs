//! Constants for the two text-injection channels: the US xkb keymap uploaded
//! to the virtual keyboard, and the evdev keycode tables used to synthesize
//! keystrokes when no text field is active.

use vstd::prelude::*;
use crate::ascii::{ascii_lower, ascii_upper, is_alpha, is_ascii_alpha, is_ascii_lower, is_ascii_upper, is_upper_ascii, to_lower_ascii};

verus! {

/// A US-QWERTY xkb keymap covering every key the virtual keyboard
/// synthesizes (evdev code + 8 = xkb keycode), embedded so the runtime needs
/// no libxkbcommon. Uploaded to the virtual keyboard once at startup.
pub const KEYMAP: &'static str = "xkb_keymap {
xkb_keycodes \"swype\" {
    minimum = 8;
    maximum = 255;
    <ESC> = 9;
    <AE01> = 10;
    <AE02> = 11;
    <AE03> = 12;
    <AE04> = 13;
    <AE05> = 14;
    <AE06> = 15;
    <AE07> = 16;
    <AE08> = 17;
    <AE09> = 18;
    <AE10> = 19;
    <AE11> = 20;
    <AE12> = 21;
    <BKSP> = 22;
    <TAB> = 23;
    <AD01> = 24;
    <AD02> = 25;
    <AD03> = 26;
    <AD04> = 27;
    <AD05> = 28;
    <AD06> = 29;
    <AD07> = 30;
    <AD08> = 31;
    <AD09> = 32;
    <AD10> = 33;
    <AD11> = 34;
    <AD12> = 35;
    <RTRN> = 36;
    <LCTL> = 37;
    <AC01> = 38;
    <AC02> = 39;
    <AC03> = 40;
    <AC04> = 41;
    <AC05> = 42;
    <AC06> = 43;
    <AC07> = 44;
    <AC08> = 45;
    <AC09> = 46;
    <AC10> = 47;
    <AC11> = 48;
    <TLDE> = 49;
    <LFSH> = 50;
    <BKSL> = 51;
    <AB01> = 52;
    <AB02> = 53;
    <AB03> = 54;
    <AB04> = 55;
    <AB05> = 56;
    <AB06> = 57;
    <AB07> = 58;
    <AB08> = 59;
    <AB09> = 60;
    <AB10> = 61;
    <RTSH> = 62;
    <SPCE> = 65;
};
xkb_types \"swype\" {
    virtual_modifiers NumLock;
    type \"ONE_LEVEL\" {
        modifiers = none;
        level_name[Level1] = \"Any\";
    };
    type \"TWO_LEVEL\" {
        modifiers = Shift;
        map[Shift] = Level2;
        level_name[Level1] = \"Base\";
        level_name[Level2] = \"Shift\";
    };
    type \"ALPHABETIC\" {
        modifiers = Shift+Lock;
        map[Shift] = Level2;
        map[Lock] = Level2;
        level_name[Level1] = \"Base\";
        level_name[Level2] = \"Caps\";
    };
};
xkb_compatibility \"swype\" {
    interpret Shift_L { action = SetMods(modifiers=Shift); };
    interpret Shift_R { action = SetMods(modifiers=Shift); };
    interpret Control_L { action = SetMods(modifiers=Control); };
};
xkb_symbols \"swype\" {
    key <ESC> { [ Escape ] };
    key <AE01> { [ 1, exclam ] };
    key <AE02> { [ 2, at ] };
    key <AE03> { [ 3, numbersign ] };
    key <AE04> { [ 4, dollar ] };
    key <AE05> { [ 5, percent ] };
    key <AE06> { [ 6, asciicircum ] };
    key <AE07> { [ 7, ampersand ] };
    key <AE08> { [ 8, asterisk ] };
    key <AE09> { [ 9, parenleft ] };
    key <AE10> { [ 0, parenright ] };
    key <AE11> { [ minus, underscore ] };
    key <AE12> { [ equal, plus ] };
    key <BKSP> { [ BackSpace ] };
    key <TAB> { [ Tab ] };
    key <AD01> { [ q, Q ] };
    key <AD02> { [ w, W ] };
    key <AD03> { [ e, E ] };
    key <AD04> { [ r, R ] };
    key <AD05> { [ t, T ] };
    key <AD06> { [ y, Y ] };
    key <AD07> { [ u, U ] };
    key <AD08> { [ i, I ] };
    key <AD09> { [ o, O ] };
    key <AD10> { [ p, P ] };
    key <AD11> { [ bracketleft, braceleft ] };
    key <AD12> { [ bracketright, braceright ] };
    key <RTRN> { [ Return ] };
    key <LCTL> { [ Control_L ] };
    key <AC01> { [ a, A ] };
    key <AC02> { [ s, S ] };
    key <AC03> { [ d, D ] };
    key <AC04> { [ f, F ] };
    key <AC05> { [ g, G ] };
    key <AC06> { [ h, H ] };
    key <AC07> { [ j, J ] };
    key <AC08> { [ k, K ] };
    key <AC09> { [ l, L ] };
    key <AC10> { [ semicolon, colon ] };
    key <AC11> { [ apostrophe, quotedbl ] };
    key <TLDE> { [ grave, asciitilde ] };
    key <LFSH> { [ Shift_L ] };
    key <BKSL> { [ backslash, bar ] };
    key <AB01> { [ z, Z ] };
    key <AB02> { [ x, X ] };
    key <AB03> { [ c, C ] };
    key <AB04> { [ v, V ] };
    key <AB05> { [ b, B ] };
    key <AB06> { [ n, N ] };
    key <AB07> { [ m, M ] };
    key <AB08> { [ comma, less ] };
    key <AB09> { [ period, greater ] };
    key <AB10> { [ slash, question ] };
    key <RTSH> { [ Shift_R ] };
    key <SPCE> { [ space ] };
    modifier_map Shift { <LFSH>, <RTSH> };
    modifier_map Control { <LCTL> };
};
};
";

// --- evdev keycodes (what zwp_virtual_keyboard_v1.key expects) -------------
// The compositor adds the conventional +8 offset before xkb lookup, so e.g.
// evdev 14 -> xkb <BKSP> (22) -> BackSpace.
pub const KEY_BACKSPACE: u32 = 14;
pub const KEY_ENTER: u32 = 28;

/// wl_keyboard key state.
pub const STATE_RELEASED: u32 = 0;
pub const STATE_PRESSED: u32 = 1;

/// wl_keyboard keymap format: XKB v1.
pub const KEYMAP_FORMAT_XKB_V1: u32 = 1;

/// Evdev keycode of an (either-case) ASCII letter on a US layout.
pub open spec fn letter_code_spec(c: char) -> Option<u32> {
    match ascii_lower(c) {
        'q' => Some(16u32), 'w' => Some(17u32), 'e' => Some(18u32), 'r' => Some(19u32),
        't' => Some(20u32), 'y' => Some(21u32), 'u' => Some(22u32), 'i' => Some(23u32),
        'o' => Some(24u32), 'p' => Some(25u32),
        'a' => Some(30u32), 's' => Some(31u32), 'd' => Some(32u32), 'f' => Some(33u32),
        'g' => Some(34u32), 'h' => Some(35u32), 'j' => Some(36u32), 'k' => Some(37u32),
        'l' => Some(38u32),
        'z' => Some(44u32), 'x' => Some(45u32), 'c' => Some(46u32), 'v' => Some(47u32),
        'b' => Some(48u32), 'n' => Some(49u32), 'm' => Some(50u32),
        _ => None,
    }
}

/// `(evdev keycode, needs_shift)` of a non-letter printable char on a US layout.
pub open spec fn symbol_key_spec(c: char) -> Option<(u32, bool)> {
    match c {
        '1' => Some((2u32, false)), '!' => Some((2u32, true)),
        '2' => Some((3u32, false)), '@' => Some((3u32, true)),
        '3' => Some((4u32, false)), '#' => Some((4u32, true)),
        '4' => Some((5u32, false)), '$' => Some((5u32, true)),
        '5' => Some((6u32, false)), '%' => Some((6u32, true)),
        '6' => Some((7u32, false)), '^' => Some((7u32, true)),
        '7' => Some((8u32, false)), '&' => Some((8u32, true)),
        '8' => Some((9u32, false)), '*' => Some((9u32, true)),
        '9' => Some((10u32, false)), '(' => Some((10u32, true)),
        '0' => Some((11u32, false)), ')' => Some((11u32, true)),
        '-' => Some((12u32, false)), '_' => Some((12u32, true)),
        '=' => Some((13u32, false)), '+' => Some((13u32, true)),
        '[' => Some((26u32, false)), '{' => Some((26u32, true)),
        ']' => Some((27u32, false)), '}' => Some((27u32, true)),
        ';' => Some((39u32, false)), ':' => Some((39u32, true)),
        '\'' => Some((40u32, false)), '"' => Some((40u32, true)),
        '`' => Some((41u32, false)), '~' => Some((41u32, true)),
        '\\' => Some((43u32, false)), '|' => Some((43u32, true)),
        ',' => Some((51u32, false)), '<' => Some((51u32, true)),
        '.' => Some((52u32, false)), '>' => Some((52u32, true)),
        '/' => Some((53u32, false)), '?' => Some((53u32, true)),
        ' ' => Some((57u32, false)),
        _ => None,
    }
}

/// `(evdev keycode, needs_shift)` of a printable ASCII char on a US layout:
/// letters of either case (shift for capitals), digits, space and every
/// US-shifted symbol.
pub open spec fn char_to_key_spec(c: char) -> Option<(u32, bool)> {
    if is_ascii_alpha(c) {
        match letter_code_spec(c) {
            Some(code) => Some((code, is_ascii_upper(c))),
            None => None,
        }
    } else {
        symbol_key_spec(c)
    }
}

/// Evdev keycode for an unshifted letter, or `None` if not a-z.
fn letter_code(c: char) -> (r: Option<u32>)
    ensures
        r == letter_code_spec(c),
{
    Some(
        match to_lower_ascii(c) {
            'q' => 16, 'w' => 17, 'e' => 18, 'r' => 19, 't' => 20,
            'y' => 21, 'u' => 22, 'i' => 23, 'o' => 24, 'p' => 25,
            'a' => 30, 's' => 31, 'd' => 32, 'f' => 33, 'g' => 34,
            'h' => 35, 'j' => 36, 'k' => 37, 'l' => 38,
            'z' => 44, 'x' => 45, 'c' => 46, 'v' => 47, 'b' => 48,
            'n' => 49, 'm' => 50,
            _ => return None,
        },
    )
}

/// Map a printable ASCII character to `(evdev keycode, needs_shift)` on a US
/// layout, for the virtual-keyboard fallback used when no text-input is active.
/// Covers letters (either case), digits, space, and all US-shifted symbols.
pub fn char_to_key(c: char) -> (r: Option<(u32, bool)>)
    ensures
        r == char_to_key_spec(c),
{
    if is_alpha(c) {
        return match letter_code(c) {
            Some(code) => Some((code, is_upper_ascii(c))),
            None => None,
        };
    }
    let pair = match c {
        '1' => (2, false),  '!' => (2, true),
        '2' => (3, false),  '@' => (3, true),
        '3' => (4, false),  '#' => (4, true),
        '4' => (5, false),  '$' => (5, true),
        '5' => (6, false),  '%' => (6, true),
        '6' => (7, false),  '^' => (7, true),
        '7' => (8, false),  '&' => (8, true),
        '8' => (9, false),  '*' => (9, true),
        '9' => (10, false), '(' => (10, true),
        '0' => (11, false), ')' => (11, true),
        '-' => (12, false), '_' => (12, true),
        '=' => (13, false), '+' => (13, true),
        '[' => (26, false), '{' => (26, true),
        ']' => (27, false), '}' => (27, true),
        ';' => (39, false), ':' => (39, true),
        '\'' => (40, false), '"' => (40, true),
        '`' => (41, false), '~' => (41, true),
        '\\' => (43, false), '|' => (43, true),
        ',' => (51, false), '<' => (51, true),
        '.' => (52, false), '>' => (52, true),
        '/' => (53, false), '?' => (53, true),
        ' ' => (57, false),
        _ => return None,
    };
    Some(pair)
}

/// Every ASCII letter has a keycode, and a letter's two cases share it: the
/// lowercase letter types without shift, the uppercase one with it.
pub proof fn law_letters_share_code_across_case(c: char)
    requires
        is_ascii_lower(c),
    ensures
        letter_code_spec(c) is Some,
        char_to_key_spec(c) == Some((letter_code_spec(c)->0, false)),
        char_to_key_spec(ascii_upper(c)) == Some((letter_code_spec(c)->0, true)),
{
    let u = ascii_upper(c);
    assert(ascii_lower(u) == c);
}

/// The top letter row, left to right.
pub open spec fn top_letter_row() -> Seq<char> {
    seq!['q', 'w', 'e', 'r', 't', 'y', 'u', 'i', 'o', 'p']
}

/// The home letter row, left to right.
pub open spec fn home_letter_row() -> Seq<char> {
    seq!['a', 's', 'd', 'f', 'g', 'h', 'j', 'k', 'l']
}

/// The bottom letter row, left to right.
pub open spec fn bottom_letter_row() -> Seq<char> {
    seq!['z', 'x', 'c', 'v', 'b', 'n', 'm']
}

/// The three letter rows map to consecutive evdev codes, as on the physical
/// keyboard: `qwertyuiop` from 16, `asdfghjkl` from 30, `zxcvbnm` from 44.
pub proof fn law_letter_rows_are_consecutive()
    ensures
        forall|i: int| 0 <= i < 10 ==> letter_code_spec(#[trigger] top_letter_row()[i]) == Some((16 + i) as u32),
        forall|i: int| 0 <= i < 9 ==> letter_code_spec(#[trigger] home_letter_row()[i]) == Some((30 + i) as u32),
        forall|i: int| 0 <= i < 7 ==> letter_code_spec(#[trigger] bottom_letter_row()[i]) == Some((44 + i) as u32),
{
    let r0 = top_letter_row();
    let r1 = home_letter_row();
    let r2 = bottom_letter_row();
    assert forall|i: int| 0 <= i < 10 implies letter_code_spec(#[trigger] r0[i]) == Some((16 + i) as u32) by {
        assert(i == 0 || i == 1 || i == 2 || i == 3 || i == 4 || i == 5 || i == 6 || i == 7 || i == 8 || i == 9);
    }
    assert forall|i: int| 0 <= i < 9 implies letter_code_spec(#[trigger] r1[i]) == Some((30 + i) as u32) by {
        assert(i == 0 || i == 1 || i == 2 || i == 3 || i == 4 || i == 5 || i == 6 || i == 7 || i == 8);
    }
    assert forall|i: int| 0 <= i < 7 implies letter_code_spec(#[trigger] r2[i]) == Some((44 + i) as u32) by {
        assert(i == 0 || i == 1 || i == 2 || i == 3 || i == 4 || i == 5 || i == 6);
    }
}

/// The number row, left to right.
pub open spec fn number_row() -> Seq<char> {
    seq!['1', '2', '3', '4', '5', '6', '7', '8', '9', '0']
}

/// The US layout's shifted pairs: each key's plain char and the char the
/// same key types with Shift held.
pub open spec fn us_shift_pairs() -> Seq<(char, char)> {
    seq![
        ('1', '!'), ('2', '@'), ('3', '#'), ('4', '$'), ('5', '%'), ('6', '^'), ('7', '&'),
        ('8', '*'), ('9', '('), ('0', ')'), ('-', '_'), ('=', '+'), ('[', '{'), (']', '}'),
        (';', ':'), ('\'', '"'), ('`', '~'), ('\\', '|'), (',', '<'), ('.', '>'), ('/', '?'),
    ]
}

/// The digits sit on consecutive evdev codes from 2, as on the physical
/// number row (`1` is 2, ..., `9` is 10, `0` is 11), typed without Shift.
pub proof fn law_number_row_is_consecutive()
    ensures
        forall|i: int| 0 <= i < 10 ==> char_to_key_spec(#[trigger] number_row()[i]) == Some(((2 + i) as u32, false)),
{
    let r = number_row();
    assert forall|i: int| 0 <= i < 10 implies char_to_key_spec(#[trigger] r[i]) == Some(((2 + i) as u32, false)) by {
        assert(i == 0 || i == 1 || i == 2 || i == 3 || i == 4 || i == 5 || i == 6 || i == 7 || i == 8 || i == 9);
    }
}

/// A shifted symbol is typed on the key of its plain char with Shift held:
/// `(` goes out as the `9` key with Shift, `:` as the `;` key with Shift.
pub proof fn law_shifted_symbols_share_their_key()
    ensures
        forall|i: int|
            0 <= i < us_shift_pairs().len() ==> (char_to_key_spec((#[trigger] us_shift_pairs()[i]).0) matches Some(
                (code, shift),
            ) && !shift && char_to_key_spec(us_shift_pairs()[i].1) == Some((code, true))),
{
    let ps = us_shift_pairs();
    assert forall|i: int| 0 <= i < ps.len() implies (char_to_key_spec((#[trigger] ps[i]).0) matches Some(
        (code, shift),
    ) && !shift && char_to_key_spec(ps[i].1) == Some((code, true))) by {
        assert(i == 0 || i == 1 || i == 2 || i == 3 || i == 4 || i == 5 || i == 6 || i == 7 || i == 8 || i == 9
            || i == 10 || i == 11 || i == 12 || i == 13 || i == 14 || i == 15 || i == 16 || i == 17 || i == 18
            || i == 19 || i == 20);
    }
}

} // verus!
