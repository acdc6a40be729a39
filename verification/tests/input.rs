use swype_kbd::input::{char_to_key, KEYMAP, KEY_BACKSPACE, KEY_ENTER};

#[test]
fn keymap_is_embedded_and_valid_ish() {
    assert!(KEYMAP.starts_with("xkb_keymap"));
    assert!(KEYMAP.contains("<BKSP>"));
}

#[test]
fn letters_digits_and_symbols_map() {
    assert_eq!(char_to_key('a'), Some((30, false)));
    assert_eq!(char_to_key('A'), Some((30, true)));
    assert_eq!(char_to_key('m'), Some((50, false)));
    assert_eq!(char_to_key('0'), Some((11, false)));
    assert_eq!(char_to_key(' '), Some((57, false)));
    // shifted symbols share the unshifted key's code
    assert_eq!(char_to_key('1').unwrap().0, char_to_key('!').unwrap().0);
    assert!(char_to_key('!').unwrap().1);
    assert_eq!(char_to_key('@'), Some((3, true)));
    assert_eq!(char_to_key('/'), Some((53, false)));
    assert_eq!(char_to_key('?'), Some((53, true)));
    assert_eq!(char_to_key('é'), None);
}

#[test]
fn letter_rows_have_consecutive_codes() {
    for (i, c) in "qwertyuiop".chars().enumerate() {
        assert_eq!(char_to_key(c), Some((16 + i as u32, false)));
        assert_eq!(char_to_key(c.to_ascii_uppercase()), Some((16 + i as u32, true)));
    }
    for (i, c) in "asdfghjkl".chars().enumerate() {
        assert_eq!(char_to_key(c), Some((30 + i as u32, false)));
    }
    for (i, c) in "zxcvbnm".chars().enumerate() {
        assert_eq!(char_to_key(c), Some((44 + i as u32, false)));
    }
}

#[test]
fn every_key_code_is_in_the_keymap_and_controls_are_absent() {
    assert_eq!(char_to_key('\n'), None);
    assert_eq!(char_to_key('\t'), None);
    assert_eq!(KEY_BACKSPACE, 14);
    assert_eq!(KEY_ENTER, 28);
    // evdev 14 -> xkb 22 -> <BKSP>; evdev 28 -> xkb 36 -> <RTRN>.
    assert!(KEYMAP.contains("<BKSP> = 22;"));
    assert!(KEYMAP.contains("<RTRN> = 36;"));
    assert!(KEYMAP.contains("<SPCE> = 65;"));
}
