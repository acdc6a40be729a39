use swype_kbd::font::{glyph, glyph_or_box, text_width, GLYPH_W};

#[test]
fn covers_all_label_chars() {
    // Everything the app draws on a cap or in a label must have a glyph.
    for ch in "abcdefghijklmnopqrstuvwxyz0123456789 ,.?!<>-'".chars() {
        assert!(glyph(ch).is_some(), "missing glyph for {ch:?}");
    }
    // Symbol-layer characters.
    for ch in "@#$&+()/:*\"_;~`|\\^=%{}[]".chars() {
        assert!(glyph(ch).is_some(), "missing glyph for {ch:?}");
    }
}

#[test]
fn letters_are_case_insensitive() {
    assert_eq!(glyph('a'), glyph('A'));
}

#[test]
fn text_width_is_consistent() {
    assert_eq!(text_width("", 2), 0);
    assert_eq!(text_width("A", 1), GLYPH_W);
    assert_eq!(text_width("AB", 1), GLYPH_W * 2 + 1);
}

/// Renders the glyph set as ASCII art when run with `--nocapture`, so the
/// hand-authored bitmaps can be eyeballed for correctness.
#[test]
fn dump_glyphs() {
    for ch in "ABCDEFGHIJKLMNOPQRSTUVWXYZ0123456789@#$&+()/:*\"_;~`|\\^=%{}[]".chars() {
        println!("\n[{ch}]");
        let g = glyph(ch).unwrap();
        for row in g {
            let mut line = String::new();
            for col in (0..GLYPH_W).rev() {
                line.push(if row & (1 << col) != 0 { '#' } else { '.' });
            }
            println!("{line}");
        }
    }
}

#[test]
fn glyph_rows_are_exact_bitmaps() {
    assert_eq!(glyph('A'), Some([0b01110, 0b10001, 0b10001, 0b11111, 0b10001, 0b10001, 0b10001]));
    assert_eq!(glyph('z'), Some([0b11111, 0b00001, 0b00010, 0b00100, 0b01000, 0b10000, 0b11111]));
    assert_eq!(glyph(' '), Some([0; 7]));
    assert_eq!(glyph('.'), Some([0, 0, 0, 0, 0, 0b01100, 0b01100]));
}

#[test]
fn unglyphed_chars_get_a_hollow_box() {
    assert_eq!(glyph('é'), None);
    assert_eq!(glyph('\t'), None);
    assert_eq!(glyph_or_box('é'), [0b11111, 0b10001, 0b10001, 0b10001, 0b10001, 0b10001, 0b11111]);
    assert_eq!(glyph_or_box('b'), glyph('B').unwrap());
}

#[test]
fn every_glyph_row_fits_five_columns() {
    for (_, rows) in swype_kbd::font::GLYPHS.iter() {
        assert!(rows.iter().all(|r| *r < 32));
    }
}

#[test]
fn text_width_scales_and_counts_chars_not_bytes() {
    assert_eq!(text_width("ABC", 2), 3 * 5 * 2 + 2 * 2);
    assert_eq!(text_width("éé", 1), 11);
    assert_eq!(text_width("A", 0), 0);
}
