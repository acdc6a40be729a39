use swype_kbd::keyboard::{Cap, KeyAction, LayerKind, Rect, VisualKeyboard, COLS, ROWS};

fn row_width(caps: &[Cap], row: i32) -> f32 {
    caps.iter().filter(|c| (c.y2 / 2) as i32 == row).map(|c| c.w2 as f32 / 2.0).sum()
}

#[test]
fn symbol_rows_fill_full_width() {
    let kb = VisualKeyboard::new();
    for kind in [LayerKind::Symbols1, LayerKind::Symbols2] {
        for row in 0..4 {
            let w = row_width(kb.caps(kind), row);
            assert!((w - 10.0).abs() < 1e-3, "{kind:?} row {row} width {w}");
        }
    }
}

#[test]
fn lower_types_lowercase_upper_types_uppercase() {
    let kb = VisualKeyboard::new();
    let q_lower = &kb.caps(LayerKind::LettersLower)[0];
    let q_upper = &kb.caps(LayerKind::LettersUpper)[0];
    assert_eq!(q_lower.action, KeyAction::Char('q'));
    assert_eq!(q_upper.action, KeyAction::Char('Q'));
    // both show the same uppercase label
    assert_eq!(q_lower.label, "Q");
}

#[test]
fn page_switch_keys_exist() {
    let kb = VisualKeyboard::new();
    let has = |kind, a| kb.caps(kind).iter().any(|c: &Cap| c.action == a);
    assert!(has(LayerKind::LettersLower, KeyAction::ToSymbols1));
    assert!(has(LayerKind::Symbols1, KeyAction::ToSymbols2));
    assert!(has(LayerKind::Symbols1, KeyAction::ToLetters));
    assert!(has(LayerKind::Symbols2, KeyAction::ToSymbols1));
    assert!(has(LayerKind::Symbols2, KeyAction::ToLetters));
}

#[test]
fn caps_stay_on_the_grid_and_space_spans_the_middle() {
    let kb = VisualKeyboard::new();
    for kind in [LayerKind::LettersLower, LayerKind::LettersUpper, LayerKind::Symbols1, LayerKind::Symbols2] {
        let caps = kb.caps(kind);
        assert!(caps.iter().all(|c| c.x2 + c.w2 <= 2 * COLS && c.y2 + c.h2 <= 2 * ROWS));
        let space = caps.iter().find(|c| c.action == KeyAction::Space).unwrap();
        assert_eq!((space.x2, space.y2, space.w2, space.h2), (5, 6, 10, 2));
        assert_eq!(space.label, "");
    }
    let lower = kb.caps(LayerKind::LettersLower);
    assert_eq!(lower.len(), 33);
    // home row starts half a key in, bottom row a key and a half
    assert_eq!((lower[10].action, lower[10].x2), (KeyAction::Char('a'), 1));
    assert_eq!((lower[20].action, lower[20].x2), (KeyAction::Char('z'), 3));
    assert_eq!(lower[19].label, "SH");
    assert_eq!(kb.caps(LayerKind::Symbols2)[20].label, "123");
    assert_eq!(kb.caps(LayerKind::Symbols1)[20].label, "#+=");
}

#[test]
fn rect_contains_is_half_open() {
    let r = Rect { x: 10, y: 20, w: 5, h: 2 };
    assert!(r.contains(10, 20));
    assert!(r.contains(14, 21));
    assert!(!r.contains(15, 20));
    assert!(!r.contains(10, 22));
    assert!(!r.contains(9, 20));
    assert!(!Rect { x: 0, y: 0, w: 0, h: 5 }.contains(0, 0));
}
