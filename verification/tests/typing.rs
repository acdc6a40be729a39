use swype_kbd::capitalize;
use swype_kbd::keyboard::{KeyAction, LayerKind};
use swype_kbd::typing::{
    damage_rect, is_sentence_end, is_tight_punct, key_height, union_box, Base, ImEvent, Shift, SuggestKind,
    TextOp, TypingState,
};

fn commit(s: &str) -> TextOp {
    TextOp::Commit(s.to_string())
}

fn strings(v: &[&str]) -> Vec<String> {
    v.iter().map(|s| s.to_string()).collect()
}

/// A state whose input method is bound and active.
fn active() -> TypingState {
    let mut t = TypingState::new(true);
    t.im_event(ImEvent::Activate);
    t.im_event(ImEvent::Done);
    assert!(t.im_active());
    t
}

fn tap(t: &mut TypingState, a: KeyAction) -> Vec<TextOp> {
    t.handle_action(a).ops
}

#[test]
fn letters_type_through_the_input_method_when_active() {
    let mut t = active();
    assert_eq!(tap(&mut t, KeyAction::Char('h')), vec![commit("h")]);
    assert_eq!(tap(&mut t, KeyAction::Char('i')), vec![commit("i")]);
    assert_eq!(t.current_word(), "hi");
    assert_eq!(tap(&mut t, KeyAction::Space), vec![commit(" ")]);
    assert_eq!(t.current_word(), "");
}

#[test]
fn without_a_text_field_chars_become_keystrokes() {
    let mut t = TypingState::new(false);
    assert_eq!(tap(&mut t, KeyAction::Char('a')), vec![TextOp::Key(30, false)]);
    assert_eq!(tap(&mut t, KeyAction::Char('A')), vec![TextOp::Key(30, true)]);
    assert_eq!(tap(&mut t, KeyAction::Char('?')), vec![TextOp::Key(53, true)]);
    assert_eq!(tap(&mut t, KeyAction::Char('é')), vec![]);
    assert_eq!(tap(&mut t, KeyAction::Space), vec![TextOp::Key(57, false)]);
    assert_eq!(tap(&mut t, KeyAction::Enter), vec![TextOp::Key(28, false)]);
    assert_eq!(tap(&mut t, KeyAction::Backspace), vec![TextOp::Key(14, false)]);
}

#[test]
fn backspace_and_enter_are_always_keys() {
    let mut t = active();
    tap(&mut t, KeyAction::Char('x'));
    assert_eq!(tap(&mut t, KeyAction::Backspace), vec![TextOp::Key(14, false)]);
    assert_eq!(t.current_word(), "");
    assert_eq!(tap(&mut t, KeyAction::Enter), vec![TextOp::Key(28, false)]);
}

#[test]
fn gesture_commits_word_and_space_and_backspace_undoes_it() {
    let mut t = active();
    tap(&mut t, KeyAction::Char('a'));
    tap(&mut t, KeyAction::Space);
    let ops = t.gesture(&strings(&["hello", "help", "hell", "jello", "hells"])).ops;
    assert_eq!(ops, vec![commit("hello ")]);
    assert_eq!(t.suggestions(), &strings(&["hello", "help", "hell", "jello"]));
    assert_eq!(t.suggest_kind(), SuggestKind::GestureAlternates);
    assert_eq!(t.undo(), Some(6));
    let ops = tap(&mut t, KeyAction::Backspace);
    assert_eq!(ops, vec![TextOp::DeleteBefore(6)]);
    assert_eq!(t.undo(), None);
    assert!(t.suggestions().is_empty());
    assert_eq!(t.suggest_kind(), SuggestKind::Empty);
    // the text before the swipe is back: "a " — a second backspace is plain
    assert_eq!(tap(&mut t, KeyAction::Backspace), vec![TextOp::Key(14, false)]);
    assert_eq!(t.current_word(), "a");
}

#[test]
fn undo_without_text_field_is_a_burst_of_backspaces() {
    let mut t = TypingState::new(false);
    let ops = t.gesture(&strings(&["it"])).ops;
    assert_eq!(ops, vec![TextOp::Key(23, false), TextOp::Key(20, false), TextOp::Key(57, false)]);
    let ops = tap(&mut t, KeyAction::Backspace);
    assert_eq!(ops, vec![TextOp::Key(14, false); 3]);
}

#[test]
fn any_other_key_disarms_the_undo() {
    let mut t = active();
    t.gesture(&strings(&["word"]));
    tap(&mut t, KeyAction::Char('x'));
    assert_eq!(tap(&mut t, KeyAction::Backspace), vec![TextOp::Key(14, false)]);
    assert_eq!(tap(&mut t, KeyAction::Backspace), vec![TextOp::Key(14, false)]);
}

#[test]
fn empty_decode_changes_nothing() {
    let mut t = active();
    assert_eq!(t.gesture(&Vec::new()).ops, vec![]);
    assert_eq!(tap(&mut t, KeyAction::Backspace), vec![TextOp::Key(14, false)]);
}

#[test]
fn punctuation_tucks_against_a_swiped_word() {
    let mut t = active();
    t.gesture(&strings(&["hello"]));
    let ops = tap(&mut t, KeyAction::Char('.'));
    assert_eq!(ops, vec![TextOp::DeleteBefore(1), commit("."), commit(" ")]);
    // a sentence ended: the next letter is capitalized
    assert_eq!(t.shift(), Shift::OneShot);
    assert_eq!(t.current_kind(), LayerKind::LettersUpper);
    assert_eq!(tap(&mut t, KeyAction::Char('W')), vec![commit("W")]);
    assert_eq!(t.shift(), Shift::Off);
    assert_eq!(t.current_kind(), LayerKind::LettersLower);
}

#[test]
fn punctuation_without_auto_space_is_typed_plainly() {
    let mut t = active();
    tap(&mut t, KeyAction::Char('a'));
    assert_eq!(tap(&mut t, KeyAction::Char(',')), vec![commit(",")]);
    assert_eq!(t.shift(), Shift::Off);
}

#[test]
fn enter_arms_auto_capitalization() {
    let mut t = active();
    tap(&mut t, KeyAction::Enter);
    assert_eq!(t.current_kind(), LayerKind::LettersUpper);
}

#[test]
fn shift_cycles_one_tap_per_step() {
    let mut t = active();
    assert_eq!(tap(&mut t, KeyAction::Shift), vec![]);
    assert_eq!(t.shift(), Shift::OneShot);
    tap(&mut t, KeyAction::Shift);
    assert_eq!(t.shift(), Shift::Lock);
    tap(&mut t, KeyAction::Char('A'));
    tap(&mut t, KeyAction::Char('B'));
    assert_eq!(t.shift(), Shift::Lock);
    tap(&mut t, KeyAction::Shift);
    assert_eq!(t.shift(), Shift::Off);
    tap(&mut t, KeyAction::Shift);
    assert_eq!(t.shift(), Shift::OneShot);
}

#[test]
fn gesture_under_shift_capitalizes_and_consumes_one_shot() {
    let mut t = active();
    tap(&mut t, KeyAction::Shift);
    let ops = t.gesture(&strings(&["hello", "help"])).ops;
    assert_eq!(ops, vec![commit("Hello ")]);
    assert_eq!(t.suggestions(), &strings(&["Hello", "Help"]));
    assert_eq!(t.shift(), Shift::Off);
}

#[test]
fn layer_switches() {
    let mut t = active();
    tap(&mut t, KeyAction::Shift);
    tap(&mut t, KeyAction::Shift);
    assert_eq!(t.shift(), Shift::Lock);
    tap(&mut t, KeyAction::ToSymbols1);
    assert_eq!(t.base(), Base::Symbols1);
    assert_eq!(t.shift(), Shift::Off);
    assert_eq!(t.current_kind(), LayerKind::Symbols1);
    tap(&mut t, KeyAction::ToSymbols2);
    assert_eq!(t.current_kind(), LayerKind::Symbols2);
    tap(&mut t, KeyAction::Char('1'));
    assert_eq!(t.completion_prefix(), "");
    tap(&mut t, KeyAction::ToLetters);
    assert_eq!(t.current_kind(), LayerKind::LettersLower);
}

#[test]
fn completions_fill_the_bar_and_a_tap_finishes_the_word() {
    let mut t = active();
    tap(&mut t, KeyAction::Char('t'));
    tap(&mut t, KeyAction::Char('h'));
    assert_eq!(t.completion_prefix(), "th");
    t.refresh_completions(&strings(&["the", "this", "that"]));
    assert_eq!(t.suggestions(), &strings(&["the", "this", "that"]));
    assert_eq!(t.suggest_kind(), SuggestKind::Completions);
    let tapped = t.tap_suggestion("this");
    assert_eq!(tapped.ops, vec![commit("i"), commit("s"), commit(" ")]);
    assert!(tapped.refresh);
    assert_eq!(tapped.accepted, Some("this".to_string()));
    assert_eq!(tapped.reward, None);
    assert_eq!(tapped.penalize, None);
    // after the space there is no word: refreshing drops the completions
    t.refresh_completions(&Vec::new());
    assert!(t.suggestions().is_empty());
    // backspace undoes the completion, restoring the typed prefix
    assert_eq!(tap(&mut t, KeyAction::Backspace), vec![TextOp::DeleteBefore(3)]);
    assert_eq!(t.current_word(), "th");
}

#[test]
fn capitalized_prefix_capitalizes_completions() {
    let mut t = active();
    tap(&mut t, KeyAction::Char('T'));
    t.refresh_completions(&strings(&["the", "to"]));
    assert_eq!(t.suggestions(), &strings(&["The", "To"]));
}

#[test]
fn no_completions_clear_only_completions() {
    let mut t = active();
    t.gesture(&strings(&["hello", "help"]));
    tap(&mut t, KeyAction::Char('z'));
    t.refresh_completions(&Vec::new());
    // gesture alternates stay until something replaces them
    assert_eq!(t.suggest_kind(), SuggestKind::GestureAlternates);
}

#[test]
fn tapping_an_alternate_replaces_the_swiped_word() {
    let mut t = active();
    t.gesture(&strings(&["that", "than", "thats"]));
    let tapped = t.tap_suggestion("than");
    assert_eq!(tapped.ops, vec![TextOp::DeleteBefore(5), commit("than ")]);
    assert_eq!(tapped.reward, Some("than".to_string()));
    assert_eq!(tapped.penalize, Some("that".to_string()));
    assert_eq!(tapped.accepted, None);
    assert!(!tapped.refresh);
    assert_eq!(t.suggestions(), &strings(&["than", "that", "thats"]));
    // backspace now removes the replacement
    assert_eq!(tap(&mut t, KeyAction::Backspace), vec![TextOp::DeleteBefore(5)]);
}

#[test]
fn replacing_with_the_same_word_in_other_case_docks_nothing() {
    let mut t = active();
    t.gesture(&strings(&["us", "is"]));
    let tapped = t.tap_suggestion("US");
    assert_eq!(tapped.penalize, None);
    assert_eq!(tapped.reward, Some("US".to_string()));
}

#[test]
fn accepted_words_are_reported() {
    let mut t = active();
    // a swipe accepts the word it commits, as committed
    tap(&mut t, KeyAction::Shift);
    let swiped = t.gesture(&strings(&["hello", "help"]));
    assert_eq!(swiped.accepted, Some("Hello".to_string()));
    assert_eq!(t.gesture(&Vec::new()).accepted, None);
    // a tapped-out word is accepted when Space, Enter or tight punctuation ends it
    tap(&mut t, KeyAction::Char('w'));
    tap(&mut t, KeyAction::Char('e'));
    assert_eq!(t.handle_action(KeyAction::Char('b')).accepted, None);
    assert_eq!(t.handle_action(KeyAction::Space).accepted, Some("web".to_string()));
    // nothing is being typed now
    assert_eq!(t.handle_action(KeyAction::Space).accepted, None);
    tap(&mut t, KeyAction::Char('o'));
    tap(&mut t, KeyAction::Char('k'));
    assert_eq!(t.handle_action(KeyAction::Char(',')).accepted, Some("ok".to_string()));
    tap(&mut t, KeyAction::Char('a'));
    assert_eq!(t.handle_action(KeyAction::Backspace).accepted, None);
    tap(&mut t, KeyAction::Char('x'));
    assert_eq!(t.handle_action(KeyAction::Enter).accepted, Some("x".to_string()));
}

#[test]
fn tapping_an_empty_bar_does_nothing() {
    let mut t = active();
    let tapped = t.tap_suggestion("word");
    assert!(tapped.ops.is_empty());
    assert!(!tapped.refresh);
}

#[test]
fn input_method_activation_waits_for_done() {
    let mut t = TypingState::new(true);
    t.im_event(ImEvent::Activate);
    assert!(!t.im_active());
    assert_eq!(tap(&mut t, KeyAction::Char('a')), vec![TextOp::Key(30, false)]);
    t.im_event(ImEvent::Done);
    assert!(t.im_active());
    assert_eq!(t.im_serial(), 1);
    t.im_event(ImEvent::Deactivate);
    t.im_event(ImEvent::Other);
    assert!(t.im_active());
    t.im_event(ImEvent::Done);
    assert!(!t.im_active());
    assert_eq!(t.im_serial(), 2);
    t.im_event(ImEvent::Activate);
    t.im_event(ImEvent::Done);
    t.im_event(ImEvent::Unavailable);
    assert!(!t.im_active());
    assert_eq!(tap(&mut t, KeyAction::Char('b')), vec![TextOp::Key(48, false)]);
}

#[test]
fn the_left_mirror_is_bounded() {
    let mut t = TypingState::new(false);
    for _ in 0..300 {
        tap(&mut t, KeyAction::Char('a'));
    }
    assert_eq!(t.current_word().len(), 256);
    tap(&mut t, KeyAction::Char('-'));
    assert_eq!(t.current_word(), "");
}

#[test]
fn helpers() {
    assert!(is_tight_punct(';') && !is_tight_punct('-'));
    assert!(is_sentence_end('!') && !is_sentence_end(','));
    assert_eq!(key_height(300), 252);
    assert_eq!(key_height(10), 0);
    let mut acc = None;
    union_box(&mut acc, 10, 20, 5, 5);
    assert_eq!(acc, Some((10, 20, 15, 25)));
    union_box(&mut acc, 0, 22, 3, 10);
    assert_eq!(acc, Some((0, 20, 15, 32)));
}

#[test]
fn damage_covers_both_frames_clipped_to_the_surface() {
    // full repaint: the whole surface
    assert_eq!(damage_rect(true, Some((1, 1, 2, 2)), None, 800, 300), (0, 0, 800, 300));
    // nothing dynamic in either frame: no damage
    assert_eq!(damage_rect(false, None, None, 800, 300), (0, 0, 0, 0));
    // last frame's box only: it is repainted to erase the overlay
    assert_eq!(damage_rect(false, Some((10, 20, 30, 40)), None, 800, 300), (10, 20, 20, 20));
    // union of both frames, clipped at the surface edges
    assert_eq!(
        damage_rect(false, Some((10, 20, 30, 40)), Some((-5, 35, 900, 60)), 800, 300),
        (0, 20, 800, 40)
    );
}

#[test]
fn capitalize_uppercases_the_first_char() {
    assert_eq!(capitalize("hello"), "Hello");
    assert_eq!(capitalize(""), "");
    assert_eq!(capitalize("émile"), "Émile");
    assert_eq!(capitalize("ßa"), "SSa");
    assert_eq!(capitalize("1st"), "1st");
    assert_eq!(capitalize("Hi"), "Hi");
}

#[test]
fn previous_word_and_prediction_context() {
    let mut t = active();
    assert_eq!(t.previous_word(), None);
    for c in "good ".chars() {
        tap(&mut t, if c == ' ' { KeyAction::Space } else { KeyAction::Char(c) });
    }
    // no word in progress: the word before the cursor is the context
    assert_eq!(t.previous_word(), Some("good".to_string()));
    assert_eq!(t.prediction_context(), Some("good".to_string()));
    tap(&mut t, KeyAction::Char('m'));
    // a word in progress: the previous word stays, but nothing is predicted
    assert_eq!(t.previous_word(), Some("good".to_string()));
    assert_eq!(t.prediction_context(), None);
    tap(&mut t, KeyAction::Char('.'));
    tap(&mut t, KeyAction::Space);
    // a sentence end resets the context
    assert_eq!(t.previous_word(), None);
    assert_eq!(t.prediction_context(), None);
}

#[test]
fn predictions_fill_the_bar_when_no_word_is_typed() {
    let mut t = active();
    tap(&mut t, KeyAction::Char('o'));
    tap(&mut t, KeyAction::Char('f'));
    tap(&mut t, KeyAction::Space);
    assert_eq!(t.completion_prefix(), "");
    t.refresh_completions(&strings(&["the", "course"]));
    assert_eq!(t.suggestions(), &strings(&["the", "course"]));
    assert_eq!(t.suggest_kind(), SuggestKind::Completions);
    // tapping a prediction types it with a space and accepts it
    let tapped = t.tap_suggestion("course");
    let typed: Vec<TextOp> = "course ".chars().map(|c| commit(&c.to_string())).collect();
    assert_eq!(tapped.ops, typed);
    assert_eq!(tapped.accepted, Some("course".to_string()));
    // a swipe's alternates are not displaced by predictions
    t.gesture(&strings(&["and", "end"]));
    t.refresh_completions(&strings(&["then"]));
    assert_eq!(t.suggest_kind(), SuggestKind::GestureAlternates);
    assert_eq!(t.suggestions(), &strings(&["and", "end"]));
}
