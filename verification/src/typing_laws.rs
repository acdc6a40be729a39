//! Laws of the typing state machine: what one event undoes of another, what
//! smart spacing and auto-capitalization guarantee, and how the shift latch
//! and the input-method status evolve.

use vstd::prelude::*;
use crate::ascii::{
    all_ascii, is_ascii_alpha, is_ascii_lower, lemma_utf8_count_ascii, lemma_utf8_count_concat,
    lemma_utf8_count_push, utf8_count,
};
use crate::keyboard::{KeyAction, LayerKind};
use crate::typing::{
    action_step, clip_left, complete_with_step, current_kind_spec, current_word_spec,
    delete_n_step, gesture_step, gesture_word, im_step, pop_left, push_left, push_text,
    refresh_step, replace_with_step, suffix_after, undo_len, Base, ImEvent, Shift, SuggestKind,
    TypingView, MAX_LEFT, is_sentence_end_spec, is_tight_punct_spec, lemma_current_word_is_suffix,
    previous_word_spec, strip_spaces, commit_live, TextOpView
};
use crate::input::{char_to_key_spec, KEY_BACKSPACE};
use crate::ascii::{capitalized, utf8_width, lemma_utf8_count_drop_last, lemma_utf8_width_bounds};

verus! {

/// Appending text that keeps the mirror within its bound drops nothing.
pub proof fn lemma_push_text_no_clip(l: Seq<char>, t: Seq<char>)
    requires
        utf8_count(l + t) <= MAX_LEFT,
    ensures
        push_text(l, t) == l + t,
    decreases t.len(),
{
    if t.len() == 0 {
        assert(l + t =~= l);
    } else {
        let d = t.drop_last();
        assert((l + d).push(t.last()) =~= l + t);
        lemma_utf8_count_push(l + d, t.last());
        lemma_push_text_no_clip(l, d);
        assert(push_left(l + d, t.last()) == clip_left(l + t));
    }
}

/// Popping the length of an appended text restores the mirror.
pub proof fn lemma_pop_appended(l: Seq<char>, t: Seq<char>)
    ensures
        pop_left(l + t, t.len()) == l,
{
    assert(pop_left(l + t, t.len()) =~= l);
}

/// For an ASCII word the undo count is its length plus one.
pub proof fn lemma_undo_len_ascii(w: Seq<char>)
    requires
        all_ascii(w),
        w.len() + 1 <= MAX_LEFT,
    ensures
        utf8_count(w) == w.len(),
        undo_len(w) == w.len() + 1,
{
    lemma_utf8_count_ascii(w);
}

/// The mirror after appending `t` to a mirror `l` whose sum stays in bound.
proof fn lemma_append_fits(l: Seq<char>, w: Seq<char>, tail: Seq<char>)
    requires
        all_ascii(w),
        all_ascii(tail),
        utf8_count(l) + w.len() + tail.len() <= MAX_LEFT,
    ensures
        utf8_count(l + (w + tail)) <= MAX_LEFT,
        utf8_count(l + w) <= MAX_LEFT,
{
    lemma_utf8_count_ascii(w);
    lemma_utf8_count_ascii(tail);
    lemma_utf8_count_concat(w, tail);
    lemma_utf8_count_concat(l, w + tail);
    lemma_utf8_count_concat(l, w);
}

/// One-tap undo: a Backspace right after a swipe committed an ASCII word
/// removes that word and its space as a unit, restoring the text before it,
/// and clears the suggestion bar.
pub proof fn law_backspace_undoes_gesture(s: TypingView, cands: Seq<Seq<char>>)
    requires
        cands.len() > 0,
        all_ascii(gesture_word(s, cands)),
        utf8_count(s.left) + gesture_word(s, cands).len() + 1 <= MAX_LEFT,
    ensures
        gesture_step(s, cands).0.left == s.left + gesture_word(s, cands).push(' '),
        gesture_step(s, cands).0.undo == Some((gesture_word(s, cands).len() + 1) as u32),
        action_step(gesture_step(s, cands).0, KeyAction::Backspace).0.left == s.left,
        action_step(gesture_step(s, cands).0, KeyAction::Backspace).1
            == delete_n_step(s, (gesture_word(s, cands).len() + 1) as u32).1,
        action_step(gesture_step(s, cands).0, KeyAction::Backspace).0.suggestions
            == Seq::<Seq<char>>::empty(),
        action_step(gesture_step(s, cands).0, KeyAction::Backspace).0.suggest_kind
            == SuggestKind::Empty,
{
    let w = gesture_word(s, cands);
    let text = w.push(' ');
    assert(text =~= w + seq![' ']);
    assert(all_ascii(seq![' ']));
    lemma_append_fits(s.left, w, seq![' ']);
    lemma_push_text_no_clip(s.left, text);
    lemma_undo_len_ascii(w);
    lemma_pop_appended(s.left, text);
}

/// Smart spacing: tapping `. , ! ? ; :` right after a swiped word tucks the
/// punctuation against the word ("word ." becomes "word. "): the auto-space is
/// deleted, the mark and a fresh space typed, and auto-spacing stays armed.
pub proof fn law_punctuation_tucks_against_word(s: TypingView, cands: Seq<Seq<char>>, p: char)
    requires
        cands.len() > 0,
        is_tight_punct_spec(p),
        all_ascii(gesture_word(s, cands)),
        utf8_count(s.left) + gesture_word(s, cands).len() + 2 <= MAX_LEFT,
    ensures
        action_step(gesture_step(s, cands).0, KeyAction::Char(p)).0.left
            == s.left + gesture_word(s, cands) + seq![p, ' '],
        action_step(gesture_step(s, cands).0, KeyAction::Char(p)).0.auto_space,
{
    let w = gesture_word(s, cands);
    let text = w.push(' ');
    assert(text =~= w + seq![' ']);
    assert(all_ascii(seq![' ']));
    assert(all_ascii(seq![p, ' ']));
    lemma_append_fits(s.left, w, seq![' ']);
    lemma_push_text_no_clip(s.left, text);
    lemma_pop_appended(s.left + w, seq![' ']);
    assert(s.left + text =~= (s.left + w) + seq![' ']);
    lemma_append_fits(s.left, w, seq![p, ' ']);
    lemma_append_fits(s.left, w, seq![p]);
    assert(s.left + (w + seq![p]) =~= (s.left + w) + seq![p]);
    assert(s.left + (w + seq![p, ' ']) =~= (s.left + w + seq![p]) + seq![' ']);
    lemma_push_text_no_clip(s.left + w, seq![p]);
    lemma_push_text_no_clip(s.left + w + seq![p], seq![' ']);
    assert(push_text(s.left + w, seq![p]) == push_left(s.left + w, p)) by {
        assert(seq![p].drop_last() =~= Seq::<char>::empty());
        assert(push_text(s.left + w, Seq::<char>::empty()) == s.left + w);
    }
    assert(push_text(s.left + w + seq![p], seq![' ']) == push_left(s.left + w + seq![p], ' ')) by {
        assert(seq![' '].drop_last() =~= Seq::<char>::empty());
        assert(push_text(s.left + w + seq![p], Seq::<char>::empty()) == s.left + w + seq![p]);
    }
    assert(s.left + w + seq![p, ' '] =~= s.left + (w + seq![p, ' ']));
}

/// Auto-capitalization: on the letters layer, ending a sentence with
/// `. ! ?` or starting a new line with Enter leaves the keyboard showing the
/// uppercase letters, so the next letter capitalizes.
pub proof fn law_sentence_end_capitalizes_next(s: TypingView, action: KeyAction)
    requires
        s.base == Base::Letters,
        action == KeyAction::Enter || (action matches KeyAction::Char(c) && is_sentence_end_spec(c)),
    ensures
        action_step(s, action).0.shift != Shift::Off,
        current_kind_spec(action_step(s, action).0) == LayerKind::LettersUpper,
{
}

/// A one-shot shift is consumed by the next letter: it types that letter and
/// the keyboard returns to lowercase.
pub proof fn law_one_shot_shift_consumed_by_letter(s: TypingView, c: char)
    requires
        s.shift == Shift::OneShot,
        is_ascii_alpha(c),
    ensures
        action_step(s, KeyAction::Char(c)).0.shift == Shift::Off,
        action_step(s, KeyAction::Char(c)).0.left.last() == c,
{
    // A letter is never tight punctuation, so it is typed straight onto the
    // left text.
    let l = s.left;
    crate::typing::lemma_clip_left_fits(l.push(c));
    let r = push_left(l, c);
    assert(r.is_suffix_of(l.push(c)));
    lemma_clip_keeps_last(l.push(c));
}

/// Clipping never drops the last char.
pub proof fn lemma_clip_keeps_last(l: Seq<char>)
    requires
        l.len() > 0,
    ensures
        clip_left(l).len() > 0,
        clip_left(l).last() == l.last(),
    decreases l.len(),
{
    if utf8_count(l) <= MAX_LEFT || l.len() == 0 {
    } else {
        if l.len() == 1 {
            crate::ascii::lemma_utf8_count_drop_first(l);
            crate::ascii::lemma_utf8_width_bounds(l[0]);
            assert(utf8_count(l.drop_first()) == 0) by {
                assert(l.drop_first() =~= Seq::<char>::empty());
                assert(vstd::utf8::encode_utf8(l.drop_first()) =~= Seq::<u8>::empty());
            }
        } else {
            lemma_clip_keeps_last(l.drop_first());
        }
    }
}

/// Caps lock persists across letters.
pub proof fn law_caps_lock_persists(s: TypingView, c: char)
    requires
        s.shift == Shift::Lock,
    ensures
        action_step(s, KeyAction::Char(c)).0.shift == Shift::Lock,
{
}

/// The shift latch cycles one tap per step: off, one-shot, caps lock, off.
pub proof fn law_shift_cycle(s: TypingView)
    ensures
        s.shift == Shift::Off ==> action_step(s, KeyAction::Shift).0.shift == Shift::OneShot,
        s.shift == Shift::OneShot ==> action_step(s, KeyAction::Shift).0.shift == Shift::Lock,
        s.shift == Shift::Lock ==> action_step(s, KeyAction::Shift).0.shift == Shift::Off,
{
}

/// Switching to the symbol pages drops shift, and every layer switch shows
/// the requested layer.
pub proof fn law_layer_switches(s: TypingView)
    ensures
        current_kind_spec(action_step(s, KeyAction::ToSymbols1).0) == LayerKind::Symbols1,
        action_step(s, KeyAction::ToSymbols1).0.shift == Shift::Off,
        current_kind_spec(action_step(s, KeyAction::ToSymbols2).0) == LayerKind::Symbols2,
        action_step(s, KeyAction::ToLetters).0.base == Base::Letters,
{
}

/// Tapping a completion finishes the word being typed: when the typed prefix
/// begins the completion, the text afterwards ends with the whole completion
/// and a space.
pub proof fn law_completion_finishes_word(s: TypingView, word: Seq<char>)
    requires
        current_word_spec(s.left).is_prefix_of(word),
        all_ascii(word),
        utf8_count(s.left) + word.len() + 1 <= MAX_LEFT,
    ensures
        complete_with_step(s, word).0.left
            == s.left.take(s.left.len() - current_word_spec(s.left).len()) + word.push(' '),
{
    let p = current_word_spec(s.left);
    let suf = suffix_after(word, p.len());
    assert(all_ascii(suf));
    assert(all_ascii(seq![' ']));
    assert(suf.push(' ') =~= suf + seq![' ']);
    lemma_append_fits(s.left, suf, seq![' ']);
    lemma_push_text_no_clip(s.left, suf.push(' '));
    lemma_current_word_suffix(s.left);
    let q = s.left.take(s.left.len() - p.len());
    assert(s.left =~= q + p);
    assert(word =~= p + suf);
    assert(s.left + suf.push(' ') =~= q + word.push(' '));
}

/// The word being typed ends the mirror.
pub proof fn lemma_current_word_suffix(l: Seq<char>)
    ensures
        current_word_spec(l).len() <= l.len(),
        current_word_spec(l) =~= l.skip(l.len() - current_word_spec(l).len()),
    decreases l.len(),
{
    if l.len() > 0 && is_ascii_alpha(l.last()) {
        lemma_current_word_suffix(l.drop_last());
        let d = l.drop_last();
        assert(l.skip(l.len() - current_word_spec(l).len()) =~= d.skip(d.len() - current_word_spec(d).len()).push(l.last()));
    }
}

/// Undoing a completion: a Backspace right after tapping a completion
/// removes what the tap typed, restoring the typed prefix.
pub proof fn law_backspace_undoes_completion(s: TypingView, word: Seq<char>)
    requires
        all_ascii(word),
        utf8_count(s.left) + word.len() + 1 <= MAX_LEFT,
    ensures
        action_step(complete_with_step(s, word).0, KeyAction::Backspace).0.left == s.left,
{
    let p = current_word_spec(s.left);
    let suf = suffix_after(word, p.len());
    assert(all_ascii(suf));
    assert(all_ascii(seq![' ']));
    assert(suf.push(' ') =~= suf + seq![' ']);
    lemma_append_fits(s.left, suf, seq![' ']);
    lemma_push_text_no_clip(s.left, suf.push(' '));
    lemma_undo_len_ascii(suf);
    lemma_pop_appended(s.left, suf.push(' '));
}

/// Tap-to-replace: after a swipe committed an ASCII word, tapping an ASCII
/// alternate swaps it in place; the text is as if the alternate had been
/// committed instead, and the alternate shows in slot 0 of the bar.
pub proof fn law_replace_swaps_committed_word(s: TypingView, cands: Seq<Seq<char>>, alt: Seq<char>)
    requires
        cands.len() > 0,
        all_ascii(gesture_word(s, cands)),
        all_ascii(alt),
        utf8_count(s.left) + gesture_word(s, cands).len() + 1 <= MAX_LEFT,
        utf8_count(s.left) + alt.len() + 1 <= MAX_LEFT,
        gesture_step(s, cands).0.suggestions.contains(alt),
    ensures
        replace_with_step(gesture_step(s, cands).0, alt).0.left == s.left + alt.push(' '),
        replace_with_step(gesture_step(s, cands).0, alt).0.suggestions[0] == alt,
        replace_with_step(gesture_step(s, cands).0, alt).0.last_committed == Some(alt),
{
    let g = gesture_step(s, cands).0;
    let w = gesture_word(s, cands);
    assert(all_ascii(seq![' ']));
    assert(w.push(' ') =~= w + seq![' ']);
    assert(alt.push(' ') =~= alt + seq![' ']);
    lemma_append_fits(s.left, w, seq![' ']);
    lemma_push_text_no_clip(s.left, w.push(' '));
    lemma_undo_len_ascii(w);
    lemma_pop_appended(s.left, w.push(' '));
    lemma_append_fits(s.left, alt, seq![' ']);
    lemma_push_text_no_clip(s.left, alt.push(' '));
    let sv = g.suggestions;
    sv.index_of_first_ensures(alt);
}

/// Completions of a lowercase word being typed on the letters layer fill
/// the suggestion bar as the dictionary ranked them.
pub proof fn law_completions_fill_bar(s: TypingView, comps: Seq<Seq<char>>)
    requires
        s.base == Base::Letters,
        current_word_spec(s.left).len() > 0,
        is_ascii_lower(current_word_spec(s.left)[0]),
        comps.len() > 0,
    ensures
        refresh_step(s, comps).suggestions == comps,
        refresh_step(s, comps).suggest_kind == SuggestKind::Completions,
{
    assert(refresh_step(s, comps).suggestions =~= comps);
}

/// Input-method activation takes effect only when the batch's `done`
/// arrives, and every `done` advances the commit serial.
pub proof fn law_activation_waits_for_done(s: TypingView)
    ensures
        im_step(im_step(s, ImEvent::Activate), ImEvent::Done).im_active,
        im_step(s, ImEvent::Activate).im_active == s.im_active,
        im_step(im_step(s, ImEvent::Deactivate), ImEvent::Done).im_active == false,
        s.im_serial < u32::MAX ==> im_step(s, ImEvent::Done).im_serial == s.im_serial + 1,
        !im_step(s, ImEvent::Unavailable).im_active,
{
}

/// Next-word prediction: on the letters layer, with no word being typed,
/// the predicted successors fill the suggestion bar as ranked.
pub proof fn law_predictions_fill_bar(s: TypingView, preds: Seq<Seq<char>>)
    requires
        s.base == Base::Letters,
        current_word_spec(s.left).len() == 0,
        preds.len() > 0,
        s.suggest_kind != SuggestKind::GestureAlternates,
    ensures
        refresh_step(s, preds).suggestions == preds,
        refresh_step(s, preds).suggest_kind == SuggestKind::Completions,
{
    assert(preds.map_values(|w: Seq<char>| if false { crate::ascii::capitalized(w) } else { w }) =~= preds);
}

/// Predictions never displace the alternates of a swipe: with no word being
/// typed, refreshing leaves a bar of alternates as it is.
pub proof fn law_alternates_survive_predictions(s: TypingView, preds: Seq<Seq<char>>)
    requires
        current_word_spec(s.left).len() == 0,
        s.suggest_kind == SuggestKind::GestureAlternates,
    ensures
        refresh_step(s, preds) == s,
{
}

/// A word followed by a space is the previous word the next one is predicted
/// from, and stays so while the next word is typed.
pub proof fn law_previous_word_across_space(l: Seq<char>, w: Seq<char>, next: Seq<char>)
    requires
        w.len() > 0,
        forall|i: int| 0 <= i < w.len() ==> is_ascii_alpha(#[trigger] w[i]),
        forall|i: int| 0 <= i < next.len() ==> is_ascii_alpha(#[trigger] next[i]),
        l.len() == 0 || !is_ascii_alpha(l.last()),
    ensures
        previous_word_spec(l + w + seq![' '] + next) == Some(w),
{
    let lw = l + w;
    let t = lw + seq![' '] + next;
    assert forall|k: int| l.len() <= k < lw.len() implies is_ascii_alpha(#[trigger] lw[k]) by {
        assert(lw[k] == w[k - l.len()]);
    }
    if l.len() > 0 {
        assert(lw[l.len() - 1] == l.last());
    }
    lemma_current_word_is_suffix(lw, l.len() as int);
    assert(lw.subrange(l.len() as int, lw.len() as int) =~= w);
    let j: int = lw.len() as int + 1;
    assert forall|k: int| j <= k < t.len() implies is_ascii_alpha(#[trigger] t[k]) by {
        assert(t[k] == next[k - j]);
    }
    assert(t[j - 1] == ' ');
    lemma_current_word_is_suffix(t, j);
    assert(t.subrange(j, t.len() as int).len() == next.len());
    assert(t.take(t.len() - next.len()) =~= lw.push(' '));
    assert(lw.push(' ').drop_last() =~= lw);
    if lw.len() > 0 {
        assert(lw.last() == w.last());
    }
    assert(strip_spaces(lw.push(' ')) == strip_spaces(lw));
    assert(strip_spaces(lw) == lw);
}

/// A sentence end or a new line resets the prediction context: right after
/// it, and after a space following it, there is no previous word.
pub proof fn law_sentence_end_resets_context(l: Seq<char>, p: char)
    requires
        is_sentence_end_spec(p) || p == '\n',
    ensures
        previous_word_spec(l.push(p)) is None,
        previous_word_spec(l.push(p).push(' ')) is None,
{
    let a = l.push(p);
    let b = a.push(' ');
    assert(current_word_spec(a) == Seq::<char>::empty());
    assert(current_word_spec(b) == Seq::<char>::empty());
    assert(a.take(a.len() as int) =~= a);
    assert(b.take(b.len() as int) =~= b);
    assert(b.drop_last() =~= a);
    assert(strip_spaces(a) == a);
    assert(strip_spaces(b) == a);
    assert(current_word_spec(a) == Seq::<char>::empty());
}

/// Smart spacing, in general: when auto-spacing is armed and the text ends
/// in that space, tapping `. , ! ? ; :` deletes the space and types the mark
/// and a fresh space, so the mark sits against the word. The requests do
/// exactly that: through the input method, one deletion and two commits;
/// without it, a Backspace keystroke, the mark's key and the space key.
pub proof fn law_tight_punct_replaces_auto_space(s: TypingView, p: char)
    requires
        s.auto_space,
        is_tight_punct_spec(p),
        s.left.len() > 0,
        s.left.last() == ' ',
        utf8_count(s.left) + 1 <= MAX_LEFT,
    ensures
        action_step(s, KeyAction::Char(p)).0.left == s.left.drop_last() + seq![p, ' '],
        action_step(s, KeyAction::Char(p)).0.auto_space,
        commit_live(s) ==> action_step(s, KeyAction::Char(p)).1 == seq![
            TextOpView::DeleteBefore(1),
            TextOpView::Commit(seq![p]),
            TextOpView::Commit(seq![' ']),
        ],
        !commit_live(s) ==> (char_to_key_spec(p) matches Some((code, shift))
            && action_step(s, KeyAction::Char(p)).1 == seq![
            TextOpView::Key(KEY_BACKSPACE, false),
            TextOpView::Key(code, shift),
            TextOpView::Key(57, false),
        ]),
{
    let d = s.left.drop_last();
    assert(pop_left(s.left, 1) =~= d);
    lemma_utf8_count_drop_last(s.left);
    lemma_utf8_width_bounds(' ');
    assert(all_ascii(seq![p, ' ']));
    assert(all_ascii(Seq::<char>::empty()));
    lemma_append_fits(d, Seq::<char>::empty(), seq![p, ' ']);
    assert(Seq::<char>::empty() + seq![p, ' '] =~= seq![p, ' ']);
    lemma_append_fits(d, seq![p], seq![' ']);
    assert(seq![p] + seq![' '] =~= seq![p, ' ']);
    assert((d + seq![p]) + seq![' '] =~= d + (seq![p] + seq![' ']));
    lemma_push_text_no_clip(d, seq![p]);
    lemma_push_text_no_clip(d + seq![p], seq![' ']);
    assert(push_text(d, seq![p]) == push_left(d, p)) by {
        assert(seq![p].drop_last() =~= Seq::<char>::empty());
        assert(push_text(d, Seq::<char>::empty()) == d);
    }
    assert(push_text(d + seq![p], seq![' ']) == push_left(d + seq![p], ' ')) by {
        assert(seq![' '].drop_last() =~= Seq::<char>::empty());
        assert(push_text(d + seq![p], Seq::<char>::empty()) == d + seq![p]);
    }
    assert(d + seq![p] == d.push(p));
    assert((d + seq![p]).push(' ') =~= d + seq![p, ' ']);
    assert(d.push(p) + seq![' '] =~= d + seq![p, ' ']);
}

/// Tapping a completion arms smart spacing like a swipe does: the completed
/// word ends in an auto-space, and a following `. , ! ? ; :` tucks against
/// the word ("this ." becomes "this. ").
pub proof fn law_completion_arms_smart_spacing(s: TypingView, word: Seq<char>, p: char)
    requires
        current_word_spec(s.left).is_prefix_of(word),
        all_ascii(word),
        is_tight_punct_spec(p),
        utf8_count(s.left) + word.len() + 2 <= MAX_LEFT,
    ensures
        complete_with_step(s, word).0.auto_space,
        action_step(complete_with_step(s, word).0, KeyAction::Char(p)).0.left
            == s.left.take(s.left.len() - current_word_spec(s.left).len()) + word + seq![p, ' '],
{
    law_completion_finishes_word(s, word);
    let s1 = complete_with_step(s, word).0;
    let cw = current_word_spec(s.left);
    let q = s.left.take(s.left.len() - cw.len());
    lemma_current_word_suffix(s.left);
    assert(s.left =~= q + cw);
    lemma_utf8_count_concat(q, cw);
    lemma_utf8_count_ascii(word);
    assert(all_ascii(seq![' ']));
    lemma_utf8_count_ascii(seq![' ']);
    lemma_utf8_count_concat(word, seq![' ']);
    assert(word.push(' ') =~= word + seq![' ']);
    lemma_utf8_count_concat(q, word.push(' '));
    assert(s1.left == q + word.push(' '));
    assert(s1.left.last() == ' ');
    law_tight_punct_replaces_auto_space(s1, p);
    assert(s1.left.drop_last() =~= q + word);
    assert(q + word + seq![p, ' '] =~= (q + word) + seq![p, ' ']);
}

/// A swipe consumes a one-shot shift but keeps caps lock: under caps lock
/// every swiped word is capitalized, the next one too.
pub proof fn law_swipe_keeps_caps_lock(s: TypingView, first: Seq<Seq<char>>, next: Seq<Seq<char>>)
    requires
        first.len() > 0,
    ensures
        s.shift == Shift::Lock ==> gesture_step(s, first).0.shift == Shift::Lock,
        s.shift == Shift::OneShot ==> gesture_step(s, first).0.shift == Shift::Off,
        s.shift == Shift::Off ==> gesture_step(s, first).0.shift == Shift::Off,
        s.shift == Shift::Lock && next.len() > 0 ==> gesture_word(s, first) == capitalized(first[0])
            && gesture_word(gesture_step(s, first).0, next) == capitalized(next[0]),
{
}

} // verus!
