//! The typing state machine behind the keyboard surface: input layers, the
//! shift latch, smart spacing and auto-capitalization, the suggestion bar, the
//! one-tap undo of a committed word, and the bounded mirror of the text left of
//! the cursor. Each event is turned into a list of text-injection requests
//! ([`TextOp`]) that the host carries out over the input-method or
//! virtual-keyboard channel.

use vstd::prelude::*;
use crate::ascii::{
    all_ascii, chars_of, ascii_lower, capitalize, capitalized, char_is_uppercase, char_utf8_width,
    is_alpha, is_ascii_alpha, is_ascii_upper, starts_upper, lemma_utf8_count_drop_first,
    lemma_utf8_count_drop_last, lemma_utf8_count_push, lemma_utf8_width_bounds, to_lower_ascii,
    utf8_count, utf8_width,
};
use crate::input::{char_to_key, char_to_key_spec, KEY_BACKSPACE, KEY_ENTER};
use crate::keyboard::{KeyAction, LayerKind};

verus! {

/// Bound, in UTF-8 bytes, on the mirror of the text left of the cursor; only
/// the trailing word matters for prediction.
pub const MAX_LEFT: usize = 256;

/// Height of the suggestion bar strip at the top of the surface, in pixels.
pub const SUGGEST_H: u32 = 48;

/// Which base layer the keyboard is showing.
#[derive(Debug, Clone, Copy, PartialEq, Eq, Structural)]
pub enum Base {
    Letters,
    Symbols1,
    Symbols2,
}

/// Shift latch state for the letters layer.
#[derive(Debug, Clone, Copy, PartialEq, Eq, Structural)]
pub enum Shift {
    Off,
    /// Capitalize the next character, then revert.
    OneShot,
    /// Caps lock.
    Lock,
}

/// What the current suggestion-bar entries mean.
#[derive(Debug, Clone, Copy, PartialEq, Eq, Structural)]
pub enum SuggestKind {
    /// Nothing to suggest.
    Empty,
    /// Completions of the word being tap-typed, or, when none is, the
    /// predicted next words.
    Completions,
    /// Alternates for a word just committed by a gesture.
    GestureAlternates,
}

/// One text-injection request for the host.
#[derive(Debug, Clone, PartialEq, Eq)]
pub enum TextOp {
    /// Input-method `commit_string(text)` followed by `commit(serial)`.
    Commit(String),
    /// Input-method `delete_surrounding_text(n, 0)` followed by `commit(serial)`.
    DeleteBefore(u32),
    /// Virtual-keyboard press + release of an evdev keycode, with Shift held
    /// around it when the flag is set.
    Key(u32, bool),
}

/// An input-method event, as far as the typing state cares.
#[derive(Debug, Clone, Copy, PartialEq, Eq, Structural)]
pub enum ImEvent {
    Activate,
    Deactivate,
    Done,
    Unavailable,
    Other,
}

/// Mathematical form of a [`TextOp`].
pub enum TextOpView {
    Commit(Seq<char>),
    DeleteBefore(u32),
    Key(u32, bool),
}

pub open spec fn op_view(o: TextOp) -> TextOpView {
    match o {
        TextOp::Commit(s) => TextOpView::Commit(s@),
        TextOp::DeleteBefore(n) => TextOpView::DeleteBefore(n),
        TextOp::Key(c, s) => TextOpView::Key(c, s),
    }
}

pub open spec fn ops_view(v: Seq<TextOp>) -> Seq<TextOpView> {
    v.map_values(|o: TextOp| op_view(o))
}

/// Mathematical model of a [`TypingState`].
pub struct TypingView {
    pub base: Base,
    pub shift: Shift,
    /// A word was just committed with a trailing auto-space.
    pub auto_space: bool,
    /// A sentence just ended: capitalize the next letter.
    pub pending_cap: bool,
    pub suggestions: Seq<Seq<char>>,
    /// The word last committed by a gesture or completion.
    pub last_committed: Option<Seq<char>>,
    /// The text just left of the cursor (our own edits), bounded in bytes.
    pub left: Seq<char>,
    pub suggest_kind: SuggestKind,
    /// Number of characters the next Backspace removes as a unit, if armed.
    pub undo: Option<u32>,
    /// An input-method object is bound.
    pub im_present: bool,
    /// A text field is focused (input-method activated).
    pub im_active: bool,
    /// Activation state pending until the next `done`.
    pub im_pending: bool,
    /// Count of `done` events: the serial for `commit`.
    pub im_serial: u32,
}

// ---------------------------------------------------------------------------
// The model: pure transition functions.
// ---------------------------------------------------------------------------

pub open spec fn is_tight_punct_spec(c: char) -> bool {
    c == '.' || c == ',' || c == '!' || c == '?' || c == ';' || c == ':'
}

pub open spec fn is_sentence_end_spec(c: char) -> bool {
    c == '.' || c == '!' || c == '?'
}

/// Text commits go through the input method.
pub open spec fn commit_live(s: TypingView) -> bool {
    s.im_active && s.im_present
}

/// The virtual-keyboard request that types `c`, if the US layout has it.
pub open spec fn key_op(c: char) -> Seq<TextOpView> {
    match char_to_key_spec(c) {
        Some((code, shift)) => seq![TextOpView::Key(code, shift)],
        None => Seq::empty(),
    }
}

/// Requests that type one char: an input-method commit when a field is
/// active, else a synthesized keystroke.
pub open spec fn char_ops(s: TypingView, c: char) -> Seq<TextOpView> {
    if commit_live(s) {
        seq![TextOpView::Commit(seq![c])]
    } else {
        key_op(c)
    }
}

/// Requests that type `text` one char at a time.
pub open spec fn chars_ops(s: TypingView, text: Seq<char>) -> Seq<TextOpView>
    decreases text.len(),
{
    if text.len() == 0 {
        Seq::empty()
    } else {
        chars_ops(s, text.drop_last()) + char_ops(s, text.last())
    }
}

/// Virtual-keyboard requests that type `text`.
pub open spec fn key_ops(text: Seq<char>) -> Seq<TextOpView>
    decreases text.len(),
{
    if text.len() == 0 {
        Seq::empty()
    } else {
        key_ops(text.drop_last()) + key_op(text.last())
    }
}

/// Requests that commit `text` as a whole: one input-method commit when a
/// field is active, else a keystroke per char.
pub open spec fn text_ops(s: TypingView, text: Seq<char>) -> Seq<TextOpView> {
    if commit_live(s) {
        seq![TextOpView::Commit(text)]
    } else {
        key_ops(text)
    }
}

/// The longest suffix of `l` whose UTF-8 encoding fits in `MAX_LEFT` bytes.
pub open spec fn clip_left(l: Seq<char>) -> Seq<char>
    decreases l.len(),
{
    if utf8_count(l) <= MAX_LEFT || l.len() == 0 {
        l
    } else {
        clip_left(l.drop_first())
    }
}

/// The mirror after appending `c`.
pub open spec fn push_left(l: Seq<char>, c: char) -> Seq<char> {
    clip_left(l.push(c))
}

/// The mirror after appending each char of `text` in turn.
pub open spec fn push_text(l: Seq<char>, text: Seq<char>) -> Seq<char>
    decreases text.len(),
{
    if text.len() == 0 {
        l
    } else {
        push_left(push_text(l, text.drop_last()), text.last())
    }
}

/// The mirror after popping `n` chars (popping an empty mirror does nothing).
pub open spec fn pop_left(l: Seq<char>, n: nat) -> Seq<char> {
    if n >= l.len() {
        Seq::empty()
    } else {
        l.take(l.len() - n)
    }
}

/// The trailing run of ASCII letters of `l`: the word being typed.
pub open spec fn current_word_spec(l: Seq<char>) -> Seq<char>
    decreases l.len(),
{
    if l.len() > 0 && is_ascii_alpha(l.last()) {
        current_word_spec(l.drop_last()).push(l.last())
    } else {
        Seq::empty()
    }
}

/// `l` without its trailing spaces.
pub open spec fn strip_spaces(l: Seq<char>) -> Seq<char>
    decreases l.len(),
{
    if l.len() > 0 && l.last() == ' ' {
        strip_spaces(l.drop_last())
    } else {
        l
    }
}

/// The word before the one being typed (or before the cursor, when none is):
/// the run of letters that precedes it across spaces only. A sentence end,
/// a new line or any other mark in between leaves no previous word.
pub open spec fn previous_word_spec(l: Seq<char>) -> Option<Seq<char>> {
    let t = strip_spaces(l.take(l.len() - current_word_spec(l).len()));
    let w = current_word_spec(t);
    if w.len() > 0 {
        Some(w)
    } else {
        None
    }
}

/// ASCII-lowercased copy of `w`.
pub open spec fn lower_seq(w: Seq<char>) -> Seq<char> {
    w.map_values(|c: char| ascii_lower(c))
}

/// The undo count armed after committing `w` and a space: `w`'s length in
/// bytes plus one, as a wrapping `u32`.
pub open spec fn undo_len(w: Seq<char>) -> u32 {
    (((utf8_count(w) as usize) as nat + 1) % 0x1_0000_0000) as u32
}

/// At most the first four entries of `s`.
pub open spec fn first4<A>(s: Seq<A>) -> Seq<A> {
    if s.len() <= 4 {
        s
    } else {
        s.take(4)
    }
}

pub open spec fn with_left(s: TypingView, l: Seq<char>) -> TypingView {
    TypingView { left: l, ..s }
}

pub open spec fn with_suggestions(s: TypingView, sugg: Seq<Seq<char>>) -> TypingView {
    TypingView { suggestions: sugg, ..s }
}

pub open spec fn type_char_step(s: TypingView, c: char) -> (TypingView, Seq<TextOpView>) {
    (with_left(s, push_left(s.left, c)), char_ops(s, c))
}

pub open spec fn delete_one_step(s: TypingView) -> (TypingView, Seq<TextOpView>) {
    (
        with_left(s, pop_left(s.left, 1)),
        if commit_live(s) {
            seq![TextOpView::DeleteBefore(1)]
        } else {
            seq![TextOpView::Key(KEY_BACKSPACE, false)]
        },
    )
}

pub open spec fn delete_n_step(s: TypingView, n: u32) -> (TypingView, Seq<TextOpView>) {
    if n == 0 {
        (s, Seq::empty())
    } else {
        (
            with_left(s, pop_left(s.left, n as nat)),
            if s.im_active {
                if s.im_present {
                    seq![TextOpView::DeleteBefore(n)]
                } else {
                    Seq::empty()
                }
            } else {
                Seq::new(n as nat, |_i: int| TextOpView::Key(KEY_BACKSPACE, false))
            },
        )
    }
}

pub open spec fn commit_word_step(s: TypingView, word: Seq<char>) -> (TypingView, Seq<TextOpView>) {
    let text = word.push(' ');
    (
        TypingView {
            left: push_text(s.left, text),
            last_committed: Some(word),
            auto_space: true,
            ..s
        },
        text_ops(s, text),
    )
}

pub open spec fn type_key_char_step(s: TypingView, c: char) -> (TypingView, Seq<TextOpView>) {
    let (s1, o1) = if s.auto_space && is_tight_punct_spec(c) {
        let (a, oa) = delete_one_step(s);
        let (b, ob) = type_char_step(a, c);
        let (d, od) = type_char_step(b, ' ');
        (TypingView { auto_space: true, ..d }, oa + ob + od)
    } else {
        let (a, oa) = type_char_step(s, c);
        (TypingView { auto_space: false, ..a }, oa)
    };
    let shift = if is_ascii_alpha(c) && s1.shift == Shift::OneShot {
        Shift::Off
    } else {
        s1.shift
    };
    (TypingView { shift: shift, pending_cap: is_sentence_end_spec(c), ..s1 }, o1)
}

pub open spec fn apply_autocap_spec(s: TypingView) -> TypingView {
    if s.pending_cap && s.base == Base::Letters && s.shift == Shift::Off {
        TypingView { shift: Shift::OneShot, ..s }
    } else {
        s
    }
}

/// The effect of a Backspace tap; `undo` is the undo arming it found.
pub open spec fn backspace_step(s0: TypingView, undo: Option<u32>) -> (TypingView, Seq<TextOpView>) {
    let (a, oa) = match undo {
        Some(n) => {
            let (b, ob) = delete_n_step(s0, n);
            (
                TypingView {
                    suggestions: Seq::empty(),
                    suggest_kind: SuggestKind::Empty,
                    last_committed: None,
                    ..b
                },
                ob,
            )
        },
        None => (with_left(s0, pop_left(s0.left, 1)), seq![TextOpView::Key(KEY_BACKSPACE, false)]),
    };
    (TypingView { auto_space: false, pending_cap: false, ..a }, oa)
}

/// The effect of `action` once the undo arming has been taken out of the
/// state (`undo` is what it held).
pub open spec fn action_core(s0: TypingView, undo: Option<u32>, action: KeyAction) -> (TypingView, Seq<TextOpView>) {
    match action {
        KeyAction::Char(c) => type_key_char_step(s0, c),
        KeyAction::Space => {
            let (a, oa) = type_char_step(s0, ' ');
            (TypingView { auto_space: false, ..a }, oa)
        },
        KeyAction::Backspace => backspace_step(s0, undo),
        KeyAction::Enter => (
            TypingView {
                left: push_left(s0.left, '\n'),
                auto_space: false,
                pending_cap: true,
                ..s0
            },
            seq![TextOpView::Key(KEY_ENTER, false)],
        ),
        KeyAction::Shift => (
            TypingView {
                shift: match s0.shift {
                    Shift::Off => Shift::OneShot,
                    Shift::OneShot => Shift::Lock,
                    Shift::Lock => Shift::Off,
                },
                pending_cap: false,
                ..s0
            },
            Seq::empty(),
        ),
        KeyAction::ToLetters => (TypingView { base: Base::Letters, ..s0 }, Seq::empty()),
        KeyAction::ToSymbols1 => (
            TypingView { base: Base::Symbols1, shift: Shift::Off, ..s0 },
            Seq::empty(),
        ),
        KeyAction::ToSymbols2 => (TypingView { base: Base::Symbols2, ..s0 }, Seq::empty()),
    }
}

/// The effect of tapping a key with `action`.
pub open spec fn action_step(s: TypingView, action: KeyAction) -> (TypingView, Seq<TextOpView>) {
    let (s1, o) = action_core(TypingView { undo: None, ..s }, s.undo, action);
    (apply_autocap_spec(s1), o)
}

/// A key that finishes the word being typed: Space, Enter, or tight
/// punctuation.
pub open spec fn ends_word(action: KeyAction) -> bool {
    match action {
        KeyAction::Space => true,
        KeyAction::Enter => true,
        KeyAction::Char(c) => is_tight_punct_spec(c),
        _ => false,
    }
}

/// The word a tap of `action` finishes: the tap-typed word left of the
/// cursor, when the key ends it.
pub open spec fn finished_word(s: TypingView, action: KeyAction) -> Option<Seq<char>> {
    let w = current_word_spec(s.left);
    if ends_word(action) && w.len() > 0 {
        Some(w)
    } else {
        None
    }
}

/// The word a gesture commits for the decoder's ranked candidates `cands`.
pub open spec fn gesture_word(s: TypingView, cands: Seq<Seq<char>>) -> Seq<char> {
    if s.shift != Shift::Off {
        capitalized(cands[0])
    } else {
        cands[0]
    }
}

/// The effect of a swipe that decoded to the ranked candidates `cands`.
pub open spec fn gesture_step(s: TypingView, cands: Seq<Seq<char>>) -> (TypingView, Seq<TextOpView>) {
    if cands.len() == 0 {
        (s, Seq::empty())
    } else {
        let word = gesture_word(s, cands);
        let shift = if s.shift == Shift::OneShot {
            Shift::Off
        } else {
            s.shift
        };
        let s1 = TypingView { shift: shift, pending_cap: false, ..s };
        let (s2, o) = commit_word_step(s1, word);
        let upper = starts_upper(word);
        let sugg = first4(cands).map_values(
            |c: Seq<char>|
                if upper {
                    capitalized(c)
                } else {
                    c
                },
        );
        (
            TypingView {
                suggestions: sugg,
                suggest_kind: SuggestKind::GestureAlternates,
                undo: Some(undo_len(word)),
                ..s2
            },
            o,
        )
    }
}

/// The word whose successors the suggestion bar predicts; see
/// [`TypingState::prediction_context`].
pub open spec fn prediction_context_spec(s: TypingView) -> Option<Seq<char>> {
    if s.base == Base::Letters && current_word_spec(s.left).len() == 0 {
        previous_word_spec(s.left)
    } else {
        None
    }
}

/// The suggestion bar after refreshing it with `comps`: the dictionary's
/// completions of the word being typed or, when none is, the predicted next
/// words. Without suggestions, stale completions are dropped; predictions
/// never displace the alternates of a swipe.
pub open spec fn refresh_step(s: TypingView, comps: Seq<Seq<char>>) -> TypingView {
    let word = if s.base == Base::Letters {
        current_word_spec(s.left)
    } else {
        Seq::empty()
    };
    if comps.len() == 0 {
        if s.suggest_kind == SuggestKind::Completions {
            TypingView { suggestions: Seq::empty(), suggest_kind: SuggestKind::Empty, ..s }
        } else {
            s
        }
    } else if word.len() == 0 && s.suggest_kind == SuggestKind::GestureAlternates {
        s
    } else {
        let cap = word.len() > 0 && is_ascii_upper(word[0]);
        TypingView {
            suggestions: comps.map_values(
                |w: Seq<char>|
                    if cap {
                        capitalized(w)
                    } else {
                        w
                    },
            ),
            suggest_kind: SuggestKind::Completions,
            ..s
        }
    }
}

/// The part of `word` after the already-typed prefix of length `pre`.
pub open spec fn suffix_after(word: Seq<char>, pre: nat) -> Seq<char> {
    if pre >= word.len() {
        Seq::empty()
    } else {
        word.skip(pre as int)
    }
}

/// Finishing the word being typed with the tapped completion `word`.
pub open spec fn complete_with_step(s: TypingView, word: Seq<char>) -> (TypingView, Seq<TextOpView>) {
    let suffix = suffix_after(word, current_word_spec(s.left).len());
    let text = suffix.push(' ');
    (
        TypingView {
            left: push_text(s.left, text),
            auto_space: true,
            last_committed: Some(lower_seq(word)),
            undo: Some(undo_len(suffix)),
            ..s
        },
        chars_ops(s, text),
    )
}

/// Suggestions with the first entry equal to `w` swapped into slot 0.
pub open spec fn swap_to_front(sugg: Seq<Seq<char>>, w: Seq<char>) -> Seq<Seq<char>> {
    match sugg.index_of_first(w) {
        Some(i) => sugg.update(0, sugg[i]).update(i, sugg[0]),
        None => sugg,
    }
}

/// Replacing the word the last gesture committed with the tapped alternate
/// `word`. The third component is the rejected word whose learned boost is to
/// be docked, if it differs from `word` beyond ASCII case.
pub open spec fn replace_with_step(s: TypingView, word: Seq<char>) -> (TypingView, Seq<TextOpView>, Option<Seq<char>>) {
    let rejected = s.last_committed;
    let (s1, o1) = match rejected {
        Some(prev) => delete_n_step(s, undo_len(prev)),
        None => (s, Seq::empty()),
    };
    let (s2, o2) = commit_word_step(s1, word);
    let penalize = match rejected {
        Some(r) => if lower_seq(r) != lower_seq(word) {
            Some(r)
        } else {
            None
        },
        None => None,
    };
    (
        TypingView {
            undo: Some(undo_len(word)),
            suggestions: swap_to_front(s2.suggestions, word),
            ..s2
        },
        o1 + o2,
        penalize,
    )
}

/// What tapping the suggestion `word` does: completing the typed word, or
/// replacing the word the last gesture committed, or nothing, according to
/// what the bar shows.
pub open spec fn tap_step(s: TypingView, word: Seq<char>) -> (TypingView, Seq<TextOpView>) {
    match s.suggest_kind {
        SuggestKind::Completions => complete_with_step(s, word),
        SuggestKind::GestureAlternates => {
            let (t, o, _p) = replace_with_step(s, word);
            (t, o)
        },
        SuggestKind::Empty => (s, Seq::empty()),
    }
}

/// The state after an input-method event.
pub open spec fn im_step(s: TypingView, ev: ImEvent) -> TypingView {
    match ev {
        ImEvent::Activate => TypingView { im_pending: true, ..s },
        ImEvent::Deactivate => TypingView { im_pending: false, ..s },
        ImEvent::Done => TypingView {
            im_active: s.im_pending,
            im_serial: ((s.im_serial + 1) % 0x1_0000_0000) as u32,
            ..s
        },
        ImEvent::Unavailable => TypingView { im_present: false, im_active: false, ..s },
        ImEvent::Other => s,
    }
}

/// The layer currently displayed, derived from base layer + shift state.
pub open spec fn current_kind_spec(s: TypingView) -> LayerKind {
    match s.base {
        Base::Letters => if s.shift != Shift::Off {
            LayerKind::LettersUpper
        } else {
            LayerKind::LettersLower
        },
        Base::Symbols1 => LayerKind::Symbols1,
        Base::Symbols2 => LayerKind::Symbols2,
    }
}

// ---------------------------------------------------------------------------
// The bounded left-of-cursor mirror.
// ---------------------------------------------------------------------------

/// The text just left of the cursor, as far as our own edits show it, bounded
/// to `MAX_LEFT` bytes of UTF-8 by dropping its oldest chars.
pub struct LeftMirror {
    chars: Vec<char>,
    bytes: usize,
}

impl View for LeftMirror {
    type V = Seq<char>;

    closed spec fn view(&self) -> Seq<char> {
        self.chars@
    }
}

pub proof fn lemma_clip_left_fits(l: Seq<char>)
    ensures
        utf8_count(clip_left(l)) <= MAX_LEFT,
        clip_left(l).is_suffix_of(l),
    decreases l.len(),
{
    if utf8_count(l) <= MAX_LEFT || l.len() == 0 {
        if l.len() == 0 {
            assert(utf8_count(l) == 0) by {
                assert(vstd::utf8::encode_utf8(l) =~= Seq::<u8>::empty());
            }
        }
        assert(l.subrange(0, l.len() as int) =~= l);
    } else {
        lemma_clip_left_fits(l.drop_first());
        let c = clip_left(l.drop_first());
        assert(c =~= l.drop_first().subrange(l.drop_first().len() - c.len(), l.drop_first().len() as int));
        assert(c =~= l.subrange(l.len() - c.len(), l.len() as int));
    }
}

pub proof fn lemma_pop_left_step(l: Seq<char>, i: nat)
    ensures
        pop_left(pop_left(l, i), 1) == pop_left(l, i + 1),
{
    assert(pop_left(pop_left(l, i), 1) =~= pop_left(l, i + 1));
}

impl LeftMirror {
    pub closed spec fn wf(&self) -> bool {
        &&& self.bytes == utf8_count(self.chars@)
        &&& self.bytes <= MAX_LEFT
    }

    pub fn new() -> (m: Self)
        ensures
            m.wf(),
            m@ == Seq::<char>::empty(),
    {
        let m = LeftMirror { chars: Vec::new(), bytes: 0 };
        proof {
            assert(vstd::utf8::encode_utf8(m.chars@) =~= Seq::<u8>::empty());
        }
        m
    }

    /// Append `c`, then drop the oldest chars until the mirror fits.
    pub fn push(&mut self, c: char)
        requires
            old(self).wf(),
        ensures
            final(self).wf(),
            final(self)@ == push_left(old(self)@, c),
    {
        let w = char_utf8_width(c);
        proof {
            lemma_utf8_count_push(self.chars@, c);
        }
        self.chars.push(c);
        self.bytes = self.bytes + w;
        let ghost target = old(self).chars@.push(c);
        while self.bytes > MAX_LEFT
            invariant
                self.bytes == utf8_count(self.chars@),
                self.bytes <= MAX_LEFT + 4,
                clip_left(self.chars@) == clip_left(target),
            decreases self.chars@.len(),
        {
            if self.chars.len() == 0 {
                proof {
                    assert(vstd::utf8::encode_utf8(self.chars@) =~= Seq::<u8>::empty());
                }
            }
            let ghost before = self.chars@;
            proof {
                lemma_utf8_count_drop_first(before);
                lemma_utf8_width_bounds(before[0]);
            }
            let f = self.chars.remove(0);
            proof {
                assert(self.chars@ =~= before.drop_first());
            }
            let fw = char_utf8_width(f);
            self.bytes = self.bytes - fw;
        }
        proof {
            assert(clip_left(self.chars@) == self.chars@);
        }
    }

    /// Append each char of `text` in turn.
    pub fn push_all(&mut self, text: &Vec<char>)
        requires
            old(self).wf(),
        ensures
            final(self).wf(),
            final(self)@ == push_text(old(self)@, text@),
    {
        let mut i: usize = 0;
        proof {
            assert(text@.take(0) =~= Seq::<char>::empty());
        }
        while i < text.len()
            invariant
                i <= text@.len(),
                self.wf(),
                self@ == push_text(old(self)@, text@.take(i as int)),
            decreases text@.len() - i,
        {
            self.push(text[i]);
            proof {
                assert(text@.take(i + 1).drop_last() =~= text@.take(i as int));
            }
            i = i + 1;
        }
        proof {
            assert(text@.take(text@.len() as int) =~= text@);
        }
    }

    /// Remove the last char, if any.
    pub fn pop(&mut self)
        requires
            old(self).wf(),
        ensures
            final(self).wf(),
            final(self)@ == pop_left(old(self)@, 1),
    {
        if self.chars.len() > 0 {
            let ghost before = self.chars@;
            proof {
                crate::ascii::lemma_utf8_count_drop_last(before);
            }
            let c = self.chars.pop().unwrap();
            let w = char_utf8_width(c);
            self.bytes = self.bytes - w;
            proof {
                assert(self.chars@ =~= before.take(before.len() - 1));
            }
        } else {
            proof {
                assert(pop_left(self.chars@, 1) =~= self.chars@);
            }
        }
    }

    /// The trailing run of ASCII letters: the word being typed.
    pub fn current_word(&self) -> (r: String)
        ensures
            r@ == current_word_spec(self@),
    {
        let n = self.chars.len();
        let mut j: usize = n;
        while j > 0 && is_alpha(self.chars[j - 1])
            invariant
                j <= n,
                n == self.chars@.len(),
                forall|k: int| j <= k < n ==> is_ascii_alpha(#[trigger] self.chars@[k]),
            decreases j,
        {
            j = j - 1;
        }
        proof {
            lemma_current_word_is_suffix(self.chars@, j as int);
        }
        let mut out = String::new();
        let mut i = j;
        while i < n
            invariant
                j <= i <= n,
                n == self.chars@.len(),
                out@ == self.chars@.subrange(j as int, i as int),
            decreases n - i,
        {
            out.push(self.chars[i]);
            proof {
                assert(self.chars@.subrange(j as int, i + 1) =~= self.chars@.subrange(j as int, i as int).push(self.chars@[i as int]));
            }
            i = i + 1;
        }
        out
    }

    /// Where the run of letters that ends at `end` begins.
    fn letter_run_start(&self, end: usize) -> (j: usize)
        requires
            end <= self@.len(),
        ensures
            j <= end,
            current_word_spec(self@.take(end as int)) == self@.subrange(j as int, end as int),
    {
        let mut j: usize = end;
        while j > 0 && is_alpha(self.chars[j - 1])
            invariant
                j <= end <= self.chars@.len(),
                forall|k: int| j <= k < end ==> is_ascii_alpha(#[trigger] self.chars@[k]),
            decreases j,
        {
            j = j - 1;
        }
        let ghost t = self.chars@.take(end as int);
        proof {
            assert forall|k: int| j <= k < t.len() implies is_ascii_alpha(#[trigger] t[k]) by {
                assert(t[k] == self.chars@[k]);
            }
            if j > 0 {
                assert(t[j - 1] == self.chars@[j - 1]);
            }
            lemma_current_word_is_suffix(t, j as int);
            assert(t.subrange(j as int, end as int) =~= self.chars@.subrange(j as int, end as int));
        }
        j
    }

    /// The word before the one being typed; see [`previous_word_spec`].
    pub fn previous_word(&self) -> (r: Option<String>)
        ensures
            opt_view(r) == previous_word_spec(self@),
    {
        let n = self.chars.len();
        let j = self.letter_run_start(n);
        proof {
            assert(self@.take(n as int) =~= self@);
            assert(self@.take(n - current_word_spec(self@).len()) =~= self@.take(j as int));
        }
        let mut e: usize = j;
        while e > 0 && self.chars[e - 1] == ' '
            invariant
                e <= j <= n,
                n == self.chars@.len(),
                strip_spaces(self@.take(j as int)) == strip_spaces(self@.take(e as int)),
            decreases e,
        {
            proof {
                let te = self@.take(e as int);
                assert(te.last() == ' ');
                assert(te.drop_last() =~= self@.take(e - 1));
            }
            e = e - 1;
        }
        proof {
            let te = self@.take(e as int);
            if e > 0 {
                assert(te.last() == self.chars@[e - 1]);
            }
            assert(strip_spaces(te) == te);
        }
        let k = self.letter_run_start(e);
        if k < e {
            let mut out = String::new();
            let mut i = k;
            while i < e
                invariant
                    k <= i <= e <= n,
                    n == self.chars@.len(),
                    out@ == self.chars@.subrange(k as int, i as int),
                decreases e - i,
            {
                out.push(self.chars[i]);
                proof {
                    assert(self.chars@.subrange(k as int, i + 1) =~= self.chars@.subrange(k as int, i as int).push(self.chars@[i as int]));
                }
                i = i + 1;
            }
            Some(out)
        } else {
            None
        }
    }
}

/// The current word is the suffix starting after the last non-letter.
pub proof fn lemma_current_word_is_suffix(l: Seq<char>, j: int)
    requires
        0 <= j <= l.len(),
        forall|k: int| j <= k < l.len() ==> is_ascii_alpha(#[trigger] l[k]),
        j == 0 || !is_ascii_alpha(l[j - 1]),
    ensures
        current_word_spec(l) == l.subrange(j, l.len() as int),
    decreases l.len(),
{
    if l.len() > 0 && is_ascii_alpha(l.last()) {
        let d = l.drop_last();
        assert forall|k: int| j <= k < d.len() implies is_ascii_alpha(#[trigger] d[k]) by {
            assert(d[k] == l[k]);
        }
        if j == l.len() {
            assert(false);
        }
        lemma_current_word_is_suffix(d, j);
        assert(l.subrange(j, l.len() as int) =~= d.subrange(j, d.len() as int).push(l.last()));
    } else {
        if j < l.len() {
            assert(is_ascii_alpha(l[l.len() - 1]));
        }
        assert(l.subrange(j, l.len() as int) =~= Seq::<char>::empty());
    }
}

/// Punctuation that sits tight against the preceding word (no space before
/// it) under smart spacing.
pub fn is_tight_punct(c: char) -> (r: bool)
    ensures
        r == is_tight_punct_spec(c),
{
    c == '.' || c == ',' || c == '!' || c == '?' || c == ';' || c == ':'
}

/// Punctuation that ends a sentence (arms auto-capitalization).
pub fn is_sentence_end(c: char) -> (r: bool)
    ensures
        r == is_sentence_end_spec(c),
{
    c == '.' || c == '!' || c == '?'
}

/// Usable key-area height: the surface height minus the suggestion bar.
pub fn key_height(height: u32) -> (r: u32)
    ensures
        r == (if height >= SUGGEST_H {
            height - SUGGEST_H
        } else {
            0
        }),
{
    height.saturating_sub(SUGGEST_H)
}

/// The corner box `(x0, y0, x1, y1)` grown to include the rect `(x, y, w, h)`.
pub open spec fn union_box_spec(acc: Option<(i32, i32, i32, i32)>, x: i32, y: i32, w: i32, h: i32) -> (i32, i32, i32, i32) {
    let (x1, y1) = ((x + w) as i32, (y + h) as i32);
    match acc {
        None => (x, y, x1, y1),
        Some((ax0, ay0, ax1, ay1)) => (
            if ax0 <= x { ax0 } else { x },
            if ay0 <= y { ay0 } else { y },
            if ax1 >= x1 { ax1 } else { x1 },
            if ay1 >= y1 { ay1 } else { y1 },
        ),
    }
}

/// Grow an `(x0, y0, x1, y1)` corner box to include the rect `(x, y, w, h)`.
pub fn union_box(acc: &mut Option<(i32, i32, i32, i32)>, x: i32, y: i32, w: i32, h: i32)
    requires
        i32::MIN <= x + w <= i32::MAX,
        i32::MIN <= y + h <= i32::MAX,
    ensures
        *final(acc) == Some(union_box_spec(*old(acc), x, y, w, h)),
{
    let (x0, y0, x1, y1) = (x, y, x + w, y + h);
    *acc = Some(
        match *acc {
            None => (x0, y0, x1, y1),
            Some((ax0, ay0, ax1, ay1)) => (
                if ax0 <= x0 { ax0 } else { x0 },
                if ay0 <= y0 { ay0 } else { y0 },
                if ax1 >= x1 { ax1 } else { x1 },
                if ay1 >= y1 { ay1 } else { y1 },
            ),
        },
    );
}

/// `v` clamped to `[0, hi]`.
pub open spec fn clamp_to(v: int, hi: int) -> int {
    if v < 0 {
        0
    } else if v > hi {
        hi
    } else {
        v
    }
}

/// The surface region `(x, y, w, h)` to report as damaged after a repaint of
/// a `width x height` surface: all of it for a full repaint, else the union of
/// last frame's dynamic box `prev` and this frame's `cur`, clipped to the
/// surface; nothing when neither frame drew a dynamic overlay.
pub open spec fn damage_spec(
    full: bool,
    prev: Option<(i32, i32, i32, i32)>,
    cur: Option<(i32, i32, i32, i32)>,
    width: int,
    height: int,
) -> (int, int, int, int) {
    if full {
        (0, 0, width, height)
    } else {
        let u = match cur {
            Some((x0, y0, x1, y1)) => Some(
                union_box_spec(prev, x0, y0, (x1 - x0) as i32, (y1 - y0) as i32),
            ),
            None => prev,
        };
        match u {
            Some((x0, y0, x1, y1)) => (
                clamp_to(x0 as int, width),
                clamp_to(y0 as int, height),
                clamp_to(x1 as int, width) - clamp_to(x0 as int, width),
                clamp_to(y1 as int, height) - clamp_to(y0 as int, height),
            ),
            None => (0, 0, 0, 0),
        }
    }
}

/// The damage region of a repaint; see [`damage_spec`].
pub fn damage_rect(
    full: bool,
    prev: Option<(i32, i32, i32, i32)>,
    cur: Option<(i32, i32, i32, i32)>,
    width: i32,
    height: i32,
) -> (r: (i32, i32, i32, i32))
    requires
        width >= 0,
        height >= 0,
        cur matches Some((x0, y0, x1, y1)) ==> i32::MIN <= x1 - x0 <= i32::MAX && i32::MIN <= y1
            - y0 <= i32::MAX,
    ensures
        (r.0 as int, r.1 as int, r.2 as int, r.3 as int) == damage_spec(
            full,
            prev,
            cur,
            width as int,
            height as int,
        ),
{
    if full {
        return (0, 0, width, height);
    }
    let mut u = prev;
    match cur {
        Some((x0, y0, x1, y1)) => union_box(&mut u, x0, y0, x1 - x0, y1 - y0),
        None => {},
    }
    match u {
        Some((x0, y0, x1, y1)) => {
            let x0 = if x0 < 0 { 0 } else if x0 > width { width } else { x0 };
            let y0 = if y0 < 0 { 0 } else if y0 > height { height } else { y0 };
            let x1 = if x1 < 0 { 0 } else if x1 > width { width } else { x1 };
            let y1 = if y1 < 0 { 0 } else if y1 > height { height } else { y1 };
            (x0, y0, x1 - x0, y1 - y0)
        },
        None => (0, 0, 0, 0),
    }
}

/// The undo count armed after committing `w` and a space.
pub fn undo_count(w: &str) -> (r: u32)
    ensures
        r == undo_len(w@),
{
    let n: usize = w.len();
    let m: u64 = (n as u64) % 0x1_0000_0000;
    proof {
        vstd::arithmetic::div_mod::lemma_add_mod_noop(n as int, 1, 0x1_0000_0000);
        assert(1int % 0x1_0000_0000 == 1);
    }
    ((m + 1) % 0x1_0000_0000) as u32
}

/// ASCII-lowercased copy of `w`.
pub fn ascii_lowercase(w: &str) -> (r: String)
    ensures
        r@ == lower_seq(w@),
{
    let wc = chars_of(w);
    let mut out = String::new();
    let mut i: usize = 0;
    while i < wc.len()
        invariant
            i <= wc@.len(),
            wc@ == w@,
            out@ == lower_seq(wc@.take(i as int)),
        decreases wc@.len() - i,
    {
        out.push(to_lower_ascii(wc[i]));
        proof {
            assert(lower_seq(wc@.take(i + 1)) =~= lower_seq(wc@.take(i as int)).push(ascii_lower(wc@[i as int])));
        }
        i = i + 1;
    }
    proof {
        assert(wc@.take(wc@.len() as int) =~= wc@);
    }
    out
}

pub proof fn lemma_current_word_alpha(l: Seq<char>)
    ensures
        forall|k: int| 0 <= k < current_word_spec(l).len() ==> is_ascii_alpha(#[trigger] current_word_spec(l)[k]),
    decreases l.len(),
{
    if l.len() > 0 && is_ascii_alpha(l.last()) {
        lemma_current_word_alpha(l.drop_last());
        let c = current_word_spec(l.drop_last());
        assert forall|k: int| 0 <= k < current_word_spec(l).len() implies is_ascii_alpha(#[trigger] current_word_spec(l)[k]) by {
            if k < c.len() {
                assert(current_word_spec(l)[k] == c[k]);
            }
        }
    }
}

/// The rejected word to dock, when it differs from the chosen `word` beyond
/// ASCII case.
fn penalty(rejected: Option<String>, word: &str) -> (r: Option<String>)
    ensures
        opt_view(r) == (match opt_view(rejected) {
            Some(x) => if lower_seq(x) != lower_seq(word@) {
                Some(x)
            } else {
                None
            },
            None => None,
        }),
{
    match rejected {
        Some(r) => if ascii_lowercase(r.as_str()) == ascii_lowercase(word) {
            None
        } else {
            Some(r)
        },
        None => None,
    }
}

/// What a tap or a swipe asks of the host: the text requests, and the word
/// it accepted, whose learned frequency the host raises a little.
pub struct Typed {
    pub ops: Vec<TextOp>,
    pub accepted: Option<String>,
}

/// What tapping a suggestion asks of the host besides the text requests.
pub struct SuggestionTap {
    pub ops: Vec<TextOp>,
    /// A word accepted from a completion, whose learned frequency is to be
    /// raised a little.
    pub accepted: Option<String>,
    /// A word chosen in a correction, whose learned frequency boost is to be
    /// raised.
    pub reward: Option<String>,
    /// A word whose learned frequency boost is to be docked.
    pub penalize: Option<String>,
    /// The completions are to be refreshed afterwards.
    pub refresh: bool,
}

// ---------------------------------------------------------------------------
// The executable state machine.
// ---------------------------------------------------------------------------

pub open spec fn opt_view(o: Option<String>) -> Option<Seq<char>> {
    match o {
        Some(s) => Some(s@),
        None => None,
    }
}

pub open spec fn strings_view(v: Seq<String>) -> Seq<Seq<char>> {
    v.map_values(|s: String| s@)
}

pub proof fn lemma_ops_push(v: Seq<TextOp>, o: TextOp)
    ensures
        ops_view(v.push(o)) == ops_view(v) + seq![op_view(o)],
{
    assert(ops_view(v.push(o)) =~= ops_view(v) + seq![op_view(o)]);
}

/// Typing state: input layer, shift latch, smart-spacing flags, suggestion
/// bar, one-tap undo, left-of-cursor mirror and the input-method status.
pub struct TypingState {
    base: Base,
    shift: Shift,
    auto_space: bool,
    pending_cap: bool,
    suggestions: Vec<String>,
    last_committed: Option<String>,
    left: LeftMirror,
    suggest_kind: SuggestKind,
    undo: Option<u32>,
    im_present: bool,
    im_active: bool,
    im_pending: bool,
    im_serial: u32,
}

impl View for TypingState {
    type V = TypingView;

    closed spec fn view(&self) -> TypingView {
        TypingView {
            base: self.base,
            shift: self.shift,
            auto_space: self.auto_space,
            pending_cap: self.pending_cap,
            suggestions: strings_view(self.suggestions@),
            last_committed: opt_view(self.last_committed),
            left: self.left@,
            suggest_kind: self.suggest_kind,
            undo: self.undo,
            im_present: self.im_present,
            im_active: self.im_active,
            im_pending: self.im_pending,
            im_serial: self.im_serial,
        }
    }
}

/// The state a fresh keyboard starts in.
pub open spec fn initial_view(im_present: bool) -> TypingView {
    TypingView {
        base: Base::Letters,
        shift: Shift::Off,
        auto_space: false,
        pending_cap: false,
        suggestions: Seq::empty(),
        last_committed: None,
        left: Seq::empty(),
        suggest_kind: SuggestKind::Empty,
        undo: None,
        im_present: im_present,
        im_active: false,
        im_pending: false,
        im_serial: 0,
    }
}

impl TypingState {
    /// The mirror fits its bound and tracks its own byte count.
    pub closed spec fn wf(&self) -> bool {
        self.left.wf()
    }

    /// Every state the operations produce keeps the left-of-cursor mirror
    /// within `MAX_LEFT` UTF-8 bytes.
    pub proof fn law_left_mirror_bounded(&self)
        requires
            self.wf(),
        ensures
            utf8_count(self@.left) <= MAX_LEFT,
    {
    }

    /// A fresh state on the lowercase letters, with an input-method object
    /// bound when `im_present`.
    pub fn new(im_present: bool) -> (r: Self)
        ensures
            r.wf(),
            r@ == initial_view(im_present),
    {
        let r = TypingState {
            base: Base::Letters,
            shift: Shift::Off,
            auto_space: false,
            pending_cap: false,
            suggestions: Vec::new(),
            last_committed: None,
            left: LeftMirror::new(),
            suggest_kind: SuggestKind::Empty,
            undo: None,
            im_present: im_present,
            im_active: false,
            im_pending: false,
            im_serial: 0,
        };
        proof {
            assert(strings_view(r.suggestions@) =~= Seq::<Seq<char>>::empty());
        }
        r
    }

    pub fn base(&self) -> (r: Base)
        ensures
            r == self@.base,
    {
        self.base
    }

    pub fn shift(&self) -> (r: Shift)
        ensures
            r == self@.shift,
    {
        self.shift
    }

    pub fn suggest_kind(&self) -> (r: SuggestKind)
        ensures
            r == self@.suggest_kind,
    {
        self.suggest_kind
    }

    pub fn suggestions(&self) -> (r: &Vec<String>)
        ensures
            strings_view(r@) == self@.suggestions,
    {
        &self.suggestions
    }

    pub fn im_serial(&self) -> (r: u32)
        ensures
            r == self@.im_serial,
    {
        self.im_serial
    }

    /// Whether text commits currently go through the input method.
    pub fn im_active(&self) -> (r: bool)
        ensures
            r == self@.im_active,
    {
        self.im_active
    }

    /// How many chars the next Backspace removes as a unit, when armed.
    pub fn undo(&self) -> (r: Option<u32>)
        ensures
            r == self@.undo,
    {
        self.undo
    }

    /// The layer currently displayed, derived from base layer + shift state.
    pub fn current_kind(&self) -> (r: LayerKind)
        ensures
            r == current_kind_spec(self@),
    {
        match self.base {
            Base::Letters => if self.shift != Shift::Off {
                LayerKind::LettersUpper
            } else {
                LayerKind::LettersLower
            },
            Base::Symbols1 => LayerKind::Symbols1,
            Base::Symbols2 => LayerKind::Symbols2,
        }
    }

    /// The word for prediction: the trailing run of letters left of the cursor.
    pub fn current_word(&self) -> (r: String)
        ensures
            r@ == current_word_spec(self@.left),
    {
        self.left.current_word()
    }

    /// The word before the one being typed (or before the cursor); the host
    /// learns next-word statistics from it.
    pub fn previous_word(&self) -> (r: Option<String>)
        ensures
            opt_view(r) == previous_word_spec(self@.left),
    {
        self.left.previous_word()
    }

    /// The word whose likely successors the suggestion bar predicts: on the
    /// letters layer, when no word is being typed, the word before the cursor.
    pub fn prediction_context(&self) -> (r: Option<String>)
        ensures
            opt_view(r) == prediction_context_spec(self@),
    {
        if self.base != Base::Letters {
            return None;
        }
        let w = self.left.current_word();
        if w.as_str().is_empty() {
            self.left.previous_word()
        } else {
            None
        }
    }

    /// Apply an input-method event: activation is pending until `done`, which
    /// also advances the commit serial.
    pub fn im_event(&mut self, ev: ImEvent)
        requires
            old(self).wf(),
        ensures
            final(self).wf(),
            final(self)@ == im_step(old(self)@, ev),
    {
        match ev {
            ImEvent::Activate => self.im_pending = true,
            ImEvent::Deactivate => self.im_pending = false,
            ImEvent::Done => {
                self.im_active = self.im_pending;
                self.im_serial = self.im_serial.wrapping_add(1);
            },
            ImEvent::Unavailable => {
                self.im_present = false;
                self.im_active = false;
            },
            ImEvent::Other => {},
        }
    }

    /// Virtual-keyboard request typing `c`, holding Shift if the US layout
    /// needs it; nothing for chars the layout lacks.
    fn vk_type_char(c: char, ops: &mut Vec<TextOp>)
        ensures
            ops_view(final(ops)@) == ops_view(old(ops)@) + key_op(c),
    {
        proof {
            assert(ops_view(ops@) + Seq::<TextOpView>::empty() =~= ops_view(ops@));
        }
        match char_to_key(c) {
            Some((code, shift)) => {
                proof {
                    lemma_ops_push(ops@, TextOp::Key(code, shift));
                }
                ops.push(TextOp::Key(code, shift));
            },
            None => {},
        }
    }

    /// Virtual-keyboard requests typing each char of `text`.
    fn vk_type_text(text: &Vec<char>, ops: &mut Vec<TextOp>)
        ensures
            ops_view(final(ops)@) == ops_view(old(ops)@) + key_ops(text@),
    {
        let mut i: usize = 0;
        proof {
            assert(text@.take(0) =~= Seq::<char>::empty());
            assert(ops_view(ops@) + Seq::<TextOpView>::empty() =~= ops_view(ops@));
        }
        while i < text.len()
            invariant
                i <= text@.len(),
                ops_view(ops@) == ops_view(old(ops)@) + key_ops(text@.take(i as int)),
            decreases text@.len() - i,
        {
            Self::vk_type_char(text[i], ops);
            proof {
                assert(text@.take(i + 1).drop_last() =~= text@.take(i as int));
                assert(text@.take(i + 1).last() == text@[i as int]);
                assert(ops_view(old(ops)@) + key_ops(text@.take(i as int)) + key_op(text@[i as int])
                    =~= ops_view(old(ops)@) + key_ops(text@.take(i + 1)));
            }
            i = i + 1;
        }
        proof {
            assert(text@.take(text@.len() as int) =~= text@);
        }
    }

    /// Requests typing each char of `text` separately.
    fn emit_chars(&self, text: &Vec<char>, ops: &mut Vec<TextOp>)
        ensures
            ops_view(final(ops)@) == ops_view(old(ops)@) + chars_ops(self@, text@),
    {
        let mut i: usize = 0;
        proof {
            assert(text@.take(0) =~= Seq::<char>::empty());
            assert(ops_view(ops@) + Seq::<TextOpView>::empty() =~= ops_view(ops@));
        }
        while i < text.len()
            invariant
                i <= text@.len(),
                ops_view(ops@) == ops_view(old(ops)@) + chars_ops(self@, text@.take(i as int)),
            decreases text@.len() - i,
        {
            self.emit_char(text[i], ops);
            proof {
                assert(text@.take(i + 1).drop_last() =~= text@.take(i as int));
                assert(text@.take(i + 1).last() == text@[i as int]);
                assert(ops_view(old(ops)@) + chars_ops(self@, text@.take(i as int)) + char_ops(self@, text@[i as int])
                    =~= ops_view(old(ops)@) + chars_ops(self@, text@.take(i + 1)));
            }
            i = i + 1;
        }
        proof {
            assert(text@.take(text@.len() as int) =~= text@);
        }
    }

    /// Request typing one char through whichever channel is live.
    fn emit_char(&self, c: char, ops: &mut Vec<TextOp>)
        ensures
            ops_view(final(ops)@) == ops_view(old(ops)@) + char_ops(self@, c),
    {
        if self.im_active && self.im_present {
            let mut t = String::new();
            t.push(c);
            proof {
                lemma_ops_push(ops@, TextOp::Commit(t));
                assert(t@ =~= seq![c]);
            }
            ops.push(TextOp::Commit(t));
        } else {
            Self::vk_type_char(c, ops);
        }
    }

    /// Type one char and mirror it into the left text.
    fn type_char(&mut self, c: char, ops: &mut Vec<TextOp>)
        requires
            old(self).wf(),
        ensures
            final(self).wf(),
            final(self)@ == type_char_step(old(self)@, c).0,
            ops_view(final(ops)@) == ops_view(old(ops)@) + type_char_step(old(self)@, c).1,
    {
        self.emit_char(c, ops);
        self.left.push(c);
    }

    /// Commit a word followed by a space, via whichever channel is live.
    fn commit_word(&mut self, word: &str, ops: &mut Vec<TextOp>)
        requires
            old(self).wf(),
        ensures
            final(self).wf(),
            final(self)@ == commit_word_step(old(self)@, word@).0,
            ops_view(final(ops)@) == ops_view(old(ops)@) + commit_word_step(old(self)@, word@).1,
    {
        let mut text: String = word.to_owned();
        text.push(' ');
        let tc = chars_of(text.as_str());
        if self.im_active && self.im_present {
            proof {
                lemma_ops_push(ops@, TextOp::Commit(text));
            }
            ops.push(TextOp::Commit(text));
        } else {
            Self::vk_type_text(&tc, ops);
        }
        self.left.push_all(&tc);
        self.last_committed = Some(word.to_owned());
        self.auto_space = true;
    }

    /// Type a tapped character, applying smart spacing (tuck punctuation
    /// against a preceding auto-spaced word) and arming auto-capitalization
    /// after a sentence end.
    fn type_key_char(&mut self, c: char, ops: &mut Vec<TextOp>)
        requires
            old(self).wf(),
        ensures
            final(self).wf(),
            final(self)@ == type_key_char_step(old(self)@, c).0,
            ops_view(final(ops)@) == ops_view(old(ops)@) + type_key_char_step(old(self)@, c).1,
    {
        let ghost o0 = ops_view(ops@);
        if self.auto_space && is_tight_punct(c) {
            self.delete_one(ops);
            let ghost o1 = ops_view(ops@);
            self.type_char(c, ops);
            let ghost o2 = ops_view(ops@);
            self.type_char(' ', ops);
            self.auto_space = true;
            proof {
                assert(ops_view(ops@) =~= o0 + (o1.skip(o0.len() as int) + o2.skip(o1.len() as int) + ops_view(ops@).skip(o2.len() as int)));
            }
        } else {
            self.type_char(c, ops);
            self.auto_space = false;
        }
        if is_alpha(c) && self.shift == Shift::OneShot {
            self.shift = Shift::Off;
        }
        self.pending_cap = is_sentence_end(c);
    }

    /// If a sentence just ended, latch a one-shot shift so the next letter
    /// capitalizes (only when the user hasn't set shift themselves).
    fn apply_autocap(&mut self)
        ensures
            final(self)@ == apply_autocap_spec(old(self)@),
            final(self).left == old(self).left,
    {
        if self.pending_cap && self.base == Base::Letters && self.shift == Shift::Off {
            self.shift = Shift::OneShot;
        }
    }

    fn tap_backspace(&mut self, undo: Option<u32>, ops: &mut Vec<TextOp>)
        requires
            old(self).wf(),
        ensures
            final(self).wf(),
            final(self)@ == backspace_step(old(self)@, undo).0,
            ops_view(final(ops)@) == ops_view(old(ops)@) + backspace_step(old(self)@, undo).1,
    {
        match undo {
            Some(n) => {
                self.delete_n(n, ops);
                self.suggestions = Vec::new();
                self.suggest_kind = SuggestKind::Empty;
                self.last_committed = None;
                proof {
                    assert(strings_view(self.suggestions@) =~= Seq::<Seq<char>>::empty());
                }
            },
            None => {
                proof {
                    lemma_ops_push(ops@, TextOp::Key(KEY_BACKSPACE, false));
                }
                ops.push(TextOp::Key(KEY_BACKSPACE, false));
                self.left.pop();
            },
        }
        self.auto_space = false;
        self.pending_cap = false;
    }

    fn tap_enter(&mut self, ops: &mut Vec<TextOp>)
        requires
            old(self).wf(),
        ensures
            final(self).wf(),
            final(self)@ == action_core(old(self)@, None, KeyAction::Enter).0,
            ops_view(final(ops)@) == ops_view(old(ops)@) + action_core(old(self)@, None, KeyAction::Enter).1,
    {
        proof {
            lemma_ops_push(ops@, TextOp::Key(KEY_ENTER, false));
        }
        ops.push(TextOp::Key(KEY_ENTER, false));
        self.left.push('\n');
        self.auto_space = false;
        self.pending_cap = true;
    }

    fn action_core(&mut self, action: KeyAction, undo: Option<u32>, ops: &mut Vec<TextOp>)
        requires
            old(self).wf(),
        ensures
            final(self).wf(),
            final(self)@ == action_core(old(self)@, undo, action).0,
            ops_view(final(ops)@) == ops_view(old(ops)@) + action_core(old(self)@, undo, action).1,
    {
        proof {
            assert(ops_view(ops@) + Seq::<TextOpView>::empty() =~= ops_view(ops@));
        }
        match action {
            KeyAction::Char(c) => self.type_key_char(c, ops),
            KeyAction::Space => {
                self.type_char(' ', ops);
                self.auto_space = false;
            },
            KeyAction::Backspace => self.tap_backspace(undo, ops),
            KeyAction::Enter => self.tap_enter(ops),
            KeyAction::Shift => {
                self.shift = match self.shift {
                    Shift::Off => Shift::OneShot,
                    Shift::OneShot => Shift::Lock,
                    Shift::Lock => Shift::Off,
                };
                self.pending_cap = false;
            },
            KeyAction::ToLetters => self.base = Base::Letters,
            KeyAction::ToSymbols1 => {
                self.base = Base::Symbols1;
                self.shift = Shift::Off;
            },
            KeyAction::ToSymbols2 => self.base = Base::Symbols2,
        }
    }

    /// Act on a tapped key: return the text-injection requests it makes, and
    /// the word it finished typing, if any.
    ///
    /// Text (letters, space, punctuation, symbols) goes through the input
    /// method when a field is active, else through synthesized keystrokes
    /// (with Shift for capitals and shifted symbols). Backspace and Enter are
    /// always key events, except that a Backspace right after a committed word
    /// removes that word and its space as a unit. The remaining actions switch
    /// layers or step the shift latch. The host refreshes completions
    /// afterwards, and raises the finished word's learned frequency a little
    /// when the dictionary knows it.
    pub fn handle_action(&mut self, action: KeyAction) -> (r: Typed)
        requires
            old(self).wf(),
        ensures
            final(self).wf(),
            final(self)@ == action_step(old(self)@, action).0,
            ops_view(r.ops@) == action_step(old(self)@, action).1,
            opt_view(r.accepted) == finished_word(old(self)@, action),
    {
        let ends = match action {
            KeyAction::Space => true,
            KeyAction::Enter => true,
            KeyAction::Char(c) => is_tight_punct(c),
            _ => false,
        };
        let accepted = if ends {
            let w = self.left.current_word();
            if w.as_str().is_empty() {
                None
            } else {
                Some(w)
            }
        } else {
            None
        };
        let mut ops: Vec<TextOp> = Vec::new();
        proof {
            assert(ops_view(ops@) =~= Seq::<TextOpView>::empty());
        }
        let undo = self.undo;
        self.undo = None;
        self.action_core(action, undo, &mut ops);
        proof {
            assert(ops_view(ops@) =~= Seq::<TextOpView>::empty() + action_core(TypingView { undo: None, ..old(self)@ }, undo, action).1);
        }
        self.apply_autocap();
        Typed { ops, accepted }
    }

    /// The prefix whose completions the suggestion bar shows: the word being
    /// typed on the letters layer, empty elsewhere.
    pub fn completion_prefix(&self) -> (r: String)
        ensures
            r@ == (if self@.base == Base::Letters {
                current_word_spec(self@.left)
            } else {
                Seq::<char>::empty()
            }),
    {
        if self.base == Base::Letters {
            self.left.current_word()
        } else {
            String::new()
        }
    }

    /// Refresh the suggestion bar: `comps` are the dictionary's completions of
    /// [`Self::completion_prefix`] or, when that is empty, the predicted
    /// successors of [`Self::prediction_context`].
    pub fn refresh_completions(&mut self, comps: &Vec<String>)
        requires
            old(self).wf(),
        ensures
            final(self).wf(),
            final(self)@ == refresh_step(old(self)@, strings_view(comps@)),
    {
        let word = self.completion_prefix();
        if comps.len() == 0 {
            if self.suggest_kind == SuggestKind::Completions {
                self.suggestions = Vec::new();
                self.suggest_kind = SuggestKind::Empty;
                proof {
                    assert(strings_view(self.suggestions@) =~= Seq::<Seq<char>>::empty());
                }
            }
            return;
        }
        if word.as_str().is_empty() && self.suggest_kind == SuggestKind::GestureAlternates {
            return;
        }
        let cap = if word.as_str().is_empty() {
            false
        } else {
            let first = word.as_str().get_char(0);
            proof {
                lemma_current_word_alpha(self@.left);
                assert(is_ascii_alpha(word@[0]));
            }
            char_is_uppercase(first)
        };
        let ghost cv = strings_view(comps@);
        let ghost f = |w: Seq<char>| if cap { capitalized(w) } else { w };
        proof {
            assert(refresh_step(self@, cv).suggestions == cv.map_values(f));
        }
        let mut out: Vec<String> = Vec::new();
        let mut i: usize = 0;
        while i < comps.len()
            invariant
                i <= comps@.len(),
                cv == strings_view(comps@),
                f == (|w: Seq<char>| if cap { capitalized(w) } else { w }),
                strings_view(out@) =~= cv.take(i as int).map_values(f),
            decreases comps@.len() - i,
        {
            let w = if cap {
                capitalize(comps[i].as_str())
            } else {
                comps[i].clone()
            };
            proof {
                assert(cv[i as int] == comps@[i as int]@);
                assert(w@ == f(cv[i as int]));
                assert(strings_view(out@.push(w)) =~= strings_view(out@).push(w@));
                assert(cv.take(i + 1).map_values(f) =~= cv.take(i as int).map_values(f).push(f(cv[i as int])));
            }
            out.push(w);
            i = i + 1;
        }
        proof {
            assert(cv.take(cv.len() as int) =~= cv);
        }
        self.suggestions = out;
        self.suggest_kind = SuggestKind::Completions;
    }

    /// Commit the top candidate of a decoded swipe (capitalized when shift is
    /// on; a one-shot shift is consumed) followed by a space, fill the
    /// suggestion bar with the first four candidates, and arm the one-tap undo
    /// of the committed word. `cands` are the decoder's candidates, best first;
    /// with none, nothing happens. The committed word is returned as accepted,
    /// for the host to raise its learned frequency a little.
    pub fn gesture(&mut self, cands: &Vec<String>) -> (r: Typed)
        requires
            old(self).wf(),
        ensures
            final(self).wf(),
            final(self)@ == gesture_step(old(self)@, strings_view(cands@)).0,
            ops_view(r.ops@) == gesture_step(old(self)@, strings_view(cands@)).1,
            opt_view(r.accepted) == (if cands@.len() > 0 {
                Some(gesture_word(old(self)@, strings_view(cands@)))
            } else {
                None
            }),
    {
        let mut ops: Vec<TextOp> = Vec::new();
        proof {
            assert(ops_view(ops@) =~= Seq::<TextOpView>::empty());
        }
        if cands.len() == 0 {
            return Typed { ops, accepted: None };
        }
        let ghost cv = strings_view(cands@);
        proof {
            assert(cv[0] == cands@[0]@);
        }
        let word: String = if self.shift != Shift::Off {
            capitalize(cands[0].as_str())
        } else {
            cands[0].clone()
        };
        if self.shift == Shift::OneShot {
            self.shift = Shift::Off;
        }
        self.pending_cap = false;
        self.commit_word(word.as_str(), &mut ops);
        proof {
            assert(ops_view(ops@) =~= Seq::<TextOpView>::empty() + text_ops(old(self)@, word@.push(' ')));
        }
        let upper = if word.as_str().unicode_len() > 0 {
            char_is_uppercase(word.as_str().get_char(0))
        } else {
            false
        };
        let ghost f = |c: Seq<char>| if upper { capitalized(c) } else { c };
        let k: usize = if cands.len() < 4 {
            cands.len()
        } else {
            4
        };
        proof {
            assert(first4(cv) =~= cv.take(k as int));
        }
        let mut out: Vec<String> = Vec::new();
        let mut i: usize = 0;
        while i < k
            invariant
                i <= k <= cands@.len(),
                cv == strings_view(cands@),
                f == (|c: Seq<char>| if upper { capitalized(c) } else { c }),
                strings_view(out@) =~= cv.take(i as int).map_values(f),
            decreases k - i,
        {
            let w = if upper {
                capitalize(cands[i].as_str())
            } else {
                cands[i].clone()
            };
            proof {
                assert(cv[i as int] == cands@[i as int]@);
                assert(w@ == f(cv[i as int]));
                assert(strings_view(out@.push(w)) =~= strings_view(out@).push(w@));
                assert(cv.take(i + 1).map_values(f) =~= cv.take(i as int).map_values(f).push(f(cv[i as int])));
            }
            out.push(w);
            i = i + 1;
        }
        self.suggestions = out;
        self.suggest_kind = SuggestKind::GestureAlternates;
        self.undo = Some(undo_count(word.as_str()));
        Typed { ops, accepted: Some(word) }
    }

    /// Finish the current word from a tapped prediction: type the part after
    /// the already-typed prefix plus a space, and arm the undo of what was
    /// typed. The host refreshes completions afterwards.
    pub fn complete_with(&mut self, word: &str) -> (ops: Vec<TextOp>)
        requires
            old(self).wf(),
        ensures
            final(self).wf(),
            final(self)@ == complete_with_step(old(self)@, word@).0,
            ops_view(ops@) == complete_with_step(old(self)@, word@).1,
    {
        let mut ops: Vec<TextOp> = Vec::new();
        proof {
            assert(ops_view(ops@) =~= Seq::<TextOpView>::empty());
        }
        let cw = self.left.current_word();
        let pre = cw.as_str().unicode_len();
        let wc = chars_of(word);
        let start = if pre < wc.len() {
            pre
        } else {
            wc.len()
        };
        let mut text: Vec<char> = Vec::new();
        let mut suffix = String::new();
        let mut i = start;
        while i < wc.len()
            invariant
                start <= i <= wc@.len(),
                text@ == wc@.subrange(start as int, i as int),
                suffix@ == text@,
            decreases wc@.len() - i,
        {
            let c = wc[i];
            text.push(c);
            suffix.push(c);
            proof {
                assert(wc@.subrange(start as int, i + 1) =~= wc@.subrange(start as int, i as int).push(c));
            }
            i = i + 1;
        }
        proof {
            assert(suffix@ =~= suffix_after(word@, current_word_spec(self@.left).len()));
        }
        text.push(' ');
        self.emit_chars(&text, &mut ops);
        proof {
            assert(ops_view(ops@) =~= chars_ops(self@, text@));
        }
        self.left.push_all(&text);
        self.auto_space = true;
        self.last_committed = Some(ascii_lowercase(word));
        self.undo = Some(undo_count(suffix.as_str()));
        ops
    }

    /// Swap the first suggestion equal to `word` into slot 0.
    fn move_to_front(&mut self, word: &str)
        ensures
            final(self)@ == with_suggestions(old(self)@, swap_to_front(old(self)@.suggestions, word@)),
            final(self).left == old(self).left,
    {
        let w = word.to_owned();
        let n = self.suggestions.len();
        let ghost sv = strings_view(self.suggestions@);
        let mut pos: usize = 0;
        while pos < n && !(self.suggestions[pos] == w)
            invariant
                pos <= n,
                n == self.suggestions@.len(),
                sv == strings_view(self.suggestions@),
                w@ == word@,
                forall|j: int| 0 <= j < pos ==> sv[j] != word@,
            decreases n - pos,
        {
            proof {
                assert(sv[pos as int] == self.suggestions@[pos as int]@);
            }
            pos = pos + 1;
        }
        proof {
            sv.index_of_first_ensures(word@);
            if pos < n {
                assert(sv[pos as int] == self.suggestions@[pos as int]@);
                assert(sv.contains(word@));
            } else {
                assert(!sv.contains(word@));
            }
        }
        if pos < n {
            let a = self.suggestions[0].clone();
            let b = self.suggestions[pos].clone();
            self.suggestions.set(0, b);
            self.suggestions.set(pos, a);
            proof {
                assert(strings_view(self.suggestions@) =~= sv.update(0, sv[pos as int]).update(pos as int, sv[0]));
            }
        }
    }

    /// Replace the previously committed gesture word with `word`: delete the
    /// old word and its space, commit the new one, arm its undo, and move it
    /// into slot 0 of the bar. Also returns the rejected word whose learned
    /// boost is to be docked, when it differs from `word` beyond ASCII case.
    pub fn replace_with(&mut self, word: &str) -> (r: (Vec<TextOp>, Option<String>))
        requires
            old(self).wf(),
        ensures
            final(self).wf(),
            final(self)@ == replace_with_step(old(self)@, word@).0,
            ops_view(r.0@) == replace_with_step(old(self)@, word@).1,
            opt_view(r.1) == replace_with_step(old(self)@, word@).2,
    {
        let mut ops: Vec<TextOp> = Vec::new();
        proof {
            assert(ops_view(ops@) =~= Seq::<TextOpView>::empty());
        }
        let rejected: Option<String> = match &self.last_committed {
            Some(p) => Some(p.clone()),
            None => None,
        };
        match &rejected {
            Some(prev) => {
                let n = undo_count(prev.as_str());
                self.delete_n(n, &mut ops);
            },
            None => {},
        }
        let ghost o1 = ops_view(ops@);
        self.commit_word(word, &mut ops);
        proof {
            assert(ops_view(ops@) =~= o1 + ops_view(ops@).skip(o1.len() as int));
        }
        self.undo = Some(undo_count(word));
        self.move_to_front(word);
        let penalize = penalty(rejected, word);
        (ops, penalize)
    }

    /// Act on a tapped suggestion-bar entry `word`: complete the word being
    /// typed (returning it as accepted), or replace the word a gesture just committed (asking the host to
    /// reward it and, when another word was rejected, to dock that one), or
    /// nothing when the bar holds no suggestions.
    pub fn tap_suggestion(&mut self, word: &str) -> (r: SuggestionTap)
        requires
            old(self).wf(),
        ensures
            final(self).wf(),
            final(self)@ == tap_step(old(self)@, word@).0,
            ops_view(r.ops@) == tap_step(old(self)@, word@).1,
            opt_view(r.accepted) == (if old(self)@.suggest_kind == SuggestKind::Completions {
                Some(word@)
            } else {
                None
            }),
            opt_view(r.reward) == (if old(self)@.suggest_kind == SuggestKind::GestureAlternates {
                Some(word@)
            } else {
                None
            }),
            opt_view(r.penalize) == (if old(self)@.suggest_kind == SuggestKind::GestureAlternates {
                replace_with_step(old(self)@, word@).2
            } else {
                None
            }),
            r.refresh == (old(self)@.suggest_kind == SuggestKind::Completions),
    {
        match self.suggest_kind {
            SuggestKind::Completions => {
                let ops = self.complete_with(word);
                SuggestionTap { ops, accepted: Some(word.to_owned()), reward: None, penalize: None, refresh: true }
            },
            SuggestKind::GestureAlternates => {
                let (ops, penalize) = self.replace_with(word);
                SuggestionTap { ops, accepted: None, reward: Some(word.to_owned()), penalize, refresh: false }
            },
            SuggestKind::Empty => {
                let ops: Vec<TextOp> = Vec::new();
                proof {
                    assert(ops_view(ops@) =~= Seq::<TextOpView>::empty());
                }
                SuggestionTap { ops, accepted: None, reward: None, penalize: None, refresh: false }
            },
        }
    }

    /// Delete one char before the cursor through whichever channel is live.
    fn delete_one(&mut self, ops: &mut Vec<TextOp>)
        requires
            old(self).wf(),
        ensures
            final(self).wf(),
            final(self)@ == delete_one_step(old(self)@).0,
            ops_view(final(ops)@) == ops_view(old(ops)@) + delete_one_step(old(self)@).1,
    {
        if self.im_active && self.im_present {
            proof {
                lemma_ops_push(ops@, TextOp::DeleteBefore(1));
            }
            ops.push(TextOp::DeleteBefore(1));
        } else {
            proof {
                lemma_ops_push(ops@, TextOp::Key(KEY_BACKSPACE, false));
            }
            ops.push(TextOp::Key(KEY_BACKSPACE, false));
        }
        self.left.pop();
    }

    /// Delete the `n` chars before the cursor through whichever channel is
    /// live, keeping the mirror in sync.
    fn delete_n(&mut self, n: u32, ops: &mut Vec<TextOp>)
        requires
            old(self).wf(),
        ensures
            final(self).wf(),
            final(self)@ == delete_n_step(old(self)@, n).0,
            ops_view(final(ops)@) == ops_view(old(ops)@) + delete_n_step(old(self)@, n).1,
    {
        if n == 0 {
            proof {
                assert(ops_view(ops@) + Seq::<TextOpView>::empty() =~= ops_view(ops@));
            }
            return;
        }
        let ghost ops0 = ops_view(ops@);
        if self.im_active {
            if self.im_present {
                proof {
                    lemma_ops_push(ops@, TextOp::DeleteBefore(n));
                }
                ops.push(TextOp::DeleteBefore(n));
            } else {
                proof {
                    assert(ops0 + Seq::<TextOpView>::empty() =~= ops0);
                }
            }
        } else {
            let mut i: u32 = 0;
            while i < n
                invariant
                    i <= n,
                    ops_view(ops@) == ops0 + Seq::new(i as nat, |_i: int| TextOpView::Key(KEY_BACKSPACE, false)),
                decreases n - i,
            {
                proof {
                    lemma_ops_push(ops@, TextOp::Key(KEY_BACKSPACE, false));
                    assert(Seq::new(i as nat, |_i: int| TextOpView::Key(KEY_BACKSPACE, false)) + seq![TextOpView::Key(KEY_BACKSPACE, false)]
                        =~= Seq::new((i + 1) as nat, |_i: int| TextOpView::Key(KEY_BACKSPACE, false)));
                }
                ops.push(TextOp::Key(KEY_BACKSPACE, false));
                i = i + 1;
            }
        }
        let ghost l0 = self.left@;
        let mut i: u32 = 0;
        proof {
            assert(pop_left(l0, 0) =~= l0);
        }
        while i < n
            invariant
                i <= n,
                self.left.wf(),
                self.left@ == pop_left(l0, i as nat),
                self@ == with_left(old(self)@, self.left@),
            decreases n - i,
        {
            self.left.pop();
            proof {
                lemma_pop_left_step(l0, i as nat);
            }
            i = i + 1;
        }
    }
}

} // verus!
