//! The on-screen keyboard's visual layout across input layers: lowercase and
//! uppercase letters plus two symbol pages. Each layer is a list of caps on a
//! 10-wide x 4-tall key grid; positions and sizes are kept in half-key units so
//! that every cap edge is exact.

use vstd::prelude::*;
use crate::ascii::{ascii_upper, is_ascii_lower, to_upper_ascii};
use crate::input::{bottom_letter_row, home_letter_row, top_letter_row};

verus! {

broadcast use vstd::string::group_string_axioms;

/// What pressing a cap does.
#[derive(Debug, Clone, Copy, PartialEq, Eq, Structural)]
pub enum KeyAction {
    Char(char),
    Space,
    Backspace,
    Enter,
    /// Toggle shift (Off -> one-shot -> lock -> Off).
    Shift,
    /// Switch to the lowercase letter layer.
    ToLetters,
    /// Switch to symbol page 1 (numbers + punctuation).
    ToSymbols1,
    /// Switch to symbol page 2 (brackets + math).
    ToSymbols2,
}

/// Which concrete layer is being displayed.
#[derive(Debug, Clone, Copy, PartialEq, Eq, Structural)]
pub enum LayerKind {
    LettersLower,
    LettersUpper,
    Symbols1,
    Symbols2,
}

/// Pixel rectangle (top-left origin).
#[derive(Debug, Clone, Copy, PartialEq, Eq, Structural)]
pub struct Rect {
    pub x: i32,
    pub y: i32,
    pub w: i32,
    pub h: i32,
}

impl Rect {
    /// The pixel `(px, py)` lies in the half-open box `[x, x+w) x [y, y+h)`.
    pub open spec fn contains_spec(&self, px: int, py: int) -> bool {
        self.x <= px < self.x + self.w && self.y <= py < self.y + self.h
    }

    pub fn contains(&self, px: i32, py: i32) -> (r: bool)
        requires
            i32::MIN <= self.x + self.w <= i32::MAX,
            i32::MIN <= self.y + self.h <= i32::MAX,
        ensures
            r == self.contains_spec(px as int, py as int),
    {
        px >= self.x && px < self.x + self.w && py >= self.y && py < self.y + self.h
    }
}

/// Grid extent of every layer, in keys.
pub const COLS: u32 = 10;
pub const ROWS: u32 = 4;

/// One drawable/hit-testable key, positioned on the key grid. Positions and
/// sizes are in half-key units: a cap at `x2 = 3` starts 1.5 keys from the
/// left edge.
#[derive(Debug, Clone)]
pub struct Cap {
    pub action: KeyAction,
    pub label: String,
    pub x2: u32,
    pub y2: u32,
    pub w2: u32,
    pub h2: u32,
}

/// Mathematical form of a [`Cap`].
pub struct CapView {
    pub action: KeyAction,
    pub label: Seq<char>,
    pub x2: int,
    pub y2: int,
    pub w2: int,
    pub h2: int,
}

pub open spec fn cap_view(c: Cap) -> CapView {
    CapView { action: c.action, label: c.label@, x2: c.x2 as int, y2: c.y2 as int, w2: c.w2 as int, h2: c.h2 as int }
}

pub open spec fn caps_view(v: Seq<Cap>) -> Seq<CapView> {
    v.map_values(|c: Cap| cap_view(c))
}

/// A cap that types a letter; its label is always the uppercase letter.
pub open spec fn letter_cap(ch: char, upper: bool, x2: int, y2: int) -> CapView {
    CapView {
        action: KeyAction::Char(if upper { ascii_upper(ch) } else { ch }),
        label: seq![ascii_upper(ch)],
        x2: x2,
        y2: y2,
        w2: 2,
        h2: 2,
    }
}

/// A one-key cap that types a symbol, labelled with it.
pub open spec fn sym_cap(ch: char, x2: int, y2: int) -> CapView {
    CapView { action: KeyAction::Char(ch), label: seq![ch], x2: x2, y2: y2, w2: 2, h2: 2 }
}

/// A function cap of width `w2` half-keys.
pub open spec fn func_cap(action: KeyAction, label: Seq<char>, x2: int, y2: int, w2: int) -> CapView {
    CapView { action: action, label: label, x2: x2, y2: y2, w2: w2, h2: 2 }
}

/// Letter caps for `chars`, side by side from `x2`.
pub open spec fn letter_row(chars: Seq<char>, upper: bool, x2: int, y2: int) -> Seq<CapView> {
    Seq::new(chars.len(), |i: int| letter_cap(chars[i], upper, x2 + 2 * i, y2))
}

/// Symbol caps for `chars`, side by side from `x2`.
pub open spec fn sym_row(chars: Seq<char>, x2: int, y2: int) -> Seq<CapView> {
    Seq::new(chars.len(), |i: int| sym_cap(chars[i], x2 + 2 * i, y2))
}

/// The shared bottom row: [layer-switch] [,] [space] [.] [enter].
pub open spec fn bottom_row_spec(switch: KeyAction, switch_label: Seq<char>) -> Seq<CapView> {
    seq![
        func_cap(switch, switch_label, 0, 6, 3),
        func_cap(KeyAction::Char(','), seq![','], 3, 6, 2),
        func_cap(KeyAction::Space, Seq::empty(), 5, 6, 10),
        func_cap(KeyAction::Char('.'), seq!['.'], 15, 6, 2),
        func_cap(KeyAction::Enter, seq!['E', 'N', 'T'], 17, 6, 3),
    ]
}

/// A letter layer, lowercase or uppercase.
pub open spec fn letter_layer_spec(upper: bool) -> Seq<CapView> {
    letter_row(top_letter_row(), upper, 0, 0)
        + letter_row(home_letter_row(), upper, 1, 2)
        + seq![func_cap(KeyAction::Shift, seq!['S', 'H'], 0, 4, 3)]
        + letter_row(bottom_letter_row(), upper, 3, 4)
        + seq![func_cap(KeyAction::Backspace, seq!['<'], 17, 4, 3)]
        + bottom_row_spec(KeyAction::ToSymbols1, seq!['?', '1', '2'])
}

/// A symbol page from three char rows (10, 10, 7 chars) and the action and
/// label of the page-toggle key at the left of row 2.
pub open spec fn symbol_layer_spec(row0: Seq<char>, row1: Seq<char>, row2mid: Seq<char>, toggle: KeyAction, toggle_label: Seq<char>) -> Seq<CapView> {
    sym_row(row0, 0, 0)
        + sym_row(row1, 0, 2)
        + seq![func_cap(toggle, toggle_label, 0, 4, 3)]
        + sym_row(row2mid, 3, 4)
        + seq![func_cap(KeyAction::Backspace, seq!['<'], 17, 4, 3)]
        + bottom_row_spec(KeyAction::ToLetters, seq!['A', 'B', 'C'])
}

pub open spec fn symbols1_spec() -> Seq<CapView> {
    symbol_layer_spec(
        seq!['1', '2', '3', '4', '5', '6', '7', '8', '9', '0'],
        seq!['@', '#', '$', '&', '-', '+', '(', ')', '/', ':'],
        seq!['*', '"', '\'', '_', ';', '!', '?'],
        KeyAction::ToSymbols2,
        seq!['#', '+', '='],
    )
}

pub open spec fn symbols2_spec() -> Seq<CapView> {
    symbol_layer_spec(
        seq!['[', ']', '(', ')', '{', '}', '<', '>', '|', '\\'],
        seq!['~', '`', '^', '=', '+', '-', '*', '/', '%', '_'],
        seq!['@', '#', '$', '&', '"', ';', ':'],
        KeyAction::ToSymbols1,
        seq!['1', '2', '3'],
    )
}

/// The caps of each layer.
pub open spec fn layer_spec(kind: LayerKind) -> Seq<CapView> {
    match kind {
        LayerKind::LettersLower => letter_layer_spec(false),
        LayerKind::LettersUpper => letter_layer_spec(true),
        LayerKind::Symbols1 => symbols1_spec(),
        LayerKind::Symbols2 => symbols2_spec(),
    }
}

proof fn lemma_caps_push(v: Seq<Cap>, c: Cap)
    ensures
        caps_view(v.push(c)) == caps_view(v) + seq![cap_view(c)],
{
    assert(caps_view(v.push(c)) =~= caps_view(v) + seq![cap_view(c)]);
}

fn letter(ch: char, upper: bool, x2: u32, y2: u32) -> (c: Cap)
    ensures
        cap_view(c) == letter_cap(ch, upper, x2 as int, y2 as int),
{
    let typed = if upper { to_upper_ascii(ch) } else { ch };
    let mut label = String::new();
    label.push(to_upper_ascii(ch));
    proof {
        assert(label@ =~= seq![ascii_upper(ch)]);
    }
    Cap { action: KeyAction::Char(typed), label, x2, y2, w2: 2, h2: 2 }
}

fn sym(ch: char, x2: u32, y2: u32) -> (c: Cap)
    ensures
        cap_view(c) == sym_cap(ch, x2 as int, y2 as int),
{
    let mut label = String::new();
    label.push(ch);
    proof {
        assert(label@ =~= seq![ch]);
    }
    Cap { action: KeyAction::Char(ch), label, x2, y2, w2: 2, h2: 2 }
}

fn func(action: KeyAction, label: &str, x2: u32, y2: u32, w2: u32) -> (c: Cap)
    ensures
        cap_view(c) == func_cap(action, label@, x2 as int, y2 as int, w2 as int),
{
    Cap { action, label: label.to_owned(), x2, y2, w2, h2: 2 }
}

fn push_letter_row(caps: &mut Vec<Cap>, chars: &[char], upper: bool, x2: u32, y2: u32)
    requires
        x2 + 2 * chars@.len() <= 20,
    ensures
        caps_view(final(caps)@) == caps_view(old(caps)@) + letter_row(chars@, upper, x2 as int, y2 as int),
{
    let mut i: usize = 0;
    while i < chars.len()
        invariant
            i <= chars@.len(),
            x2 + 2 * chars@.len() <= 20,
            caps_view(caps@) == caps_view(old(caps)@) + letter_row(chars@.take(i as int), upper, x2 as int, y2 as int),
        decreases chars@.len() - i,
    {
        let c = letter(chars[i], upper, x2 + 2 * (i as u32), y2);
        proof {
            lemma_caps_push(caps@, c);
            assert(letter_row(chars@.take(i + 1), upper, x2 as int, y2 as int) =~= letter_row(chars@.take(i as int), upper, x2 as int, y2 as int) + seq![cap_view(c)]);
        }
        caps.push(c);
        i = i + 1;
    }
    proof {
        assert(chars@.take(chars@.len() as int) =~= chars@);
    }
}

fn push_sym_row(caps: &mut Vec<Cap>, chars: &[char], x2: u32, y2: u32)
    requires
        x2 + 2 * chars@.len() <= 20,
    ensures
        caps_view(final(caps)@) == caps_view(old(caps)@) + sym_row(chars@, x2 as int, y2 as int),
{
    let mut i: usize = 0;
    while i < chars.len()
        invariant
            i <= chars@.len(),
            x2 + 2 * chars@.len() <= 20,
            caps_view(caps@) == caps_view(old(caps)@) + sym_row(chars@.take(i as int), x2 as int, y2 as int),
        decreases chars@.len() - i,
    {
        let c = sym(chars[i], x2 + 2 * (i as u32), y2);
        proof {
            lemma_caps_push(caps@, c);
            assert(sym_row(chars@.take(i + 1), x2 as int, y2 as int) =~= sym_row(chars@.take(i as int), x2 as int, y2 as int) + seq![cap_view(c)]);
        }
        caps.push(c);
        i = i + 1;
    }
    proof {
        assert(chars@.take(chars@.len() as int) =~= chars@);
    }
}

fn push_func(caps: &mut Vec<Cap>, action: KeyAction, label: &str, x2: u32, y2: u32, w2: u32)
    ensures
        caps_view(final(caps)@) == caps_view(old(caps)@) + seq![func_cap(action, label@, x2 as int, y2 as int, w2 as int)],
{
    let c = func(action, label, x2, y2, w2);
    proof {
        lemma_caps_push(caps@, c);
    }
    caps.push(c);
}

/// The shared bottom row: [layer-switch] [,] [space] [.] [enter]. `switch`
/// is the action/label of the left-most key (to-symbols on letters, to-letters
/// on symbol pages).
fn bottom_row(caps: &mut Vec<Cap>, switch: KeyAction, switch_label: &str)
    ensures
        caps_view(final(caps)@) == caps_view(old(caps)@) + bottom_row_spec(switch, switch_label@),
{
    let ghost c0 = caps_view(caps@);
    push_func(caps, switch, switch_label, 0, 6, 3);
    push_func(caps, KeyAction::Char(','), ",", 3, 6, 2);
    push_func(caps, KeyAction::Space, "", 5, 6, 10);
    push_func(caps, KeyAction::Char('.'), ".", 15, 6, 2);
    push_func(caps, KeyAction::Enter, "ENT", 17, 6, 3);
    proof {
        reveal_strlit(",");
        reveal_strlit("");
        reveal_strlit(".");
        reveal_strlit("ENT");
        assert(","@ =~= seq![',']);
        assert(""@ =~= Seq::<char>::empty());
        assert("."@ =~= seq!['.']);
        assert("ENT"@ =~= seq!['E', 'N', 'T']);
        assert(caps_view(caps@) =~= c0 + bottom_row_spec(switch, switch_label@));
    }
}

fn letter_layer(upper: bool) -> (caps: Vec<Cap>)
    ensures
        caps_view(caps@) == letter_layer_spec(upper),
{
    let mut caps: Vec<Cap> = Vec::new();
    let top = ['q', 'w', 'e', 'r', 't', 'y', 'u', 'i', 'o', 'p'];
    let home = ['a', 's', 'd', 'f', 'g', 'h', 'j', 'k', 'l'];
    let bottom = ['z', 'x', 'c', 'v', 'b', 'n', 'm'];
    proof {
        assert(top@ =~= top_letter_row());
        assert(home@ =~= home_letter_row());
        assert(bottom@ =~= bottom_letter_row());
        assert(caps_view(caps@) =~= Seq::<CapView>::empty());
    }
    push_letter_row(&mut caps, top.as_slice(), upper, 0, 0);
    push_letter_row(&mut caps, home.as_slice(), upper, 1, 2);
    push_func(&mut caps, KeyAction::Shift, "SH", 0, 4, 3);
    push_letter_row(&mut caps, bottom.as_slice(), upper, 3, 4);
    push_func(&mut caps, KeyAction::Backspace, "<", 17, 4, 3);
    bottom_row(&mut caps, KeyAction::ToSymbols1, "?12");
    proof {
        reveal_strlit("SH");
        reveal_strlit("<");
        reveal_strlit("?12");
        assert("SH"@ =~= seq!['S', 'H']);
        assert("<"@ =~= seq!['<']);
        assert("?12"@ =~= seq!['?', '1', '2']);
        assert(caps_view(caps@) =~= letter_layer_spec(upper));
    }
    caps
}

/// Build a symbol page from three character rows (10, 10, 7 chars) and the
/// label/action of the page-toggle key at the bottom-left of row 2.
fn symbol_layer(row0: &[char], row1: &[char], row2mid: &[char], toggle: KeyAction, toggle_label: &str) -> (caps: Vec<Cap>)
    requires
        row0@.len() == 10,
        row1@.len() == 10,
        row2mid@.len() == 7,
    ensures
        caps_view(caps@) == symbol_layer_spec(row0@, row1@, row2mid@, toggle, toggle_label@),
{
    let mut caps: Vec<Cap> = Vec::new();
    proof {
        assert(caps_view(caps@) =~= Seq::<CapView>::empty());
    }
    push_sym_row(&mut caps, row0, 0, 0);
    push_sym_row(&mut caps, row1, 0, 2);
    push_func(&mut caps, toggle, toggle_label, 0, 4, 3);
    push_sym_row(&mut caps, row2mid, 3, 4);
    push_func(&mut caps, KeyAction::Backspace, "<", 17, 4, 3);
    bottom_row(&mut caps, KeyAction::ToLetters, "ABC");
    proof {
        reveal_strlit("<");
        reveal_strlit("ABC");
        assert("<"@ =~= seq!['<']);
        assert("ABC"@ =~= seq!['A', 'B', 'C']);
        assert(caps_view(caps@) =~= symbol_layer_spec(row0@, row1@, row2mid@, toggle, toggle_label@));
    }
    caps
}

fn symbols1() -> (caps: Vec<Cap>)
    ensures
        caps_view(caps@) == symbols1_spec(),
{
    let r0 = ['1', '2', '3', '4', '5', '6', '7', '8', '9', '0'];
    let r1 = ['@', '#', '$', '&', '-', '+', '(', ')', '/', ':'];
    let r2 = ['*', '"', '\'', '_', ';', '!', '?'];
    proof {
        reveal_strlit("#+=");
        assert("#+="@ =~= seq!['#', '+', '=']);
        assert(r0@ =~= seq!['1', '2', '3', '4', '5', '6', '7', '8', '9', '0']);
        assert(r1@ =~= seq!['@', '#', '$', '&', '-', '+', '(', ')', '/', ':']);
        assert(r2@ =~= seq!['*', '"', '\'', '_', ';', '!', '?']);
    }
    symbol_layer(r0.as_slice(), r1.as_slice(), r2.as_slice(), KeyAction::ToSymbols2, "#+=")
}

fn symbols2() -> (caps: Vec<Cap>)
    ensures
        caps_view(caps@) == symbols2_spec(),
{
    let r0 = ['[', ']', '(', ')', '{', '}', '<', '>', '|', '\\'];
    let r1 = ['~', '`', '^', '=', '+', '-', '*', '/', '%', '_'];
    let r2 = ['@', '#', '$', '&', '"', ';', ':'];
    proof {
        reveal_strlit("123");
        assert("123"@ =~= seq!['1', '2', '3']);
        assert(r0@ =~= seq!['[', ']', '(', ')', '{', '}', '<', '>', '|', '\\']);
        assert(r1@ =~= seq!['~', '`', '^', '=', '+', '-', '*', '/', '%', '_']);
        assert(r2@ =~= seq!['@', '#', '$', '&', '"', ';', ':']);
    }
    symbol_layer(r0.as_slice(), r1.as_slice(), r2.as_slice(), KeyAction::ToSymbols1, "123")
}

/// Total width, in half-keys, of the caps in row `y2` (half-key units).
pub open spec fn row_width(caps: Seq<CapView>, y2: int) -> int
    decreases caps.len(),
{
    if caps.len() == 0 {
        0
    } else {
        row_width(caps.drop_last(), y2) + if caps.last().y2 == y2 {
            caps.last().w2
        } else {
            0
        }
    }
}

proof fn lemma_row_width_concat(a: Seq<CapView>, b: Seq<CapView>, y2: int)
    ensures
        row_width(a + b, y2) == row_width(a, y2) + row_width(b, y2),
    decreases b.len(),
{
    if b.len() == 0 {
        assert(a + b =~= a);
    } else {
        lemma_row_width_concat(a, b.drop_last(), y2);
        assert((a + b).drop_last() =~= a + b.drop_last());
    }
}

proof fn lemma_row_width_sym_row(chars: Seq<char>, x2: int, y2: int, r: int)
    ensures
        row_width(sym_row(chars, x2, y2), r) == if r == y2 {
            2 * chars.len()
        } else {
            0
        },
    decreases chars.len(),
{
    if chars.len() > 0 {
        lemma_row_width_sym_row(chars.drop_last(), x2, y2, r);
        assert(sym_row(chars, x2, y2).drop_last() =~= sym_row(chars.drop_last(), x2, y2));
    }
}

proof fn lemma_row_width_single(c: CapView, r: int)
    ensures
        row_width(seq![c], r) == if c.y2 == r { c.w2 } else { 0 },
{
    assert(seq![c].drop_last() =~= Seq::<CapView>::empty());
    assert(row_width(Seq::<CapView>::empty(), r) == 0);
}

proof fn lemma_symbol_layer_rows(row0: Seq<char>, row1: Seq<char>, row2mid: Seq<char>, toggle: KeyAction, toggle_label: Seq<char>, r: int)
    requires
        row0.len() == 10,
        row1.len() == 10,
        row2mid.len() == 7,
        0 <= r < 4,
    ensures
        row_width(symbol_layer_spec(row0, row1, row2mid, toggle, toggle_label), 2 * r) == 20,
{
    let a = sym_row(row0, 0, 0);
    let b = sym_row(row1, 0, 2);
    let c = seq![func_cap(toggle, toggle_label, 0, 4, 3)];
    let d = sym_row(row2mid, 3, 4);
    let e = seq![func_cap(KeyAction::Backspace, seq!['<'], 17, 4, 3)];
    let f = bottom_row_spec(KeyAction::ToLetters, seq!['A', 'B', 'C']);
    let y = 2 * r;
    lemma_row_width_concat(a, b, y);
    lemma_row_width_concat(a + b, c, y);
    lemma_row_width_concat(a + b + c, d, y);
    lemma_row_width_concat(a + b + c + d, e, y);
    lemma_row_width_concat(a + b + c + d + e, f, y);
    lemma_row_width_sym_row(row0, 0, 0, y);
    lemma_row_width_sym_row(row1, 0, 2, y);
    lemma_row_width_sym_row(row2mid, 3, 4, y);
    lemma_row_width_single(c[0], y);
    lemma_row_width_single(e[0], y);
    assert(c =~= seq![c[0]]);
    assert(e =~= seq![e[0]]);
    reveal_with_fuel(row_width, 6);
}

/// Each row of both symbol pages spans the full ten-key width.
pub proof fn law_symbol_rows_fill_full_width(r: int)
    requires
        0 <= r < 4,
    ensures
        row_width(symbols1_spec(), 2 * r) == 20,
        row_width(symbols2_spec(), 2 * r) == 20,
{
    lemma_symbol_layer_rows(
        seq!['1', '2', '3', '4', '5', '6', '7', '8', '9', '0'],
        seq!['@', '#', '$', '&', '-', '+', '(', ')', '/', ':'],
        seq!['*', '"', '\'', '_', ';', '!', '?'],
        KeyAction::ToSymbols2,
        seq!['#', '+', '='],
        r,
    );
    lemma_symbol_layer_rows(
        seq!['[', ']', '(', ')', '{', '}', '<', '>', '|', '\\'],
        seq!['~', '`', '^', '=', '+', '-', '*', '/', '%', '_'],
        seq!['@', '#', '$', '&', '"', ';', ':'],
        KeyAction::ToSymbols1,
        seq!['1', '2', '3'],
        r,
    );
}

/// Both letter layers type their letter in the layer's case, under the
/// same uppercase label: the top-left cap types `q` on the lowercase layer
/// and `Q` on the uppercase one, both labelled `Q`.
pub proof fn law_letter_layers_share_labels(i: int)
    requires
        0 <= i < letter_layer_spec(false).len(),
    ensures
        letter_layer_spec(false).len() == letter_layer_spec(true).len(),
        letter_layer_spec(false)[i].label == letter_layer_spec(true)[i].label,
        letter_layer_spec(false)[i].x2 == letter_layer_spec(true)[i].x2,
        letter_layer_spec(false)[i].y2 == letter_layer_spec(true)[i].y2,
        letter_layer_spec(false)[0].action == KeyAction::Char('q'),
        letter_layer_spec(true)[0].action == KeyAction::Char('Q'),
        letter_layer_spec(false)[0].label == seq!['Q'],
{
}

/// Every layer offers a way to the other pages: letters to symbols, each
/// symbol page to the other one and back to letters.
pub proof fn law_page_switch_keys_exist()
    ensures
        exists|i: int| 0 <= i < letter_layer_spec(false).len() && #[trigger] letter_layer_spec(false)[i].action == KeyAction::ToSymbols1,
        exists|i: int| 0 <= i < symbols1_spec().len() && #[trigger] symbols1_spec()[i].action == KeyAction::ToSymbols2,
        exists|i: int| 0 <= i < symbols1_spec().len() && #[trigger] symbols1_spec()[i].action == KeyAction::ToLetters,
        exists|i: int| 0 <= i < symbols2_spec().len() && #[trigger] symbols2_spec()[i].action == KeyAction::ToSymbols1,
        exists|i: int| 0 <= i < symbols2_spec().len() && #[trigger] symbols2_spec()[i].action == KeyAction::ToLetters,
{
    assert(letter_layer_spec(false)[28].action == KeyAction::ToSymbols1);
    assert(symbols1_spec()[20].action == KeyAction::ToSymbols2);
    assert(symbols1_spec()[29].action == KeyAction::ToLetters);
    assert(symbols2_spec()[20].action == KeyAction::ToSymbols1);
    assert(symbols2_spec()[29].action == KeyAction::ToLetters);
}

/// A cap that types a char shows that char on its label (a letter in
/// uppercase).
pub open spec fn shows_its_char(c: CapView) -> bool {
    match c.action {
        KeyAction::Char(ch) => c.label == seq![ascii_upper(ch)],
        _ => true,
    }
}

/// Every cap of `caps` that types a char shows it.
pub open spec fn all_show_their_char(caps: Seq<CapView>) -> bool {
    forall|i: int| 0 <= i < caps.len() ==> shows_its_char(#[trigger] caps[i])
}

proof fn lemma_all_show_concat(a: Seq<CapView>, b: Seq<CapView>)
    requires
        all_show_their_char(a),
        all_show_their_char(b),
    ensures
        all_show_their_char(a + b),
{
    assert forall|i: int| 0 <= i < (a + b).len() implies shows_its_char(#[trigger] (a + b)[i]) by {
        if i < a.len() {
            assert((a + b)[i] == a[i]);
        } else {
            assert((a + b)[i] == b[i - a.len()]);
        }
    }
}

proof fn lemma_letter_row_shows(chars: Seq<char>, upper: bool, x2: int, y2: int)
    requires
        forall|i: int| 0 <= i < chars.len() ==> ascii_upper(ascii_upper(#[trigger] chars[i])) == ascii_upper(chars[i]),
    ensures
        all_show_their_char(letter_row(chars, upper, x2, y2)),
{
    let r = letter_row(chars, upper, x2, y2);
    assert forall|i: int| 0 <= i < r.len() implies shows_its_char(#[trigger] r[i]) by {
        assert(ascii_upper(ascii_upper(chars[i])) == ascii_upper(chars[i]));
    }
}

proof fn lemma_sym_row_shows(chars: Seq<char>, x2: int, y2: int)
    requires
        forall|i: int| 0 <= i < chars.len() ==> !is_ascii_lower(#[trigger] chars[i]),
    ensures
        all_show_their_char(sym_row(chars, x2, y2)),
{
    let r = sym_row(chars, x2, y2);
    assert forall|i: int| 0 <= i < r.len() implies shows_its_char(#[trigger] r[i]) by {
        assert(!is_ascii_lower(chars[i]));
    }
}

proof fn lemma_func_shows(action: KeyAction, label: Seq<char>, x2: int, y2: int, w2: int)
    requires
        action matches KeyAction::Char(ch) ==> label == seq![ascii_upper(ch)],
    ensures
        all_show_their_char(seq![func_cap(action, label, x2, y2, w2)]),
{
    let r = seq![func_cap(action, label, x2, y2, w2)];
    assert forall|i: int| 0 <= i < r.len() implies shows_its_char(#[trigger] r[i]) by {
        assert(r[i] == func_cap(action, label, x2, y2, w2));
    }
}

proof fn lemma_bottom_row_shows(switch: KeyAction, label: Seq<char>)
    requires
        !(switch is Char),
    ensures
        all_show_their_char(bottom_row_spec(switch, label)),
{
    let r = bottom_row_spec(switch, label);
    assert forall|i: int| 0 <= i < r.len() implies shows_its_char(#[trigger] r[i]) by {
        assert(i == 0 || i == 1 || i == 2 || i == 3 || i == 4);
    }
}

proof fn lemma_letter_rows_upper_fixed()
    ensures
        forall|i: int| 0 <= i < 10 ==> ascii_upper(ascii_upper(#[trigger] top_letter_row()[i])) == ascii_upper(top_letter_row()[i]),
        forall|i: int| 0 <= i < 9 ==> ascii_upper(ascii_upper(#[trigger] home_letter_row()[i])) == ascii_upper(home_letter_row()[i]),
        forall|i: int| 0 <= i < 7 ==> ascii_upper(ascii_upper(#[trigger] bottom_letter_row()[i])) == ascii_upper(bottom_letter_row()[i]),
{
    let (r0, r1, r2) = (top_letter_row(), home_letter_row(), bottom_letter_row());
    assert forall|i: int| 0 <= i < 10 implies ascii_upper(ascii_upper(#[trigger] r0[i])) == ascii_upper(r0[i]) by {
        assert(i == 0 || i == 1 || i == 2 || i == 3 || i == 4 || i == 5 || i == 6 || i == 7 || i == 8 || i == 9);
    }
    assert forall|i: int| 0 <= i < 9 implies ascii_upper(ascii_upper(#[trigger] r1[i])) == ascii_upper(r1[i]) by {
        assert(i == 0 || i == 1 || i == 2 || i == 3 || i == 4 || i == 5 || i == 6 || i == 7 || i == 8);
    }
    assert forall|i: int| 0 <= i < 7 implies ascii_upper(ascii_upper(#[trigger] r2[i])) == ascii_upper(r2[i]) by {
        assert(i == 0 || i == 1 || i == 2 || i == 3 || i == 4 || i == 5 || i == 6);
    }
}

proof fn lemma_symbol_layer_shows(row0: Seq<char>, row1: Seq<char>, row2mid: Seq<char>, toggle: KeyAction, toggle_label: Seq<char>)
    requires
        forall|i: int| 0 <= i < row0.len() ==> !is_ascii_lower(#[trigger] row0[i]),
        forall|i: int| 0 <= i < row1.len() ==> !is_ascii_lower(#[trigger] row1[i]),
        forall|i: int| 0 <= i < row2mid.len() ==> !is_ascii_lower(#[trigger] row2mid[i]),
        !(toggle is Char),
    ensures
        all_show_their_char(symbol_layer_spec(row0, row1, row2mid, toggle, toggle_label)),
{
    let a = sym_row(row0, 0, 0);
    let b = sym_row(row1, 0, 2);
    let c = seq![func_cap(toggle, toggle_label, 0, 4, 3)];
    let d = sym_row(row2mid, 3, 4);
    let e = seq![func_cap(KeyAction::Backspace, seq!['<'], 17, 4, 3)];
    let f = bottom_row_spec(KeyAction::ToLetters, seq!['A', 'B', 'C']);
    lemma_sym_row_shows(row0, 0, 0);
    lemma_sym_row_shows(row1, 0, 2);
    lemma_sym_row_shows(row2mid, 3, 4);
    lemma_func_shows(toggle, toggle_label, 0, 4, 3);
    lemma_func_shows(KeyAction::Backspace, seq!['<'], 17, 4, 3);
    lemma_bottom_row_shows(KeyAction::ToLetters, seq!['A', 'B', 'C']);
    lemma_all_show_concat(a, b);
    lemma_all_show_concat(a + b, c);
    lemma_all_show_concat(a + b + c, d);
    lemma_all_show_concat(a + b + c + d, e);
    lemma_all_show_concat(a + b + c + d + e, f);
}

/// Every cap that types a char is labelled with that char (a letter in
/// uppercase), on every layer: the `.` cap types `.`, the `Q` cap types `q`
/// or `Q`.
pub proof fn law_char_caps_show_their_char(k: LayerKind)
    ensures
        forall|i: int|
            0 <= i < layer_spec(k).len() ==> ((#[trigger] layer_spec(k)[i]).action matches KeyAction::Char(c)
                ==> layer_spec(k)[i].label == seq![ascii_upper(c)]),
{
    match k {
        LayerKind::LettersLower | LayerKind::LettersUpper => {
            let upper = k == LayerKind::LettersUpper;
            lemma_letter_rows_upper_fixed();
            let a = letter_row(top_letter_row(), upper, 0, 0);
            let b = letter_row(home_letter_row(), upper, 1, 2);
            let c = seq![func_cap(KeyAction::Shift, seq!['S', 'H'], 0, 4, 3)];
            let d = letter_row(bottom_letter_row(), upper, 3, 4);
            let e = seq![func_cap(KeyAction::Backspace, seq!['<'], 17, 4, 3)];
            let f = bottom_row_spec(KeyAction::ToSymbols1, seq!['?', '1', '2']);
            lemma_letter_row_shows(top_letter_row(), upper, 0, 0);
            lemma_letter_row_shows(home_letter_row(), upper, 1, 2);
            lemma_letter_row_shows(bottom_letter_row(), upper, 3, 4);
            lemma_func_shows(KeyAction::Shift, seq!['S', 'H'], 0, 4, 3);
            lemma_func_shows(KeyAction::Backspace, seq!['<'], 17, 4, 3);
            lemma_bottom_row_shows(KeyAction::ToSymbols1, seq!['?', '1', '2']);
            lemma_all_show_concat(a, b);
            lemma_all_show_concat(a + b, c);
            lemma_all_show_concat(a + b + c, d);
            lemma_all_show_concat(a + b + c + d, e);
            lemma_all_show_concat(a + b + c + d + e, f);
            assert(layer_spec(k) == letter_layer_spec(upper));
        },
        LayerKind::Symbols1 => {
            let r0 = seq!['1', '2', '3', '4', '5', '6', '7', '8', '9', '0'];
            let r1 = seq!['@', '#', '$', '&', '-', '+', '(', ')', '/', ':'];
            let r2 = seq!['*', '"', '\'', '_', ';', '!', '?'];
            assert forall|i: int| 0 <= i < r0.len() implies !is_ascii_lower(#[trigger] r0[i]) by {
                assert(i == 0 || i == 1 || i == 2 || i == 3 || i == 4 || i == 5 || i == 6 || i == 7 || i == 8 || i == 9);
            }
            assert forall|i: int| 0 <= i < r1.len() implies !is_ascii_lower(#[trigger] r1[i]) by {
                assert(i == 0 || i == 1 || i == 2 || i == 3 || i == 4 || i == 5 || i == 6 || i == 7 || i == 8 || i == 9);
            }
            assert forall|i: int| 0 <= i < r2.len() implies !is_ascii_lower(#[trigger] r2[i]) by {
                assert(i == 0 || i == 1 || i == 2 || i == 3 || i == 4 || i == 5 || i == 6 || i == 7 || i == 8 || i == 9);
            }
            lemma_symbol_layer_shows(r0, r1, r2, KeyAction::ToSymbols2, seq!['#', '+', '=']);
        },
        LayerKind::Symbols2 => {
            let r0 = seq!['[', ']', '(', ')', '{', '}', '<', '>', '|', '\\'];
            let r1 = seq!['~', '`', '^', '=', '+', '-', '*', '/', '%', '_'];
            let r2 = seq!['@', '#', '$', '&', '"', ';', ':'];
            assert forall|i: int| 0 <= i < r0.len() implies !is_ascii_lower(#[trigger] r0[i]) by {
                assert(i == 0 || i == 1 || i == 2 || i == 3 || i == 4 || i == 5 || i == 6 || i == 7 || i == 8 || i == 9);
            }
            assert forall|i: int| 0 <= i < r1.len() implies !is_ascii_lower(#[trigger] r1[i]) by {
                assert(i == 0 || i == 1 || i == 2 || i == 3 || i == 4 || i == 5 || i == 6 || i == 7 || i == 8 || i == 9);
            }
            assert forall|i: int| 0 <= i < r2.len() implies !is_ascii_lower(#[trigger] r2[i]) by {
                assert(i == 0 || i == 1 || i == 2 || i == 3 || i == 4 || i == 5 || i == 6 || i == 7 || i == 8 || i == 9);
            }
            lemma_symbol_layer_shows(r0, r1, r2, KeyAction::ToSymbols1, seq!['1', '2', '3']);
        },
    }
}

/// The full visual keyboard: one cap list per layer, on a `COLS x ROWS` key
/// grid.
pub struct VisualKeyboard {
    lower: Vec<Cap>,
    upper: Vec<Cap>,
    sym1: Vec<Cap>,
    sym2: Vec<Cap>,
}

impl VisualKeyboard {
    /// The caps of each layer, as laid out by `layer_spec`.
    pub closed spec fn wf(&self) -> bool {
        &&& caps_view(self.lower@) == layer_spec(LayerKind::LettersLower)
        &&& caps_view(self.upper@) == layer_spec(LayerKind::LettersUpper)
        &&& caps_view(self.sym1@) == layer_spec(LayerKind::Symbols1)
        &&& caps_view(self.sym2@) == layer_spec(LayerKind::Symbols2)
    }

    pub fn new() -> (kb: Self)
        ensures
            kb.wf(),
    {
        VisualKeyboard { lower: letter_layer(false), upper: letter_layer(true), sym1: symbols1(), sym2: symbols2() }
    }

    /// The caps for a given layer.
    pub fn caps(&self, kind: LayerKind) -> (r: &[Cap])
        requires
            self.wf(),
        ensures
            caps_view(r@) == layer_spec(kind),
    {
        match kind {
            LayerKind::LettersLower => self.lower.as_slice(),
            LayerKind::LettersUpper => self.upper.as_slice(),
            LayerKind::Symbols1 => self.sym1.as_slice(),
            LayerKind::Symbols2 => self.sym2.as_slice(),
        }
    }
}

} // verus!
