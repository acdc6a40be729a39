//! Character helpers: ASCII case mapping, UTF-8 widths, and the two Unicode
//! case queries that the library takes from `std`.

use vstd::prelude::*;
use vstd::utf8::*;

verus! {

broadcast use vstd::utf8::char_is_scalar, vstd::utf8::char_u32_cast;

/// `c` is an ASCII letter.
pub open spec fn is_ascii_alpha(c: char) -> bool {
    ('a' <= c && c <= 'z') || ('A' <= c && c <= 'Z')
}

/// `c` is an ASCII lowercase letter.
pub open spec fn is_ascii_lower(c: char) -> bool {
    'a' <= c && c <= 'z'
}

/// `c` is an ASCII uppercase letter.
pub open spec fn is_ascii_upper(c: char) -> bool {
    'A' <= c && c <= 'Z'
}

/// ASCII uppercase mapping; every other char maps to itself.
pub open spec fn ascii_upper(c: char) -> char {
    if is_ascii_lower(c) { ((c as u32) - 32) as char } else { c }
}

/// ASCII lowercase mapping; every other char maps to itself.
pub open spec fn ascii_lower(c: char) -> char {
    if is_ascii_upper(c) { ((c as u32) + 32) as char } else { c }
}

/// Every char of `s` is ASCII.
pub open spec fn all_ascii(s: Seq<char>) -> bool {
    forall|i: int| 0 <= i < s.len() ==> (#[trigger] s[i]) as u32 <= 0x7F
}

pub fn is_alpha(c: char) -> (r: bool)
    ensures
        r == is_ascii_alpha(c),
{
    ('a' <= c && c <= 'z') || ('A' <= c && c <= 'Z')
}

pub fn is_upper_ascii(c: char) -> (r: bool)
    ensures
        r == is_ascii_upper(c),
{
    'A' <= c && c <= 'Z'
}

pub fn to_upper_ascii(c: char) -> (r: char)
    ensures
        r == ascii_upper(c),
{
    if 'a' <= c && c <= 'z' {
        let u: u32 = (c as u32) - 32;
        let b: u8 = u as u8;
        proof {
            assert(b as u32 == u);
        }
        b as char
    } else {
        c
    }
}

pub fn to_lower_ascii(c: char) -> (r: char)
    ensures
        r == ascii_lower(c),
{
    if 'A' <= c && c <= 'Z' {
        let u: u32 = (c as u32) + 32;
        let b: u8 = u as u8;
        proof {
            assert(b as u32 == u);
        }
        b as char
    } else {
        c
    }
}

/// Number of bytes in the UTF-8 encoding of `c`.
pub open spec fn utf8_width(c: char) -> nat {
    encode_scalar(c as u32).len()
}

/// Number of bytes in the UTF-8 encoding of `s`.
pub open spec fn utf8_count(s: Seq<char>) -> nat {
    encode_utf8(s).len()
}

pub fn char_utf8_width(c: char) -> (w: usize)
    ensures
        w == utf8_width(c),
        1 <= w <= 4,
{
    let u: u32 = c as u32;
    proof {
        assert(is_scalar(u));
    }
    if u <= 0x7F {
        1
    } else if u <= 0x7FF {
        2
    } else if u <= 0xFFFF {
        3
    } else {
        4
    }
}

pub proof fn lemma_utf8_width_bounds(c: char)
    ensures
        1 <= utf8_width(c) <= 4,
        (c as u32) <= 0x7F ==> utf8_width(c) == 1,
{
    assert(is_scalar(c as u32));
}

pub proof fn lemma_utf8_count_concat(a: Seq<char>, b: Seq<char>)
    ensures
        utf8_count(a + b) == utf8_count(a) + utf8_count(b),
    decreases a.len(),
{
    if a.len() == 0 {
        assert(a + b =~= b);
    } else {
        lemma_utf8_count_concat(a.drop_first(), b);
        assert((a + b).drop_first() =~= a.drop_first() + b);
        assert((a + b)[0] == a[0]);
    }
}

pub proof fn lemma_utf8_count_push(a: Seq<char>, c: char)
    ensures
        utf8_count(a.push(c)) == utf8_count(a) + utf8_width(c),
{
    lemma_utf8_count_concat(a, seq![c]);
    assert(a.push(c) =~= a + seq![c]);
    assert(seq![c].drop_first() =~= Seq::<char>::empty());
    assert(encode_utf8(Seq::<char>::empty()) =~= Seq::<u8>::empty());
    assert(encode_utf8(seq![c]) =~= encode_scalar(c as u32) + encode_utf8(Seq::<char>::empty()));
}

pub proof fn lemma_utf8_count_drop_first(a: Seq<char>)
    requires
        a.len() > 0,
    ensures
        utf8_count(a) == utf8_width(a[0]) + utf8_count(a.drop_first()),
{
}

pub proof fn lemma_utf8_count_drop_last(a: Seq<char>)
    requires
        a.len() > 0,
    ensures
        utf8_count(a) == utf8_count(a.drop_last()) + utf8_width(a.last()),
{
    lemma_utf8_count_push(a.drop_last(), a.last());
    assert(a.drop_last().push(a.last()) =~= a);
}

pub proof fn lemma_utf8_count_ascii(a: Seq<char>)
    requires
        all_ascii(a),
    ensures
        utf8_count(a) == a.len(),
    decreases a.len(),
{
    if a.len() > 0 {
        assert(all_ascii(a.drop_first()));
        lemma_utf8_count_ascii(a.drop_first());
    }
}

/// What `char::to_uppercase` yields for `c`: the Unicode uppercase mapping, one
/// or more chars.
pub uninterp spec fn char_to_uppercase_spec(c: char) -> Seq<char>;

/// Whether `c` has the Unicode `Uppercase` property (`char::is_uppercase`).
pub uninterp spec fn is_uppercase_spec(c: char) -> bool;

/// Calls `char::to_uppercase` and collects the mapping. Its result is named
/// `char_to_uppercase_spec(c)`; beyond that, the contract states the two facts
/// that std's documentation gives for ASCII: `a`..`z` map to `A`..`Z`, and any
/// other ASCII char (having no uppercase mapping) maps to itself. What non-ASCII
/// chars map to is left unsaid.
#[verifier::external_body]
fn char_to_uppercase(c: char) -> (r: String)
    ensures
        r@ == char_to_uppercase_spec(c),
        (c as u32) <= 0x7F ==> r@ == seq![ascii_upper(c)],
{
    c.to_uppercase().collect::<String>()
}

/// Calls `char::is_uppercase`. The result is named `is_uppercase_spec(c)`; for
/// ASCII the contract states what std's documentation gives: exactly `A`..`Z`
/// are uppercase. Non-ASCII results are left unsaid.
#[verifier::external_body]
pub(crate) fn char_is_uppercase(c: char) -> (r: bool)
    ensures
        r == is_uppercase_spec(c),
        (c as u32) <= 0x7F ==> (r == is_ascii_upper(c)),
{
    c.is_uppercase()
}

/// `String::push` appends one char.
pub assume_specification[ String::push ](s: &mut String, ch: char)
    ensures
        final(s)@ == old(s)@.push(ch),
;

/// What `char::to_uppercase` yields for `c`: the ASCII uppercase mapping for
/// an ASCII char, the (named) Unicode mapping beyond ASCII.
pub open spec fn upper_of(c: char) -> Seq<char> {
    if (c as u32) <= 0x7F {
        seq![ascii_upper(c)]
    } else {
        char_to_uppercase_spec(c)
    }
}

/// `w` begins with an uppercase char (`char::is_uppercase`): for an ASCII
/// first char, one of `A`..`Z`.
pub open spec fn starts_upper(w: Seq<char>) -> bool {
    w.len() > 0 && if (w[0] as u32) <= 0x7F {
        is_ascii_upper(w[0])
    } else {
        is_uppercase_spec(w[0])
    }
}

/// `word` with its first char replaced by its uppercase mapping.
pub open spec fn capitalized(word: Seq<char>) -> Seq<char> {
    if word.len() == 0 {
        Seq::empty()
    } else {
        upper_of(word[0]) + word.drop_first()
    }
}

/// Uppercase the first character of a word.
pub fn capitalize(word: &str) -> (r: String)
    ensures
        r@ == capitalized(word@),
        word@.len() > 0 && (word@[0] as u32) <= 0x7F ==> r@ == seq![ascii_upper(word@[0])]
            + word@.drop_first(),
{
    let n = word.unicode_len();
    if n == 0 {
        return String::new();
    }
    let mut out = char_to_uppercase(word.get_char(0));
    let ghost head = out@;
    let mut i: usize = 1;
    while i < n
        invariant
            n == word@.len(),
            1 <= i <= n,
            head == upper_of(word@[0]),
            out@ == head + word@.subrange(1, i as int),
        decreases n - i,
    {
        let c = word.get_char(i);
        out.push(c);
        proof {
            assert(word@.subrange(1, i as int + 1) =~= word@.subrange(1, i as int).push(c));
        }
        i = i + 1;
    }
    proof {
        assert(word@.subrange(1, n as int) =~= word@.drop_first());
    }
    out
}

/// The chars of `s`, in order.
pub fn chars_of(s: &str) -> (v: Vec<char>)
    ensures
        v@ == s@,
{
    broadcast use vstd::string::group_string_axioms;
    let mut v: Vec<char> = Vec::new();
    for c in it: s.chars()
        invariant
            v@ == it.seq().take(it.index() as int),
    {
        v.push(c);
    }
    v
}

} // verus!
