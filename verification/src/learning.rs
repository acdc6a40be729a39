//! What the keyboard learns from the words a person commits: the next-word
//! model behind the suggestion bar's predictions, and the personal dictionary
//! of tapped-out words the base list lacks. Words are kept ASCII-lowercased.

use vstd::prelude::*;
use crate::typing::{ascii_lowercase, lower_seq, strings_view};

verus! {

// ---------------------------------------------------------------------------
// Word order.
// ---------------------------------------------------------------------------

/// Lexicographic order on words, char by char.
pub open spec fn word_lt(a: Seq<char>, b: Seq<char>) -> bool
    decreases a.len(),
{
    if a.len() == 0 {
        b.len() > 0
    } else if b.len() == 0 {
        false
    } else if a[0] != b[0] {
        (a[0] as u32) < (b[0] as u32)
    } else {
        word_lt(a.drop_first(), b.drop_first())
    }
}

/// No word comes before itself.
pub proof fn lemma_word_lt_irreflexive(a: Seq<char>)
    ensures
        !word_lt(a, a),
    decreases a.len(),
{
    if a.len() > 0 {
        lemma_word_lt_irreflexive(a.drop_first());
    }
}

/// Of two different words, one comes first.
pub proof fn lemma_word_lt_total(a: Seq<char>, b: Seq<char>)
    requires
        a != b,
    ensures
        word_lt(a, b) || word_lt(b, a),
    decreases a.len(),
{
    if a.len() > 0 && b.len() > 0 && a[0] == b[0] {
        if a.drop_first() == b.drop_first() {
            assert(a =~= seq![a[0]] + a.drop_first());
            assert(b =~= seq![b[0]] + b.drop_first());
        }
        lemma_word_lt_total(a.drop_first(), b.drop_first());
    } else if a.len() == 0 && b.len() == 0 {
        assert(a =~= b);
    } else if a.len() > 0 && b.len() > 0 {
        let (x, y) = (a[0] as u32, b[0] as u32);
        vstd::utf8::char_u32_cast(a[0], x);
        vstd::utf8::char_u32_cast(b[0], y);
    }
}

/// The word order is transitive.
pub proof fn lemma_word_lt_transitive(a: Seq<char>, b: Seq<char>, c: Seq<char>)
    requires
        word_lt(a, b),
        word_lt(b, c),
    ensures
        word_lt(a, c),
    decreases a.len(),
{
    if a.len() > 0 && b.len() > 0 && c.len() > 0 && a[0] == b[0] && b[0] == c[0] {
        lemma_word_lt_transitive(a.drop_first(), b.drop_first(), c.drop_first());
    }
}

/// Whether `a` comes before `b` in word order.
pub fn word_less(a: &String, b: &String) -> (r: bool)
    ensures
        r == word_lt(a@, b@),
{
    let ac = crate::ascii::chars_of(a.as_str());
    let bc = crate::ascii::chars_of(b.as_str());
    let mut i: usize = 0;
    proof {
        assert(a@.skip(0) =~= a@);
        assert(b@.skip(0) =~= b@);
    }
    while i < ac.len() && i < bc.len() && ac[i] == bc[i]
        invariant
            i <= ac@.len(),
            i <= bc@.len(),
            ac@ == a@,
            bc@ == b@,
            word_lt(a@, b@) == word_lt(a@.skip(i as int), b@.skip(i as int)),
        decreases ac@.len() - i,
    {
        proof {
            let x = a@.skip(i as int);
            let y = b@.skip(i as int);
            assert(x[0] == y[0]);
            assert(x.drop_first() =~= a@.skip(i + 1));
            assert(y.drop_first() =~= b@.skip(i + 1));
        }
        i = i + 1;
    }
    let ghost x = a@.skip(i as int);
    let ghost y = b@.skip(i as int);
    if i == ac.len() {
        i < bc.len()
    } else if i == bc.len() {
        false
    } else {
        proof {
            assert(x[0] == ac@[i as int]);
            assert(y[0] == bc@[i as int]);
        }
        (ac[i] as u32) < (bc[i] as u32)
    }
}

/// One more than `c`, short of overflow.
pub open spec fn sat_inc(c: nat) -> nat {
    if c < u32::MAX {
        c + 1
    } else {
        c
    }
}

// ---------------------------------------------------------------------------
// The next-word model.
// ---------------------------------------------------------------------------

/// Threshold of uses after which a tapped-out word the dictionary lacks
/// joins the personal dictionary.
pub const PERSONAL_THRESHOLD: u32 = 3;

/// The `(previous, next, count)` entries as plain values.
pub open spec fn pairs_view(v: Seq<(String, String, u32)>) -> Seq<(Seq<char>, Seq<char>, u32)> {
    v.map_values(|e: (String, String, u32)| (e.0@, e.1@, e.2))
}

/// How often `next` followed `prev` according to `es` (its last entry for
/// the pair; there is at most one).
pub open spec fn pair_count(es: Seq<(Seq<char>, Seq<char>, u32)>, prev: Seq<char>, next: Seq<char>) -> nat
    decreases es.len(),
{
    if es.len() == 0 {
        0
    } else if es.last().0 == prev && es.last().1 == next {
        es.last().2 as nat
    } else {
        pair_count(es.drop_last(), prev, next)
    }
}

/// No pair has two entries.
pub open spec fn pairs_unique(es: Seq<(Seq<char>, Seq<char>, u32)>) -> bool {
    forall|i: int, j: int|
        0 <= i < j < es.len() ==> !((#[trigger] es[i]).0 == (#[trigger] es[j]).0 && es[i].1 == es[j].1)
}

pub proof fn lemma_pair_count_at(es: Seq<(Seq<char>, Seq<char>, u32)>, i: int)
    requires
        pairs_unique(es),
        0 <= i < es.len(),
    ensures
        pair_count(es, es[i].0, es[i].1) == es[i].2,
    decreases es.len(),
{
    if i < es.len() - 1 {
        assert(es.drop_last()[i] == es[i]);
        assert(!(es[i].0 == es[es.len() - 1].0 && es[i].1 == es[es.len() - 1].1));
        lemma_pair_count_at(es.drop_last(), i);
    }
}

pub proof fn lemma_pair_count_absent(es: Seq<(Seq<char>, Seq<char>, u32)>, p: Seq<char>, n: Seq<char>)
    requires
        forall|i: int| 0 <= i < es.len() ==> !((#[trigger] es[i]).0 == p && es[i].1 == n),
    ensures
        pair_count(es, p, n) == 0,
    decreases es.len(),
{
    if es.len() > 0 {
        assert(es[es.len() - 1] == es.last());
        assert forall|i: int| 0 <= i < es.drop_last().len() implies !((#[trigger] es.drop_last()[i]).0 == p
            && es.drop_last()[i].1 == n) by {
            assert(es.drop_last()[i] == es[i]);
        }
        lemma_pair_count_absent(es.drop_last(), p, n);
    }
}

/// A pair with a count has an entry holding it.
pub proof fn lemma_pair_count_entry(es: Seq<(Seq<char>, Seq<char>, u32)>, p: Seq<char>, n: Seq<char>) -> (i: int)
    requires
        pair_count(es, p, n) > 0,
    ensures
        0 <= i < es.len(),
        es[i].0 == p,
        es[i].1 == n,
        es[i].2 == pair_count(es, p, n),
    decreases es.len(),
{
    if es.last().0 == p && es.last().1 == n {
        es.len() - 1
    } else {
        let i = lemma_pair_count_entry(es.drop_last(), p, n);
        assert(es.drop_last()[i] == es[i]);
        i
    }
}

/// Setting the count of entry `i` changes that pair's count and no other.
pub proof fn lemma_pair_count_update(es: Seq<(Seq<char>, Seq<char>, u32)>, i: int, c: u32, p: Seq<char>, n: Seq<char>)
    requires
        pairs_unique(es),
        0 <= i < es.len(),
    ensures
        pair_count(es.update(i, (es[i].0, es[i].1, c)), p, n) == (if p == es[i].0 && n == es[i].1 {
            c as nat
        } else {
            pair_count(es, p, n)
        }),
    decreases es.len(),
{
    let u = es.update(i, (es[i].0, es[i].1, c));
    if i == es.len() - 1 {
        assert(u.drop_last() =~= es.drop_last());
    } else {
        assert(u.drop_last() =~= es.drop_last().update(i, (es[i].0, es[i].1, c)));
        assert(es.drop_last()[i] == es[i]);
        assert(pairs_unique(es.drop_last())) by {
            assert forall|a: int, b: int| 0 <= a < b < es.drop_last().len() implies !((#[trigger] es.drop_last()[a]).0
                == (#[trigger] es.drop_last()[b]).0 && es.drop_last()[a].1 == es.drop_last()[b].1) by {
                assert(es.drop_last()[a] == es[a]);
                assert(es.drop_last()[b] == es[b]);
            }
        }
        lemma_pair_count_update(es.drop_last(), i, c, p, n);
        assert(u.last() == es.last());
        assert(!(es[i].0 == es[es.len() - 1].0 && es[i].1 == es[es.len() - 1].1));
    }
}

/// Appending an entry for a pair without one sets that pair's count.
pub proof fn lemma_pair_count_push(es: Seq<(Seq<char>, Seq<char>, u32)>, e: (Seq<char>, Seq<char>, u32), p: Seq<char>, n: Seq<char>)
    ensures
        pair_count(es.push(e), p, n) == (if p == e.0 && n == e.1 {
            e.2 as nat
        } else {
            pair_count(es, p, n)
        }),
{
    assert(es.push(e).drop_last() =~= es);
}

/// `a` ranks before `b` among the successors of `prev`: it followed `prev`
/// more often, or as often and comes first in word order.
pub open spec fn ranks_before(es: Seq<(Seq<char>, Seq<char>, u32)>, prev: Seq<char>, a: Seq<char>, b: Seq<char>) -> bool {
    pair_count(es, prev, a) > pair_count(es, prev, b) || (pair_count(es, prev, a) == pair_count(es, prev, b)
        && word_lt(a, b))
}

pub proof fn lemma_ranks_before_order(es: Seq<(Seq<char>, Seq<char>, u32)>, prev: Seq<char>, a: Seq<char>, b: Seq<char>, c: Seq<char>)
    ensures
        !ranks_before(es, prev, a, a),
        a != b ==> ranks_before(es, prev, a, b) || ranks_before(es, prev, b, a),
        ranks_before(es, prev, a, b) && ranks_before(es, prev, b, c) ==> ranks_before(es, prev, a, c),
{
    lemma_word_lt_irreflexive(a);
    if a != b {
        lemma_word_lt_total(a, b);
    }
    if ranks_before(es, prev, a, b) && ranks_before(es, prev, b, c) && word_lt(a, b) && word_lt(b, c) {
        lemma_word_lt_transitive(a, b, c);
    }
}

/// The next-word model: how often each word followed each other word.
pub struct NextWords {
    entries: Vec<(String, String, u32)>,
}

impl NextWords {
    /// How often `next` followed `prev`.
    pub closed spec fn count(&self, prev: Seq<char>, next: Seq<char>) -> nat {
        pair_count(pairs_view(self.entries@), prev, next)
    }

    pub closed spec fn wf(&self) -> bool {
        pairs_unique(pairs_view(self.entries@))
    }

    /// `a` ranks before `b` among the successors of `prev`: it followed
    /// `prev` more often, or as often and comes first in word order.
    pub open spec fn ranks(&self, prev: Seq<char>, a: Seq<char>, b: Seq<char>) -> bool {
        self.count(prev, a) > self.count(prev, b) || (self.count(prev, a) == self.count(prev, b) && word_lt(a, b))
    }

    /// An empty model.
    pub fn new() -> (m: Self)
        ensures
            m.wf(),
            forall|p: Seq<char>, n: Seq<char>| m.count(p, n) == 0,
    {
        let m = NextWords { entries: Vec::new() };
        proof {
            assert(pairs_view(m.entries@) =~= Seq::empty());
        }
        m
    }

    /// The index of the entry for `(p, n)`, if there is one.
    fn find(&self, p: &String, n: &String) -> (r: Option<usize>)
        requires
            self.wf(),
        ensures
            match r {
                Some(i) => i < self.entries@.len() && self.entries@[i as int].0@ == p@
                    && self.entries@[i as int].1@ == n@,
                None => self.count(p@, n@) == 0 && forall|k: int|
                    0 <= k < self.entries@.len() ==> !(#[trigger] pairs_view(self.entries@)[k].0 == p@
                        && pairs_view(self.entries@)[k].1 == n@),
            },
    {
        let ghost es = pairs_view(self.entries@);
        let mut i: usize = 0;
        while i < self.entries.len()
            invariant
                i <= self.entries@.len(),
                es == pairs_view(self.entries@),
                forall|k: int| 0 <= k < i ==> !((#[trigger] es[k]).0 == p@ && es[k].1 == n@),
            decreases self.entries@.len() - i,
        {
            if self.entries[i].0 == *p && self.entries[i].1 == *n {
                return Some(i);
            }
            proof {
                assert(es[i as int] == (self.entries@[i as int].0@, self.entries@[i as int].1@, self.entries@[i as int].2));
            }
            i = i + 1;
        }
        proof {
            lemma_pair_count_absent(es, p@, n@);
        }
        None
    }

    /// Set the count of the pair `(p, n)`, both already lowercased.
    fn put(&mut self, p: String, n: String, c: u32)
        requires
            old(self).wf(),
        ensures
            final(self).wf(),
            forall|q: Seq<char>, m: Seq<char>| #[trigger] final(self).count(q, m) == (if q == p@ && m == n@ {
                c as nat
            } else {
                old(self).count(q, m)
            }),
    {
        let ghost es = pairs_view(self.entries@);
        match self.find(&p, &n) {
            Some(i) => {
                proof {
                    assert(es[i as int] == (self.entries@[i as int].0@, self.entries@[i as int].1@, self.entries@[i as int].2));
                }
                self.entries[i] = (p, n, c);
                proof {
                    assert(pairs_view(self.entries@) =~= es.update(i as int, (es[i as int].0, es[i as int].1, c)));
                    assert forall|q: Seq<char>, m: Seq<char>| #[trigger] self.count(q, m) == (if q == p@ && m == n@ {
                        c as nat
                    } else {
                        old(self).count(q, m)
                    }) by {
                        lemma_pair_count_update(es, i as int, c, q, m);
                    }
                    let nv = pairs_view(self.entries@);
                    assert forall|a: int, b: int| 0 <= a < b < nv.len() implies !((#[trigger] nv[a]).0 == (#[trigger] nv[b]).0
                        && nv[a].1 == nv[b].1) by {
                        assert(es[a].0 == nv[a].0 && es[a].1 == nv[a].1);
                        assert(es[b].0 == nv[b].0 && es[b].1 == nv[b].1);
                    }
                }
            },
            None => {
                let ghost e = (p@, n@, c);
                proof {
                    assert forall|k: int| 0 <= k < es.len() implies !((#[trigger] es[k]).0 == p@ && es[k].1 == n@) by {
                        assert(es[k] == pairs_view(self.entries@)[k]);
                    }
                }
                self.entries.push((p, n, c));
                proof {
                    assert(pairs_view(self.entries@) =~= es.push(e));
                    assert forall|q: Seq<char>, m: Seq<char>| #[trigger] self.count(q, m) == (if q == e.0 && m == e.1 {
                        c as nat
                    } else {
                        old(self).count(q, m)
                    }) by {
                        lemma_pair_count_push(es, e, q, m);
                    }
                    let nv = pairs_view(self.entries@);
                    assert forall|a: int, b: int| 0 <= a < b < nv.len() implies !((#[trigger] nv[a]).0 == (#[trigger] nv[b]).0
                        && nv[a].1 == nv[b].1) by {
                        if b == es.len() {
                            assert(nv[a] == es[a]);
                        } else {
                            assert(nv[a] == es[a]);
                            assert(nv[b] == es[b]);
                        }
                    }
                }
            },
        }
    }

    /// The count of the pair `(p, n)`, both already lowercased.
    fn get(&self, p: &String, n: &String) -> (c: u32)
        requires
            self.wf(),
        ensures
            c == self.count(p@, n@),
    {
        match self.find(p, n) {
            Some(i) => {
                proof {
                    let es = pairs_view(self.entries@);
                    assert(es[i as int] == (self.entries@[i as int].0@, self.entries@[i as int].1@, self.entries@[i as int].2));
                    lemma_pair_count_at(es, i as int);
                }
                self.entries[i].2
            },
            None => 0,
        }
    }

    /// Count one more time that `next` followed `prev` (case-insensitively).
    pub fn record(&mut self, prev: &str, next: &str)
        requires
            old(self).wf(),
        ensures
            final(self).wf(),
            forall|q: Seq<char>, m: Seq<char>| #[trigger] final(self).count(q, m) == (if q == lower_seq(prev@)
                && m == lower_seq(next@) {
                sat_inc(old(self).count(q, m))
            } else {
                old(self).count(q, m)
            }),
    {
        let p = ascii_lowercase(prev);
        let n = ascii_lowercase(next);
        let c = self.get(&p, &n);
        let c2 = if c < u32::MAX { c + 1 } else { c };
        self.put(p, n, c2);
    }

    /// Set how often `next` followed `prev` (case-insensitively), as when
    /// loading a saved model.
    pub fn set_count(&mut self, prev: &str, next: &str, count: u32)
        requires
            old(self).wf(),
        ensures
            final(self).wf(),
            forall|q: Seq<char>, m: Seq<char>| #[trigger] final(self).count(q, m) == (if q == lower_seq(prev@)
                && m == lower_seq(next@) {
                count as nat
            } else {
                old(self).count(q, m)
            }),
    {
        let p = ascii_lowercase(prev);
        let n = ascii_lowercase(next);
        self.put(p, n, count);
    }

    /// A correction replaced `rejected` by `chosen` right after `prev`: when
    /// `rejected` has been counted after `prev`, move one count from it to
    /// `chosen` (case-insensitively); otherwise nothing changes.
    pub fn repoint(&mut self, prev: &str, rejected: &str, chosen: &str)
        requires
            old(self).wf(),
        ensures
            final(self).wf(),
            forall|q: Seq<char>, m: Seq<char>| #[trigger] final(self).count(q, m) == (if old(self).count(
                lower_seq(prev@),
                lower_seq(rejected@),
            ) == 0 {
                old(self).count(q, m)
            } else {
                let dec: nat = if q == lower_seq(prev@) && m == lower_seq(rejected@) {
                    (old(self).count(q, m) - 1) as nat
                } else {
                    old(self).count(q, m)
                };
                if q == lower_seq(prev@) && m == lower_seq(chosen@) {
                    sat_inc(dec)
                } else {
                    dec
                }
            }),
    {
        let p = ascii_lowercase(prev);
        let r = ascii_lowercase(rejected);
        let c = self.get(&p, &r);
        if c == 0 {
            return;
        }
        self.put(p, r, c - 1);
        self.record(prev, chosen);
    }

    /// The entries, as `(previous, next, count)`, for saving the model.
    pub fn entries(&self) -> (r: &Vec<(String, String, u32)>)
        ensures
            forall|q: Seq<char>, m: Seq<char>| #[trigger] self.count(q, m) == pair_count(pairs_view(r@), q, m),
    {
        &self.entries
    }

    /// Whether `w` is among `out`.
    fn listed(out: &Vec<String>, w: &String) -> (r: bool)
        ensures
            r == strings_view(out@).contains(w@),
    {
        let mut i: usize = 0;
        while i < out.len()
            invariant
                i <= out@.len(),
                forall|k: int| 0 <= k < i ==> out@[k]@ != w@,
            decreases out@.len() - i,
        {
            if out[i] == *w {
                proof {
                    assert(strings_view(out@)[i as int] == w@);
                }
                return true;
            }
            i = i + 1;
        }
        proof {
            if strings_view(out@).contains(w@) {
                let k = choose|k: int| 0 <= k < strings_view(out@).len() && strings_view(out@)[k] == w@;
                assert(out@[k]@ == w@);
            }
        }
        false
    }

    /// Up to `max` words most likely to follow `prev` (case-insensitively),
    /// best first: by how often they followed it, ties in word order. A word
    /// left out ranks below every word shown, and is only left out when `max`
    /// words are shown.
    pub fn predict(&self, prev: &str, max: usize) -> (r: Vec<String>)
        requires
            self.wf(),
        ensures
            r@.len() <= max,
            forall|i: int| 0 <= i < r@.len() ==> self.count(lower_seq(prev@), #[trigger] r@[i]@) > 0,
            forall|i: int, j: int|
                0 <= i < j < r@.len() ==> self.ranks(lower_seq(prev@), #[trigger] r@[i]@, #[trigger] r@[j]@),
            forall|w: Seq<char>|
                self.count(lower_seq(prev@), w) > 0 && !strings_view(r@).contains(w) ==> r@.len() == max
                    && forall|i: int| 0 <= i < r@.len() ==> self.ranks(lower_seq(prev@), #[trigger] r@[i]@, w),
    {
        let p = ascii_lowercase(prev);
        let ghost es = pairs_view(self.entries@);
        let ghost pv = p@;
        let mut out: Vec<String> = Vec::new();
        let mut done = false;
        while !done && out.len() < max
            invariant
                es == pairs_view(self.entries@),
                pairs_unique(es),
                pv == p@,
                out@.len() <= max,
                forall|i: int| 0 <= i < out@.len() ==> pair_count(es, pv, #[trigger] out@[i]@) > 0,
                forall|i: int, j: int|
                    0 <= i < j < out@.len() ==> ranks_before(es, pv, #[trigger] out@[i]@, #[trigger] out@[j]@),
                forall|w: Seq<char>|
                    pair_count(es, pv, w) > 0 && !strings_view(out@).contains(w) ==> forall|i: int|
                        0 <= i < out@.len() ==> ranks_before(es, pv, #[trigger] out@[i]@, w),
                done ==> forall|w: Seq<char>| pair_count(es, pv, w) > 0 ==> strings_view(out@).contains(w),
            decreases (max - out@.len()) * 2 + (if done { 0int } else { 1int }),
        {
            // The best successor not yet listed.
            let mut best: Option<usize> = None;
            let mut i: usize = 0;
            while i < self.entries.len()
                invariant
                    i <= self.entries@.len(),
                    es == pairs_view(self.entries@),
                    pairs_unique(es),
                    pv == p@,
                    match best {
                        Some(b) => b < i && es[b as int].0 == pv && es[b as int].2 > 0
                            && !strings_view(out@).contains(es[b as int].1)
                            && forall|k: int|
                                0 <= k < i && (#[trigger] es[k]).0 == pv && es[k].2 > 0
                                    && !strings_view(out@).contains(es[k].1) ==> !ranks_before(es, pv, es[k].1, es[b as int].1),
                        None => forall|k: int|
                            0 <= k < i ==> !((#[trigger] es[k]).0 == pv && es[k].2 > 0 && !strings_view(out@).contains(es[k].1)),
                    },
                decreases self.entries@.len() - i,
            {
                proof {
                    assert(es[i as int] == (self.entries@[i as int].0@, self.entries@[i as int].1@, self.entries@[i as int].2));
                }
                if self.entries[i].0 == p && self.entries[i].2 > 0 && !Self::listed(&out, &self.entries[i].1) {
                    match best {
                        None => {
                            proof {
                                lemma_ranks_before_order(es, pv, es[i as int].1, es[i as int].1, es[i as int].1);
                            }
                            best = Some(i);
                        },
                        Some(b) => {
                            proof {
                                assert(es[b as int] == (self.entries@[b as int].0@, self.entries@[b as int].1@, self.entries@[b as int].2));
                                lemma_pair_count_at(es, i as int);
                                lemma_pair_count_at(es, b as int);
                            }
                            let ci = self.entries[i].2;
                            let cb = self.entries[b].2;
                            if ci > cb || (ci == cb && word_less(&self.entries[i].1, &self.entries[b].1)) {
                                proof {
                                    assert(ranks_before(es, pv, es[i as int].1, es[b as int].1));
                                    assert forall|k: int|
                                        0 <= k < i + 1 && (#[trigger] es[k]).0 == pv && es[k].2 > 0
                                            && !strings_view(out@).contains(es[k].1) implies !ranks_before(es, pv, es[k].1, es[i as int].1) by {
                                        lemma_ranks_before_order(es, pv, es[k].1, es[i as int].1, es[b as int].1);
                                    }
                                }
                                best = Some(i);
                            } else {
                                proof {
                                    assert(!ranks_before(es, pv, es[i as int].1, es[b as int].1));
                                }
                            }
                        },
                    }
                }
                i = i + 1;
            }
            match best {
                None => {
                    proof {
                        assert forall|w: Seq<char>| pair_count(es, pv, w) > 0 implies strings_view(out@).contains(w) by {
                            let k = lemma_pair_count_entry(es, pv, w);
                        }
                    }
                    done = true;
                },
                Some(b) => {
                    let ghost wb = es[b as int].1;
                    proof {
                        assert(es[b as int] == (self.entries@[b as int].0@, self.entries@[b as int].1@, self.entries@[b as int].2));
                        lemma_pair_count_at(es, b as int);
                    }
                    let w = self.entries[b].1.clone();
                    proof {
                        assert(w@ == wb);
                        // Every other unlisted successor ranks below `wb`.
                        assert forall|v: Seq<char>|
                            pair_count(es, pv, v) > 0 && !strings_view(out@).contains(v) && v != wb implies ranks_before(es, pv, wb, v) by {
                            let k = lemma_pair_count_entry(es, pv, v);
                            lemma_pair_count_at(es, k);
                            lemma_ranks_before_order(es, pv, v, wb, wb);
                        }
                    }
                    let ghost old_out = out@;
                    out.push(w);
                    proof {
                        assert(strings_view(out@) =~= strings_view(old_out).push(wb));
                        assert forall|i: int, j: int|
                            0 <= i < j < out@.len() implies ranks_before(es, pv, #[trigger] out@[i]@, #[trigger] out@[j]@) by {
                            if j == old_out.len() {
                                assert(out@[j]@ == wb);
                                assert(out@[i] == old_out[i]);
                            } else {
                                assert(out@[i] == old_out[i]);
                                assert(out@[j] == old_out[j]);
                            }
                        }
                        assert forall|v: Seq<char>|
                            pair_count(es, pv, v) > 0 && !strings_view(out@).contains(v) implies forall|i: int|
                                0 <= i < out@.len() ==> ranks_before(es, pv, #[trigger] out@[i]@, v) by {
                            assert(strings_view(out@)[old_out.len() as int] == wb);
                            assert(v != wb);
                            assert(!strings_view(old_out).contains(v)) by {
                                if strings_view(old_out).contains(v) {
                                    let k = choose|k: int| 0 <= k < strings_view(old_out).len() && strings_view(old_out)[k] == v;
                                    assert(strings_view(out@)[k] == v);
                                }
                            }
                            assert forall|i: int| 0 <= i < out@.len() implies ranks_before(es, pv, #[trigger] out@[i]@, v) by {
                                if i < old_out.len() {
                                    assert(out@[i] == old_out[i]);
                                }
                            }
                        }
                    }
                },
            }
        }
        out
    }
}

// ---------------------------------------------------------------------------
// The personal dictionary.
// ---------------------------------------------------------------------------

/// Tapped-out words the dictionary lacks, with how often each was typed. A
/// word joins the live vocabulary once typed `PERSONAL_THRESHOLD` times, so a
/// one-off typo never becomes a word. The counts are kept in a pair table
/// under the empty context.
pub struct PersonalWords {
    table: NextWords,
}

impl PersonalWords {
    /// How often `w` was typed.
    pub closed spec fn count(&self, w: Seq<char>) -> nat {
        self.table.count(Seq::empty(), w)
    }

    pub closed spec fn wf(&self) -> bool {
        self.table.wf()
    }

    /// No words yet.
    pub fn new() -> (p: Self)
        ensures
            p.wf(),
            forall|w: Seq<char>| p.count(w) == 0,
    {
        PersonalWords { table: NextWords::new() }
    }

    /// Count one more use of `word` (case-insensitively), and tell whether it
    /// has now been typed often enough to join the vocabulary.
    pub fn note(&mut self, word: &str) -> (r: bool)
        requires
            old(self).wf(),
        ensures
            final(self).wf(),
            forall|w: Seq<char>| #[trigger] final(self).count(w) == (if w == lower_seq(word@) {
                sat_inc(old(self).count(w))
            } else {
                old(self).count(w)
            }),
            r == (final(self).count(lower_seq(word@)) >= PERSONAL_THRESHOLD),
    {
        proof {
            assert(lower_seq(""@) =~= Seq::<char>::empty()) by {
                reveal_strlit("");
            }
        }
        self.table.record("", word);
        let key = ascii_lowercase(word);
        let empty = String::new();
        let c = self.table.get(&empty, &key);
        c >= PERSONAL_THRESHOLD
    }

    /// Set how often `word` was typed (case-insensitively), as when loading
    /// the saved dictionary.
    pub fn set_count(&mut self, word: &str, count: u32)
        requires
            old(self).wf(),
        ensures
            final(self).wf(),
            forall|w: Seq<char>| #[trigger] final(self).count(w) == (if w == lower_seq(word@) {
                count as nat
            } else {
                old(self).count(w)
            }),
    {
        proof {
            assert(lower_seq(""@) =~= Seq::<char>::empty()) by {
                reveal_strlit("");
            }
        }
        self.table.set_count("", word, count);
    }

    /// The words typed often enough to join the vocabulary.
    pub fn promoted(&self) -> (r: Vec<String>)
        requires
            self.wf(),
        ensures
            forall|i: int| 0 <= i < r@.len() ==> self.count(#[trigger] r@[i]@) >= PERSONAL_THRESHOLD,
            forall|w: Seq<char>| self.count(w) >= PERSONAL_THRESHOLD ==> strings_view(r@).contains(w),
    {
        let es = &self.table.entries;
        let ghost ev = pairs_view(es@);
        let mut out: Vec<String> = Vec::new();
        let mut i: usize = 0;
        while i < es.len()
            invariant
                i <= es@.len(),
                ev == pairs_view(es@),
                pairs_unique(ev),
                forall|k: int| 0 <= k < out@.len() ==> pair_count(ev, Seq::empty(), #[trigger] out@[k]@) >= PERSONAL_THRESHOLD,
                forall|k: int|
                    0 <= k < i && (#[trigger] ev[k]).0 == Seq::<char>::empty() && ev[k].2 >= PERSONAL_THRESHOLD
                        ==> strings_view(out@).contains(ev[k].1),
            decreases es@.len() - i,
        {
            proof {
                assert(ev[i as int] == (es@[i as int].0@, es@[i as int].1@, es@[i as int].2));
            }
            if es[i].0.as_str().is_empty() && es[i].2 >= PERSONAL_THRESHOLD {
                proof {
                    assert(ev[i as int].0 =~= Seq::<char>::empty());
                    lemma_pair_count_at(ev, i as int);
                }
                let ghost old_out = out@;
                out.push(es[i].1.clone());
                proof {
                    assert(strings_view(out@) =~= strings_view(old_out).push(ev[i as int].1));
                    assert(strings_view(out@)[old_out.len() as int] == ev[i as int].1);
                    assert forall|k: int|
                        0 <= k < i + 1 && (#[trigger] ev[k]).0 == Seq::<char>::empty() && ev[k].2 >= PERSONAL_THRESHOLD
                            implies strings_view(out@).contains(ev[k].1) by {
                        if k < i {
                            let j = choose|j: int| 0 <= j < strings_view(old_out).len() && strings_view(old_out)[j] == ev[k].1;
                            assert(strings_view(out@)[j] == ev[k].1);
                        }
                    }
                    assert forall|k: int| 0 <= k < out@.len() implies pair_count(ev, Seq::empty(), #[trigger] out@[k]@) >= PERSONAL_THRESHOLD by {
                        if k < old_out.len() {
                            assert(out@[k] == old_out[k]);
                        }
                    }
                }
            } else {
                proof {
                    if ev[i as int].0 == Seq::<char>::empty() {
                        assert(es@[i as int].0@.len() == 0);
                    }
                }
            }
            i = i + 1;
        }
        proof {
            assert forall|w: Seq<char>| self.count(w) >= PERSONAL_THRESHOLD implies strings_view(out@).contains(w) by {
                let k = lemma_pair_count_entry(ev, Seq::empty(), w);
            }
        }
        out
    }

    /// The entries, as `(_, word, count)` under the empty context, for saving.
    pub fn entries(&self) -> (r: &Vec<(String, String, u32)>)
        ensures
            forall|w: Seq<char>| #[trigger] self.count(w) == pair_count(pairs_view(r@), Seq::empty(), w),
    {
        self.table.entries()
    }
}

} // verus!
