//! Proper-noun correction: replaces vocabulary terms in transcripts,
//! ignoring case.

use vstd::prelude::*;
use vstd::string::StringExecFns;
use crate::text::{
    chars_of, chars_eq, extend_chars, find, find_chars, lemma_find_from, lowercase, occurs_at, string_of, to_lowercase,
};

verus! {

broadcast use vstd::string::group_string_axioms;

/// A vocabulary entry: the lower-cased term and its replacement.
pub type Term = (Seq<char>, Seq<char>);

/// The length in UTF-8 bytes of an entry's term, as `str::len` reports
/// it; the terms are ordered by it.
pub open spec fn term_bytes(e: Term) -> usize {
    vstd::utf8::encode_utf8(e.0).len() as usize
}

/// `e` inserted into `s`, which is ordered by decreasing term length, after
/// every entry whose term is at least as long.
pub open spec fn insert_by_length(s: Seq<Term>, e: Term) -> Seq<Term>
    decreases s.len(),
{
    if s.len() == 0 {
        seq![e]
    } else if term_bytes(s.last()) >= term_bytes(e) {
        s.push(e)
    } else {
        insert_by_length(s.drop_last(), e).push(s.last())
    }
}

/// The entries ordered by decreasing term length; entries of equal length
/// keep their order.
pub open spec fn by_length(s: Seq<Term>) -> Seq<Term>
    decreases s.len(),
{
    if s.len() == 0 {
        s
    } else {
        insert_by_length(by_length(s.drop_last()), s.last())
    }
}

/// One replacement step: the first occurrence of `term` in the lower-cased
/// text, replaced by `rep` at the same character positions of the text.
pub open spec fn replace_first(text: Seq<char>, term: Seq<char>, rep: Seq<char>) -> Seq<char> {
    match find(lowercase(text), term) {
        Some(p) => if 0 <= p && p + term.len() <= text.len() {
            text.take(p) + rep + text.skip(p + term.len())
        } else {
            text
        },
        None => text,
    }
}

/// One replacement step replaces the first place where the term occurs in
/// the lower-cased text, wherever that place stands (at the start, after a
/// space, inside a word, in a text without spaces): the text before it and
/// after it stays as it was.
pub proof fn lemma_replace_first_at(text: Seq<char>, term: Seq<char>, rep: Seq<char>, p: int)
    requires
        occurs_at(lowercase(text), term, p),
        forall|q: int| 0 <= q < p ==> !occurs_at(lowercase(text), term, q),
        p + term.len() <= text.len(),
    ensures
        replace_first(text, term, rep) == text.take(p) + rep + text.skip(p + term.len()),
{
    lemma_find_from(lowercase(text), term, 0);
}

/// A text in whose lower-cased form the term does not occur is left as it
/// is.
pub proof fn lemma_replace_first_absent(text: Seq<char>, term: Seq<char>, rep: Seq<char>)
    requires
        forall|q: int| !occurs_at(lowercase(text), term, q),
    ensures
        replace_first(text, term, rep) == text,
{
    lemma_find_from(lowercase(text), term, 0);
}

/// A matcher holding one term replaces that term's first occurrence in
/// the lower-cased transcript, wherever it stands.
pub proof fn lemma_single_term_process(text: Seq<char>, term: Seq<char>, rep: Seq<char>, p: int)
    requires
        occurs_at(lowercase(text), term, p),
        forall|q: int| 0 <= q < p ==> !occurs_at(lowercase(text), term, q),
        p + term.len() <= text.len(),
    ensures
        replace_each(text, by_length(with_term(Seq::empty(), term, rep))) == text.take(p) + rep + text.skip(
            p + term.len(),
        ),
{
    let e: Term = (term, rep);
    assert(with_term(Seq::empty(), term, rep) =~= seq![e]);
    assert(seq![e].drop_last() =~= Seq::<Term>::empty());
    assert(by_length(Seq::<Term>::empty()) == Seq::<Term>::empty());
    assert(insert_by_length(Seq::<Term>::empty(), e) == seq![e]);
    assert(by_length(seq![e]) == insert_by_length(by_length(seq![e].drop_last()), e));
    assert(by_length(seq![e]) =~= seq![e]);
    assert(seq![e].drop_first() =~= Seq::<Term>::empty());
    lemma_replace_first_at(text, term, rep, p);
    let once = replace_first(text, term, rep);
    assert(replace_each(once, Seq::<Term>::empty()) == once);
    assert(replace_each(text, seq![e]) == replace_each(once, seq![e].drop_first()));
}

/// The text after one replacement step per entry, in the given order.
pub open spec fn replace_each(text: Seq<char>, order: Seq<Term>) -> Seq<char>
    decreases order.len(),
{
    if order.len() == 0 {
        text
    } else {
        replace_each(replace_first(text, order[0].0, order[0].1), order.drop_first())
    }
}

/// The entries with their terms lower-cased by `add`: `term` gets `rep`,
/// in the place of an existing entry for the same term, or at the end.
pub open spec fn with_term(s: Seq<Term>, term: Seq<char>, rep: Seq<char>) -> Seq<Term> {
    if exists|i: int| 0 <= i < s.len() && #[trigger] s[i].0 == term {
        let i = choose|i: int| 0 <= i < s.len() && #[trigger] s[i].0 == term;
        s.update(i, (term, rep))
    } else {
        s.push((term, rep))
    }
}

/// No term occurs twice.
pub open spec fn distinct_terms(s: Seq<Term>) -> bool {
    forall|i: int, j: int| 0 <= i < s.len() && 0 <= j < s.len() && i != j ==> s[i].0 != s[j].0
}

/// The replacement held for a (lower-cased) term, if any.
pub open spec fn replacement_of(s: Seq<Term>, term: Seq<char>) -> Option<Seq<char>> {
    if exists|i: int| 0 <= i < s.len() && #[trigger] s[i].0 == term {
        let i = choose|i: int| 0 <= i < s.len() && #[trigger] s[i].0 == term;
        Some(s[i].1)
    } else {
        None
    }
}

/// Adding a term sets its replacement, as a map insert does: the term
/// then has the new replacement, every other term keeps its own, and no
/// term occurs twice.
pub proof fn lemma_with_term_replacement(s: Seq<Term>, term: Seq<char>, rep: Seq<char>, other: Seq<char>)
    requires
        distinct_terms(s),
    ensures
        replacement_of(with_term(s, term, rep), term) == Some(rep),
        other != term ==> replacement_of(with_term(s, term, rep), other) == replacement_of(s, other),
        distinct_terms(with_term(s, term, rep)),
{
    let r = with_term(s, term, rep);
    if exists|i: int| 0 <= i < s.len() && #[trigger] s[i].0 == term {
        let i = choose|i: int| 0 <= i < s.len() && #[trigger] s[i].0 == term;
        assert(r == s.update(i, (term, rep)));
        assert(r[i].0 == term);
        let k = choose|k: int| 0 <= k < r.len() && #[trigger] r[k].0 == term;
        assert(k == i);
        if other != term {
            if exists|j: int| 0 <= j < s.len() && #[trigger] s[j].0 == other {
                let j = choose|j: int| 0 <= j < s.len() && #[trigger] s[j].0 == other;
                assert(r[j].0 == other);
                let m = choose|m: int| 0 <= m < r.len() && #[trigger] r[m].0 == other;
                assert(m == j);
            } else {
                assert forall|m: int| 0 <= m < r.len() implies #[trigger] r[m].0 != other by {
                    if m != i {
                        assert(r[m] == s[m]);
                    }
                }
            }
        }
    } else {
        assert(r == s.push((term, rep)));
        assert(r[s.len() as int].0 == term);
        let k = choose|k: int| 0 <= k < r.len() && #[trigger] r[k].0 == term;
        if k < s.len() {
            assert(r[k] == s[k]);
        }
        if other != term {
            if exists|j: int| 0 <= j < s.len() && #[trigger] s[j].0 == other {
                let j = choose|j: int| 0 <= j < s.len() && #[trigger] s[j].0 == other;
                assert(r[j] == s[j]);
                let m = choose|m: int| 0 <= m < r.len() && #[trigger] r[m].0 == other;
                if m < s.len() {
                    assert(r[m] == s[m]);
                }
                assert(m == j);
            } else {
                assert forall|m: int| 0 <= m < r.len() implies #[trigger] r[m].0 != other by {
                    if m < s.len() {
                        assert(r[m] == s[m]);
                    }
                }
            }
        }
    }
}

/// Replaces vocabulary terms in transcripts, ignoring case.  Longer terms
/// are applied first; each term replaces its first occurrence.
pub struct ProperNounMatcher {
    replacements: Vec<(String, String)>,
}

impl View for ProperNounMatcher {
    type V = Seq<Term>;

    closed spec fn view(&self) -> Seq<Term> {
        self.replacements@.map_values(|e: (String, String)| (e.0@, e.1@))
    }
}

impl ProperNounMatcher {
    /// The entries have distinct terms.
    pub closed spec fn wf(&self) -> bool {
        distinct_terms(self@)
    }

    pub fn new() -> (m: Self)
        ensures
            m@ == Seq::<Term>::empty(),
            m.wf(),
    {
        let m = ProperNounMatcher { replacements: Vec::new() };
        assert(m@ =~= Seq::<Term>::empty());
        m
    }

    /// Adds (or replaces) the replacement for a term; the term is
    /// lower-cased.
    pub fn add_term(&mut self, original: &str, replacement: &str)
        requires
            old(self).wf(),
        ensures
            final(self).wf(),
            final(self)@ == with_term(old(self)@, lowercase(original@), replacement@),
    {
        let key = to_lowercase(original);
        let kc = chars_of(key.as_str());
        let ghost s = self@;
        assert(s == old(self)@);
        let mut i: usize = 0;
        while i < self.replacements.len()
            invariant
                i <= self.replacements.len(),
                s == self@,
                s == old(self)@,
                kc@ == key@,
                key@ == lowercase(original@),
                distinct_terms(s),
                forall|k: int| 0 <= k < i ==> s[k].0 != key@,
            decreases self.replacements.len() - i,
        {
            let have = chars_of(self.replacements[i].0.as_str());
            assert(s[i as int].0 == self.replacements@[i as int].0@);
            if chars_eq(&have, &kc) {
                proof {
                    assert(s[i as int].0 == key@);
                    assert(exists|j: int| 0 <= j < s.len() && #[trigger] s[j].0 == key@);
                    let j = choose|j: int| 0 <= j < s.len() && #[trigger] s[j].0 == key@;
                    assert(j == i as int);
                    assert(with_term(s, key@, replacement@) == s.update(i as int, (key@, replacement@)));
                }
                self.replacements.set(i, (key, String::from_str(replacement)));
                assert(self@ =~= s.update(i as int, (lowercase(original@), replacement@)));
                return;
            }
            i += 1;
        }
        self.replacements.push((key, String::from_str(replacement)));
        assert(self@ =~= s.push((lowercase(original@), replacement@)));
    }

    /// Adds each `(term, replacement)` pair in turn.
    pub fn load_vocabulary(&mut self, terms: Vec<(String, String)>)
        requires
            old(self).wf(),
        ensures
            final(self).wf(),
            final(self)@ == with_terms(old(self)@, terms@.map_values(|e: (String, String)| (e.0@, e.1@))),
    {
        let ghost all = terms@.map_values(|e: (String, String)| (e.0@, e.1@));
        let ghost start = self@;
        let mut i: usize = 0;
        while i < terms.len()
            invariant
                i <= terms.len(),
                all == terms@.map_values(|e: (String, String)| (e.0@, e.1@)),
                self.wf(),
                self@ == with_terms(start, all.take(i as int)),
            decreases terms.len() - i,
        {
            assert(all.take(i + 1).drop_last() =~= all.take(i as int));
            self.add_term(terms[i].0.as_str(), terms[i].1.as_str());
            i += 1;
        }
        assert(all.take(terms.len() as int) =~= all);
    }

    /// Replaces the first occurrence of each term, longest terms first.
    pub fn process(&self, text: &str) -> (r: String)
        ensures
            r@ == replace_each(text@, by_length(self@)),
    {
        let order = self.order_by_length();
        let mut result = String::from_str(text);
        let mut k: usize = 0;
        assert(by_length(self@).skip(0) =~= by_length(self@));
        while k < order.len()
            invariant
                k <= order.len(),
                forall|j: int| 0 <= j < order.len() ==> 0 <= #[trigger] order@[j] < self@.len(),
                order@.map_values(|j: usize| self@[j as int]) == by_length(self@),
                replace_each(result@, by_length(self@).skip(k as int)) == replace_each(text@, by_length(self@)),
            decreases order.len() - k,
        {
            let ghost ord = by_length(self@);
            assert(ord.skip(k as int).drop_first() =~= ord.skip(k + 1));
            assert(ord.skip(k as int)[0] == self@[order@[k as int] as int]);
            let entry = &self.replacements[order[k]];
            assert(self@[order@[k as int] as int] == (entry.0@, entry.1@));
            result = replace_first_exec(&result, entry.0.as_str(), entry.1.as_str());
            k += 1;
        }
        assert(by_length(self@).skip(order.len() as int) =~= Seq::<Term>::empty());
        result
    }

    /// The indices of the entries, ordered by decreasing term length.
    fn order_by_length(&self) -> (order: Vec<usize>)
        ensures
            forall|j: int| 0 <= j < order.len() ==> 0 <= #[trigger] order@[j] < self@.len(),
            order@.map_values(|j: usize| self@[j as int]) == by_length(self@),
    {
        let ghost s = self@;
        let mut order: Vec<usize> = Vec::new();
        let mut lens: Vec<usize> = Vec::new();
        let mut i: usize = 0;
        assert(order@.map_values(|j: usize| s[j as int]) =~= by_length(s.take(0)));
        while i < self.replacements.len()
            invariant
                i <= self.replacements.len(),
                s == self@,
                order.len() == lens.len() == i,
                forall|j: int| 0 <= j < order.len() ==> 0 <= #[trigger] order@[j] < i,
                forall|j: int| 0 <= j < order.len() ==> #[trigger] lens@[j] == term_bytes(s[order@[j] as int]),
                self.replacements@.len() == s.len(),
                order@.map_values(|j: usize| s[j as int]) == by_length(s.take(i as int)),
            decreases self.replacements.len() - i,
        {
            let ghost sorted = order@.map_values(|j: usize| s[j as int]);
            let len_i = self.replacements[i].0.as_str().len();
            assert(self.replacements@[i as int].0@ == s[i as int].0);
            assert(len_i == term_bytes(s[i as int]));
            let mut p = order.len();
            while p > 0 && lens[p - 1] < len_i
                invariant
                    p <= order.len() == lens.len(),
                    forall|j: int| p <= j < order.len() ==> #[trigger] lens@[j] < len_i,
                decreases p,
            {
                p -= 1;
            }
            proof {
                assert forall|j: int| p <= j < sorted.len() implies term_bytes(#[trigger] sorted[j])
                    < term_bytes(s[i as int]) by {
                    assert(lens@[j] < len_i);
                }
                if p > 0 {
                    assert(term_bytes(sorted[p - 1]) >= term_bytes(s[i as int])) by {
                        assert(lens@[p - 1] >= len_i);
                    }
                }
                lemma_insert_at(sorted, s[i as int], p as int);
                assert(s.take(i + 1).drop_last() =~= s.take(i as int));
            }
            let ghost lens0 = lens@;
            let ghost order0 = order@;
            order.insert(p, i);
            lens.insert(p, len_i);
            proof {
                assert(order@.map_values(|j: usize| s[j as int]) =~= sorted.insert(p as int, s[i as int]));
                assert forall|j: int| 0 <= j < order.len() implies #[trigger] lens@[j] == term_bytes(
                    s[order@[j] as int]) && order@[j] < i + 1 by {
                    if j < p {
                        assert(lens@[j] == lens0[j] && order@[j] == order0[j]);
                    } else if j == p {
                    } else {
                        assert(lens@[j] == lens0[j - 1] && order@[j] == order0[j - 1]);
                    }
                }
            }
            i += 1;
        }
        assert(s.take(i as int) =~= s);
        order
    }
}

/// Inserting at the position after the last entry that is at least as long
/// is `insert_by_length`.
pub proof fn lemma_insert_at(sorted: Seq<Term>, e: Term, p: int)
    requires
        0 <= p <= sorted.len(),
        forall|j: int| p <= j < sorted.len() ==> term_bytes(#[trigger] sorted[j]) < term_bytes(e),
        p > 0 ==> term_bytes(sorted[p - 1]) >= term_bytes(e),
    ensures
        insert_by_length(sorted, e) == sorted.insert(p, e),
    decreases sorted.len(),
{
    if sorted.len() == 0 {
        assert(sorted.insert(p, e) =~= seq![e]);
    } else if p == sorted.len() {
        assert(sorted.insert(p, e) =~= sorted.push(e));
    } else {
        assert(term_bytes(sorted.last()) < term_bytes(e));
        let d = sorted.drop_last();
        assert forall|j: int| p <= j < d.len() implies term_bytes(#[trigger] d[j]) < term_bytes(e) by {
            assert(d[j] == sorted[j]);
        }
        lemma_insert_at(d, e, p);
        assert(d.insert(p, e).push(sorted.last()) =~= sorted.insert(p, e));
    }
}

/// Entries ordered by non-increasing term length.
pub open spec fn longest_first(s: Seq<Term>) -> bool {
    forall|i: int, j: int| 0 <= i < j < s.len() ==> term_bytes(#[trigger] s[i]) >= term_bytes(#[trigger] s[j])
}

proof fn lemma_insert_bound(t: Seq<Term>, e: Term, b: usize)
    requires
        forall|k: int| 0 <= k < t.len() ==> term_bytes(#[trigger] t[k]) >= b,
        term_bytes(e) >= b,
    ensures
        insert_by_length(t, e).len() == t.len() + 1,
        forall|k: int|
            0 <= k < insert_by_length(t, e).len() ==> term_bytes(#[trigger] insert_by_length(t, e)[k]) >= b,
    decreases t.len(),
{
    if t.len() > 0 && term_bytes(t.last()) < term_bytes(e) {
        let d = t.drop_last();
        assert forall|k: int| 0 <= k < d.len() implies term_bytes(#[trigger] d[k]) >= b by {
            assert(d[k] == t[k]);
        }
        lemma_insert_bound(d, e, b);
        let r = insert_by_length(t, e);
        assert(r == insert_by_length(d, e).push(t.last()));
        assert forall|k: int| 0 <= k < r.len() implies term_bytes(#[trigger] r[k]) >= b by {
            if k < r.len() - 1 {
                assert(r[k] == insert_by_length(d, e)[k]);
            }
        }
    } else if t.len() > 0 {
        let r = insert_by_length(t, e);
        assert forall|k: int| 0 <= k < r.len() implies term_bytes(#[trigger] r[k]) >= b by {
            if k < t.len() {
                assert(r[k] == t[k]);
            }
        }
    }
}

proof fn lemma_insert_sorted(t: Seq<Term>, e: Term)
    requires
        longest_first(t),
    ensures
        longest_first(insert_by_length(t, e)),
        insert_by_length(t, e).to_multiset() == t.to_multiset().insert(e),
    decreases t.len(),
{
    broadcast use vstd::seq_lib::group_to_multiset_ensures;

    let r = insert_by_length(t, e);
    if t.len() == 0 {
        assert(r == seq![e]);
        assert(seq![e] =~= Seq::<Term>::empty().push(e));
    } else if term_bytes(t.last()) >= term_bytes(e) {
        assert(r == t.push(e));
        assert forall|i: int, j: int| 0 <= i < j < r.len() implies term_bytes(#[trigger] r[i]) >= term_bytes(
            #[trigger] r[j],
        ) by {
            if j == r.len() - 1 && i < t.len() - 1 {
                assert(term_bytes(t[i]) >= term_bytes(t[t.len() - 1]));
            }
        }
    } else {
        let d = t.drop_last();
        assert forall|i: int, j: int| 0 <= i < j < d.len() implies term_bytes(#[trigger] d[i]) >= term_bytes(
            #[trigger] d[j],
        ) by {
            assert(d[i] == t[i] && d[j] == t[j]);
        }
        lemma_insert_sorted(d, e);
        let b = term_bytes(t.last());
        assert forall|k: int| 0 <= k < d.len() implies term_bytes(#[trigger] d[k]) >= b by {
            assert(d[k] == t[k]);
        }
        lemma_insert_bound(d, e, b);
        let ri = insert_by_length(d, e);
        assert(r == ri.push(t.last()));
        assert forall|i: int, j: int| 0 <= i < j < r.len() implies term_bytes(#[trigger] r[i]) >= term_bytes(
            #[trigger] r[j],
        ) by {
            if j < r.len() - 1 {
                assert(r[i] == ri[i] && r[j] == ri[j]);
            } else {
                assert(r[i] == ri[i]);
            }
        }
        assert(t =~= d.push(t.last()));
        assert(r.to_multiset() =~= t.to_multiset().insert(e));
    }
}

/// The order in which terms are applied: every entry exactly once, the
/// longest terms (in UTF-8 bytes) first.
pub proof fn lemma_by_length_order(s: Seq<Term>)
    ensures
        longest_first(by_length(s)),
        by_length(s).to_multiset() == s.to_multiset(),
    decreases s.len(),
{
    broadcast use vstd::seq_lib::group_to_multiset_ensures;

    if s.len() > 0 {
        lemma_by_length_order(s.drop_last());
        lemma_insert_sorted(by_length(s.drop_last()), s.last());
        assert(s =~= s.drop_last().push(s.last()));
    } else {
        assert(s.to_multiset() =~= by_length(s).to_multiset());
    }
}

/// Adds each entry in turn, as `add_term` does.
pub open spec fn with_terms(s: Seq<Term>, terms: Seq<Term>) -> Seq<Term>
    decreases terms.len(),
{
    if terms.len() == 0 {
        s
    } else {
        with_term(with_terms(s, terms.drop_last()), lowercase(terms.last().0), terms.last().1)
    }
}

/// One replacement step on a string.
fn replace_first_exec(text: &String, term: &str, rep: &str) -> (r: String)
    ensures
        r@ == replace_first(text@, term@, rep@),
{
    let lower = to_lowercase(text.as_str());
    let lc = chars_of(lower.as_str());
    let tc = chars_of(term);
    match find_chars(&lc, &tc) {
        Some(p) => {
            let t = chars_of(text.as_str());
            if p <= t.len() && tc.len() <= t.len() - p {
                let mut out: Vec<char> = Vec::new();
                let mut k: usize = 0;
                while k < p
                    invariant
                        k <= p <= t.len(),
                        out@ == t@.take(k as int),
                    decreases p - k,
                {
                    out.push(t[k]);
                    k += 1;
                    assert(out@ =~= t@.take(k as int));
                }
                let rc = chars_of(rep);
                extend_chars(&mut out, &rc);
                let mut k = p + tc.len();
                let ghost base = out@;
                while k < t.len()
                    invariant
                        p + tc.len() <= k <= t.len(),
                        out@ == base + t@.subrange(p + tc.len(), k as int),
                    decreases t.len() - k,
                {
                    out.push(t[k]);
                    k += 1;
                    assert(out@ =~= base + t@.subrange(p + tc.len(), k as int));
                }
                assert(t@.subrange(p + tc.len(), t.len() as int) =~= t@.skip(p + tc@.len()));
                string_of(&out)
            } else {
                text.clone()
            }
        },
        None => text.clone(),
    }
}

} // verus!
