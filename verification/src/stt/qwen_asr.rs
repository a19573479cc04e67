//! Token decoding for the Qwen3-ASR model.

use vstd::prelude::*;
use vstd::string::StringExecFns;
use crate::error::SttError;
use crate::stt::{lookup_token, token_at, vocab_view};
use crate::text::{
    chars_eq, chars_of, ends_with, extend_chars, has_prefix, has_suffix, lemma_replace_char, lemma_trim_piece, replace_all,
    replace_chars, starts_with, string_of, trim, trim_chars,
};

verus! {

/// The SentencePiece word-boundary mark.
pub open spec fn word_mark() -> char {
    '\u{2581}'
}

/// Whether a vocabulary entry is text (and not a special or empty token).
pub open spec fn is_text_token(t: Seq<char>) -> bool {
    &&& t.len() > 0
    &&& !(has_prefix(t, seq!['<', '|']) && has_suffix(t, seq!['|', '>']))
    &&& t != seq!['<', 'u', 'n', 'k', '>']
    &&& t != seq!['<', 'p', 'a', 'd', '>']
    &&& t != seq!['<', 's', '>']
    &&& t != seq!['<', '/', 's', '>']
}

/// The text tokens of `ids`, concatenated.
pub open spec fn joined_text(ids: Seq<i64>, vocab: Seq<Seq<char>>) -> Seq<char>
    decreases ids.len(),
{
    if ids.len() == 0 {
        Seq::empty()
    } else {
        let prev = joined_text(ids.drop_last(), vocab);
        match token_at(vocab, ids.last()) {
            Some(t) => if is_text_token(t) {
                prev + t
            } else {
                prev
            },
            None => prev,
        }
    }
}

/// What `decode_tokens` returns: the text tokens joined, word marks turned
/// into spaces, and the result trimmed.
pub open spec fn decode_spec(ids: Seq<i64>, vocab: Seq<Seq<char>>) -> Seq<char> {
    trim(replace_all(joined_text(ids, vocab), seq![word_mark()], seq![' ']))
}

/// Decoding turns every word mark of the joined text tokens into a space
/// (and only those characters change) before trimming; so the decoded
/// text holds no word mark at all.
pub proof fn lemma_decode_marks_to_spaces(ids: Seq<i64>, vocab: Seq<Seq<char>>)
    ensures
        decode_spec(ids, vocab) == trim(
            joined_text(ids, vocab).map_values(|c: char| if c == word_mark() { ' ' } else { c }),
        ),
        forall|i: int| 0 <= i < decode_spec(ids, vocab).len() ==> decode_spec(ids, vocab)[i] != word_mark(),
{
    let j = joined_text(ids, vocab);
    let m = j.map_values(|c: char| if c == word_mark() { ' ' } else { c });
    lemma_replace_char(j, word_mark(), ' ');
    lemma_trim_piece(m);
    let (a, b) = choose|a: int, b: int| 0 <= a <= b <= m.len() && trim(m) == m.subrange(a, b);
    assert forall|i: int| 0 <= i < decode_spec(ids, vocab).len() implies decode_spec(ids, vocab)[i] != word_mark() by {
        assert(decode_spec(ids, vocab)[i] == m[a + i]);
    }
}

fn is_text(t: &Vec<char>) -> (r: bool)
    ensures
        r == is_text_token(t@),
{
    if t.len() == 0 {
        return false;
    }
    let open: Vec<char> = vec!['<', '|'];
    let close: Vec<char> = vec!['|', '>'];
    if starts_with(t, &open) && ends_with(t, &close) {
        return false;
    }
    let unk: Vec<char> = vec!['<', 'u', 'n', 'k', '>'];
    let pad: Vec<char> = vec!['<', 'p', 'a', 'd', '>'];
    let bos: Vec<char> = vec!['<', 's', '>'];
    let eos: Vec<char> = vec!['<', '/', 's', '>'];
    assert(open@ =~= seq!['<', '|'] && close@ =~= seq!['|', '>']);
    assert(unk@ =~= seq!['<', 'u', 'n', 'k', '>'] && pad@ =~= seq!['<', 'p', 'a', 'd', '>']);
    assert(bos@ =~= seq!['<', 's', '>'] && eos@ =~= seq!['<', '/', 's', '>']);
    !(chars_eq(t, &unk) || chars_eq(t, &pad) || chars_eq(t, &bos) || chars_eq(t, &eos))
}

/// Token ids to text.
///
/// Ids outside the vocabulary, empty entries, `<|...|>` special tokens and
/// `<unk>`, `<pad>`, `<s>`, `</s>` are skipped; word marks (U+2581) become
/// spaces; the result is trimmed.
pub fn decode_tokens(token_ids: &[i64], vocab: &[String]) -> (r: String)
    ensures
        r@ == decode_spec(token_ids@, vocab_view(vocab@)),
{
    let ghost vv = vocab_view(vocab@);
    let mut out: Vec<char> = Vec::new();
    let mut i: usize = 0;
    while i < token_ids.len()
        invariant
            i <= token_ids.len(),
            vv == vocab_view(vocab@),
            out@ == joined_text(token_ids@.take(i as int), vv),
        decreases token_ids.len() - i,
    {
        let ghost pre = token_ids@.take(i as int);
        assert(token_ids@.take(i + 1).drop_last() =~= pre);
        match lookup_token(vocab, token_ids[i]) {
            Some(tok) => {
                let t = chars_of(tok.as_str());
                if is_text(&t) {
                    extend_chars(&mut out, &t);
                }
            },
            None => {},
        }
        i += 1;
    }
    assert(token_ids@.take(token_ids.len() as int) =~= token_ids@);
    let mark: Vec<char> = vec!['\u{2581}'];
    let space: Vec<char> = vec![' '];
    assert(mark@ =~= seq![word_mark()] && space@ =~= seq![' ']);
    let replaced = replace_chars(&out, &mark, &space);
    let trimmed = trim_chars(&replaced);
    string_of(&trimmed)
}

/// The largest id of the pairs, or 0 when there are none.
pub open spec fn max_id(pairs: Seq<(Seq<char>, usize)>) -> nat
    decreases pairs.len(),
{
    if pairs.len() == 0 {
        0
    } else {
        let m = max_id(pairs.drop_last());
        if pairs.last().1 > m {
            pairs.last().1 as nat
        } else {
            m
        }
    }
}

/// The entries set by the pairs, in order (a later pair for the same id
/// wins), on top of `v`.
pub open spec fn fill_pairs(v: Seq<Seq<char>>, pairs: Seq<(Seq<char>, usize)>) -> Seq<Seq<char>>
    decreases pairs.len(),
{
    if pairs.len() == 0 {
        v
    } else {
        fill_pairs(v, pairs.drop_last()).update(pairs.last().1 as int, pairs.last().0)
    }
}

/// The vocabulary of a token-to-id table: one entry per id up to the
/// largest, empty where no token has the id.
pub open spec fn vocab_of_pairs(pairs: Seq<(Seq<char>, usize)>) -> Seq<Seq<char>> {
    fill_pairs(Seq::new(max_id(pairs) + 1, |i: int| Seq::<char>::empty()), pairs)
}

proof fn lemma_max_id(pairs: Seq<(Seq<char>, usize)>, k: int)
    requires
        0 <= k < pairs.len(),
    ensures
        pairs[k].1 <= max_id(pairs),
    decreases pairs.len(),
{
    if k < pairs.len() - 1 {
        lemma_max_id(pairs.drop_last(), k);
    }
}

proof fn lemma_fill_len(v: Seq<Seq<char>>, pairs: Seq<(Seq<char>, usize)>)
    requires
        forall|k: int| 0 <= k < pairs.len() ==> #[trigger] pairs[k].1 < v.len(),
    ensures
        fill_pairs(v, pairs).len() == v.len(),
    decreases pairs.len(),
{
    if pairs.len() > 0 {
        lemma_fill_len(v, pairs.drop_last());
    }
}

/// Builds the vocabulary from a token-to-id table (in the table's order).
pub fn vocab_from_pairs(pairs: &Vec<(String, usize)>) -> (v: Vec<String>)
    requires
        forall|k: int| 0 <= k < pairs@.len() ==> #[trigger] pairs@[k].1 < usize::MAX,
    ensures
        vocab_view(v@) == vocab_of_pairs(pairs@.map_values(|p: (String, usize)| (p.0@, p.1))),
{
    let ghost pv = pairs@.map_values(|p: (String, usize)| (p.0@, p.1));
    let mut m: usize = 0;
    let mut i: usize = 0;
    while i < pairs.len()
        invariant
            i <= pairs.len(),
            pv == pairs@.map_values(|p: (String, usize)| (p.0@, p.1)),
            m == max_id(pv.take(i as int)),
            forall|k: int| 0 <= k < pairs@.len() ==> #[trigger] pairs@[k].1 < usize::MAX,
        decreases pairs.len() - i,
    {
        assert(pv.take(i + 1).drop_last() =~= pv.take(i as int));
        assert(pv.take(i + 1).last() == pv[i as int]);
        if pairs[i].1 > m {
            m = pairs[i].1;
        }
        i += 1;
    }
    assert(pv.take(pairs.len() as int) =~= pv);
    assert(m < usize::MAX) by {
        if pv.len() > 0 {
            assert(m == pv[pv.len() - 1].1 || m == max_id(pv.drop_last()));
        }
        if m > 0 {
            assert(exists|k: int| 0 <= k < pv.len() && pv[k].1 == m) by {
                lemma_max_is_some_id(pv);
            }
        }
    }
    let mut v: Vec<String> = Vec::new();
    while v.len() <= m
        invariant
            v.len() <= m + 1,
            m < usize::MAX,
            vocab_view(v@) == Seq::new(v.len() as nat, |k: int| Seq::<char>::empty()),
        decreases m + 1 - v.len(),
    {
        let ghost before = v@;
        let e = String::new();
        v.push(e);
        assert(v@ == before.push(e));
        assert(e@ == Seq::<char>::empty());
        assert(vocab_view(v@) =~= vocab_view(before).push(e@));
        assert(vocab_view(v@) =~= Seq::new(v.len() as nat, |k: int| Seq::<char>::empty()));
    }
    let ghost base = Seq::new(max_id(pv) + 1, |k: int| Seq::<char>::empty());
    assert(vocab_view(v@) =~= base);
    let mut j: usize = 0;
    while j < pairs.len()
        invariant
            j <= pairs.len(),
            pv == pairs@.map_values(|p: (String, usize)| (p.0@, p.1)),
            m == max_id(pv),
            v.len() == m + 1,
            base == Seq::new(max_id(pv) + 1, |k: int| Seq::<char>::empty()),
            vocab_view(v@) == fill_pairs(base, pv.take(j as int)),
        decreases pairs.len() - j,
    {
        proof {
            lemma_max_id(pv, j as int);
            assert(pv.take(j + 1).drop_last() =~= pv.take(j as int));
            assert(pv.take(j + 1).last() == pv[j as int]);
        }
        let id = pairs[j].1;
        let tok = pairs[j].0.clone();
        let ghost before = vocab_view(v@);
        v.set(id, tok);
        assert(vocab_view(v@) =~= before.update(id as int, pairs@[j as int].0@));
        j += 1;
    }
    assert(pv.take(pairs.len() as int) =~= pv);
    v
}

/// The largest id is one of the ids (when it is not 0).
proof fn lemma_max_is_some_id(pairs: Seq<(Seq<char>, usize)>)
    ensures
        max_id(pairs) == 0 || exists|k: int| 0 <= k < pairs.len() && pairs[k].1 == max_id(pairs),
    decreases pairs.len(),
{
    if pairs.len() > 0 {
        lemma_max_is_some_id(pairs.drop_last());
        if pairs.last().1 <= max_id(pairs.drop_last()) && max_id(pairs.drop_last()) != 0 {
            let k = choose|k: int| 0 <= k < pairs.drop_last().len() && pairs.drop_last()[k].1 == max_id(
                pairs.drop_last(),
            );
            assert(pairs[k] == pairs.drop_last()[k]);
        }
    }
}

/// The token-to-id table of a `vocab.json` text, as `serde_json` reads it
/// into a `HashMap<String, usize>`; `None` when the text is not such a
/// JSON object.
pub uninterp spec fn json_token_ids(content: Seq<char>) -> Option<Map<Seq<char>, usize>>;

/// The object at `outer.inner` of a JSON text, each value as
/// `serde_json::Value::as_u64` reads it: `None` when the text is not
/// JSON; `Some(None)` when it has no object there.
pub uninterp spec fn json_object_at(content: Seq<char>, outer: Seq<char>, inner: Seq<char>) -> Option<
    Option<Map<Seq<char>, Option<u64>>>,
>;

/// The `model.vocab` object of a `tokenizer.json` text (see
/// `json_object_at`).
pub open spec fn tokenizer_vocab(content: Seq<char>) -> Option<Option<Map<Seq<char>, Option<u64>>>> {
    json_object_at(content, "model"@, "vocab"@)
}

/// The entries `ps` list the table `m`: each key once, each with its
/// value, and nothing else.
pub open spec fn lists_table<V>(ps: Seq<(Seq<char>, V)>, m: Map<Seq<char>, V>) -> bool {
    &&& forall|i: int, j: int| 0 <= i < j < ps.len() ==> (#[trigger] ps[i]).0 != (#[trigger] ps[j]).0
    &&& forall|i: int| 0 <= i < ps.len() ==> m.contains_key((#[trigger] ps[i]).0) && m[ps[i].0] == ps[i].1
    &&& forall|k: Seq<char>| #[trigger] m.contains_key(k) ==> exists|i: int| 0 <= i < ps.len() && ps[i].0 == k
}

/// The character view of a table's entries.
pub open spec fn entry_views<V>(ps: Seq<(String, V)>) -> Seq<(Seq<char>, V)> {
    ps.map_values(|p: (String, V)| (p.0@, p.1))
}

/// `serde_json::from_str::<HashMap<String, usize>>`, its entries listed
/// in the map's (unspecified) order.  The table is named; the entries
/// list it exactly; a parse failure gives `serde_json`'s message.
#[verifier::external_body]
fn parse_token_ids(content: &str) -> (r: Result<Vec<(String, usize)>, String>)
    ensures
        r is Ok <==> json_token_ids(content@) is Some,
        r matches Ok(v) ==> lists_table(entry_views(v@), json_token_ids(content@)->Some_0),
{
    match serde_json::from_str::<std::collections::HashMap<String, usize>>(content) {
        Ok(map) => Ok(map.into_iter().collect()),
        Err(e) => Err(e.to_string()),
    }
}

/// `serde_json::from_str::<serde_json::Value>`, then the object at
/// `outer.inner` (`Value::get` twice, `Value::as_object`), its entries
/// listed in the object's order with each value's `Value::as_u64`.  The
/// object is named; the entries list it exactly; a parse failure gives
/// `serde_json`'s message.
#[verifier::external_body]
fn parse_object_at(content: &str, outer: &str, inner: &str) -> (r: Result<Option<Vec<(String, Option<u64>)>>, String>)
    ensures
        r is Ok <==> json_object_at(content@, outer@, inner@) is Some,
        r matches Ok(None) ==> json_object_at(content@, outer@, inner@) == Some(
            None::<Map<Seq<char>, Option<u64>>>,
        ),
        r matches Ok(Some(v)) ==> (json_object_at(content@, outer@, inner@) matches Some(Some(m))
            && lists_table(entry_views(v@), m)),
{
    let parsed: serde_json::Value = match serde_json::from_str(content) {
        Ok(value) => value,
        Err(e) => return Err(e.to_string()),
    };
    match parsed.get(outer).and_then(|m| m.get(inner)).and_then(|v| v.as_object()) {
        Some(obj) => Ok(Some(obj.iter().map(|(t, id)| (t.clone(), id.as_u64())).collect())),
        None => Ok(None),
    }
}

/// Every id of the table leaves room for one more entry after it.
pub open spec fn ids_fit(m: Map<Seq<char>, usize>) -> bool {
    forall|k: Seq<char>| #[trigger] m.contains_key(k) ==> m[k] < usize::MAX
}

/// The ids of a `tokenizer.json` vocabulary object: the entries whose
/// value is an unsigned integer, that integer taken as a `usize`.
pub open spec fn numeric_ids(m: Map<Seq<char>, Option<u64>>) -> Map<Seq<char>, usize> {
    Map::new(|k: Seq<char>| m.contains_key(k) && m[k] is Some, |k: Seq<char>| m[k]->Some_0 as usize)
}

/// The vocabulary of a token-to-id table: built as `vocab_from_pairs`
/// builds it from the table's entries in some order (the order decides
/// only between tokens that share an id).
pub open spec fn vocab_of_table(v: Seq<Seq<char>>, m: Map<Seq<char>, usize>) -> bool {
    exists|ps: Seq<(Seq<char>, usize)>| lists_table(ps, m) && v == vocab_of_pairs(ps)
}

/// The message of an error, prefixed.
pub open spec fn inference_error(e: SttError, prefix: Seq<char>, msg: Seq<char>) -> bool {
    e matches SttError::Inference(m) && m@ == prefix + msg
}

/// The token-to-id table of a `vocab.json` text, or the parse error.
pub fn token_table(content: &str) -> (r: Result<Vec<(String, usize)>, SttError>)
    ensures
        r is Ok <==> json_token_ids(content@) is Some,
        r matches Ok(v) ==> lists_table(entry_views(v@), json_token_ids(content@)->Some_0),
        r matches Err(e) ==> (e matches SttError::Inference(m) && has_prefix(m@, "Failed to parse vocab.json: "@)),
{
    match parse_token_ids(content) {
        Ok(v) => Ok(v),
        Err(msg) => {
            let mut m = String::from_str("Failed to parse vocab.json: ");
            m.append(msg.as_str());
            proof {
                reveal_strlit("Failed to parse vocab.json: ");
                assert(m@.take(28) =~= "Failed to parse vocab.json: "@);
            }
            Err(SttError::Inference(m))
        },
    }
}

/// The vocabulary of a `vocab.json` text (a JSON object from tokens to
/// ids): one entry per id up to the largest, empty where no token has the
/// id.
pub fn vocab_from_json(content: &str) -> (r: Result<Vec<String>, SttError>)
    requires
        json_token_ids(content@) matches Some(m) ==> ids_fit(m),
    ensures
        r is Ok <==> json_token_ids(content@) is Some,
        r matches Ok(v) ==> vocab_of_table(vocab_view(v@), json_token_ids(content@)->Some_0),
        r matches Err(e) ==> (e matches SttError::Inference(m) && has_prefix(m@, "Failed to parse vocab.json: "@)),
{
    match token_table(content) {
        Ok(pairs) => {
            let ghost m = json_token_ids(content@)->Some_0;
            let ghost pv = entry_views(pairs@);
            assert forall|k: int| 0 <= k < pairs@.len() implies #[trigger] pairs@[k].1 < usize::MAX by {
                assert(pv[k] == (pairs@[k].0@, pairs@[k].1));
                assert(m.contains_key(pv[k].0));
            }
            let v = vocab_from_pairs(&pairs);
            assert(lists_table(pv, m) && vocab_view(v@) == vocab_of_pairs(pv));
            Ok(v)
        },
        Err(e) => Err(e),
    }
}

/// The vocabulary of a `vocab.json` text, when every id leaves room for
/// one more entry (`None` otherwise).
pub fn vocab_from_json_checked(content: &str) -> (r: Option<Result<Vec<String>, SttError>>)
    ensures
        r is None <==> (json_token_ids(content@) matches Some(m) && !ids_fit(m)),
        r matches Some(Ok(v)) ==> json_token_ids(content@) is Some && vocab_of_table(
            vocab_view(v@),
            json_token_ids(content@)->Some_0,
        ),
        r matches Some(Err(e)) ==> json_token_ids(content@) is None,
        r matches Some(Err(e)) ==> (e matches SttError::Inference(m) && has_prefix(
            m@,
            "Failed to parse vocab.json: "@,
        )),
{
    match token_table(content) {
        Err(e) => Some(Err(e)),
        Ok(pairs) => {
            let ghost m = json_token_ids(content@)->Some_0;
            let ghost pv = entry_views(pairs@);
            let mut i: usize = 0;
            while i < pairs.len()
                invariant
                    i <= pairs.len(),
                    pv == entry_views(pairs@),
                    json_token_ids(content@) == Some(m),
                    lists_table(pv, m),
                    forall|k: int| 0 <= k < i ==> #[trigger] pairs@[k].1 < usize::MAX,
                decreases pairs.len() - i,
            {
                if pairs[i].1 == usize::MAX {
                    assert(pv[i as int] == (pairs@[i as int].0@, pairs@[i as int].1));
                    assert(m.contains_key(pv[i as int].0) && m[pv[i as int].0] == usize::MAX);
                    assert(!ids_fit(m));
                    return None;
                }
                i += 1;
            }
            assert forall|k: Seq<char>| #[trigger] m.contains_key(k) implies m[k] < usize::MAX by {
                let j = choose|j: int| 0 <= j < pv.len() && pv[j].0 == k;
                assert(pv[j] == (pairs@[j].0@, pairs@[j].1));
            }
            Some(vocab_from_json(content))
        },
    }
}

/// Whether every id of the entries leaves room for one more entry.
pub fn all_ids_fit(pairs: &Vec<(String, usize)>) -> (b: bool)
    ensures
        b <==> forall|k: int| 0 <= k < pairs@.len() ==> #[trigger] pairs@[k].1 < usize::MAX,
{
    let mut i: usize = 0;
    while i < pairs.len()
        invariant
            i <= pairs.len(),
            forall|k: int| 0 <= k < i ==> #[trigger] pairs@[k].1 < usize::MAX,
        decreases pairs.len() - i,
    {
        if pairs[i].1 == usize::MAX {
            return false;
        }
        i += 1;
    }
    true
}

/// A table listed by entries has all its ids fit exactly when the entries
/// do.
proof fn lemma_ids_fit(pairs: Seq<(String, usize)>, m: Map<Seq<char>, usize>)
    requires
        lists_table(entry_views(pairs), m),
    ensures
        ids_fit(m) <==> forall|k: int| 0 <= k < pairs.len() ==> #[trigger] pairs[k].1 < usize::MAX,
{
    let pv = entry_views(pairs);
    if ids_fit(m) {
        assert forall|k: int| 0 <= k < pairs.len() implies #[trigger] pairs[k].1 < usize::MAX by {
            assert(pv[k] == (pairs[k].0@, pairs[k].1));
            assert(m.contains_key(pv[k].0));
        }
    }
    if forall|k: int| 0 <= k < pairs.len() ==> #[trigger] pairs[k].1 < usize::MAX {
        assert forall|k: Seq<char>| #[trigger] m.contains_key(k) implies m[k] < usize::MAX by {
            let j = choose|j: int| 0 <= j < pv.len() && pv[j].0 == k;
            assert(pv[j] == (pairs[j].0@, pairs[j].1));
        }
    }
}

/// The entries whose value is an unsigned integer, in order, that integer
/// taken as a `usize`.
pub open spec fn numeric_list(es: Seq<(Seq<char>, Option<u64>)>) -> Seq<(Seq<char>, usize)>
    decreases es.len(),
{
    if es.len() == 0 {
        Seq::empty()
    } else {
        match es.last().1 {
            Some(n) => numeric_list(es.drop_last()).push((es.last().0, n as usize)),
            None => numeric_list(es.drop_last()),
        }
    }
}

/// An output entry holds the token and the id of an input entry.
pub open spec fn comes_from(o: (String, usize), e: (Seq<char>, Option<u64>)) -> bool {
    &&& o.0@ == e.0
    &&& e.1 is Some
    &&& e.1->Some_0 as usize == o.1
}

/// The entries whose value is an unsigned integer, in order, that integer
/// taken as a `usize`; they list the numeric part of the table the given
/// entries list.
pub fn numeric_entries(entries: &Vec<(String, Option<u64>)>) -> (r: Vec<(String, usize)>)
    ensures
        entry_views(r@) == numeric_list(entry_views(entries@)),
        forall|m: Map<Seq<char>, Option<u64>>|
            lists_table(entry_views(entries@), m) ==> lists_table(entry_views(r@), numeric_ids(m)),
{
    let ghost ev = entry_views(entries@);
    let mut out: Vec<(String, usize)> = Vec::new();
    let ghost mut src: Seq<int> = Seq::empty();
    let mut i: usize = 0;
    while i < entries.len()
        invariant
            i <= entries.len(),
            ev == entry_views(entries@),
            entry_views(out@) == numeric_list(ev.take(i as int)),
            src.len() == out@.len(),
            forall|a: int| 0 <= a < src.len() ==> 0 <= #[trigger] src[a] < i,
            forall|a: int, b: int| 0 <= a < b < src.len() ==> #[trigger] src[a] < #[trigger] src[b],
            forall|a: int| 0 <= a < out@.len() ==> comes_from(#[trigger] out@[a], ev[src[a]]),
            forall|b: int| 0 <= b < i && (#[trigger] ev[b]).1 is Some ==> exists|a: int| 0 <= a < src.len() && src[a] == b,
        decreases entries.len() - i,
    {
        let ghost out0 = out@;
        let ghost src0 = src;
        assert(ev.take(i + 1).drop_last() =~= ev.take(i as int));
        assert(ev.take(i + 1).last() == ev[i as int]);
        assert(ev[i as int] == (entries@[i as int].0@, entries@[i as int].1));
        match entries[i].1 {
            Some(n) => {
                let t = entries[i].0.clone();
                out.push((t, n as usize));
                proof {
                    src = src.push(i as int);
                    assert(entry_views(out@) =~= entry_views(out0).push((t@, n as usize)));
                }
                assert forall|a: int| 0 <= a < out@.len() implies comes_from(#[trigger] out@[a], ev[src[a]]) by {
                    if a < out0.len() {
                        assert(out@[a] == out0[a] && src[a] == src0[a]);
                    } else {
                        assert(a == out0.len());
                        assert(src[a] == i);
                        assert(out@[a].0@ == entries@[i as int].0@);
                        assert(out@[a].1 == n as usize);
                        assert(ev[i as int].1 == Some(n));
                    }
                }
                assert forall|b: int| 0 <= b < i + 1 && (#[trigger] ev[b]).1 is Some implies exists|a: int|
                    0 <= a < src.len() && src[a] == b by {
                    if b < i {
                        let a = choose|a: int| 0 <= a < src0.len() && src0[a] == b;
                        assert(src[a] == b);
                    } else {
                        assert(src[src.len() - 1] == b);
                    }
                }
            },
            None => {
                assert forall|a: int| 0 <= a < out@.len() implies comes_from(#[trigger] out@[a], ev[src[a]]) by {
                    assert(out@[a] == out0[a] && src[a] == src0[a]);
                }
            },
        }
        i += 1;
    }
    assert(ev.take(entries.len() as int) =~= ev);
    let ghost ov = entry_views(out@);
    assert forall|m: Map<Seq<char>, Option<u64>>| lists_table(ev, m) implies lists_table(ov, numeric_ids(m)) by {
        let nm = numeric_ids(m);
        assert forall|x: int, y: int| 0 <= x < y < ov.len() implies (#[trigger] ov[x]).0 != (#[trigger] ov[y]).0 by {
            assert(comes_from(out@[x], ev[src[x]]) && comes_from(out@[y], ev[src[y]]));
            assert(ov[x] == (out@[x].0@, out@[x].1) && ov[y] == (out@[y].0@, out@[y].1));
            assert(ov[x].0 == ev[src[x]].0 && ov[y].0 == ev[src[y]].0);
            assert(src[x] < src[y]);
            assert(ev[src[x]] != ev[src[y]] ==> true);
            assert(ev[src[x]].0 != ev[src[y]].0);
        }
        assert forall|x: int| 0 <= x < ov.len() implies nm.contains_key((#[trigger] ov[x]).0) && nm[ov[x].0]
            == ov[x].1 by {
            let b = src[x];
            assert(comes_from(out@[x], ev[b]));
            assert(ov[x] == (out@[x].0@, out@[x].1));
            assert(m.contains_key(ev[b].0) && m[ev[b].0] == ev[b].1);
        }
        assert forall|k: Seq<char>| #[trigger] nm.contains_key(k) implies exists|x: int| 0 <= x < ov.len() && ov[x].0 == k by {
            let b = choose|b: int| 0 <= b < ev.len() && ev[b].0 == k;
            assert(m[ev[b].0] == ev[b].1);
            let a = choose|a: int| 0 <= a < src.len() && src[a] == b;
            assert(comes_from(out@[a], ev[b]));
            assert(ov[a] == (out@[a].0@, out@[a].1));
        }
    }
    out
}

/// The token-to-id table of a `tokenizer.json` text: the numeric entries
/// of its `model.vocab` object; `None` when it has no such object.
pub fn tokenizer_table(content: &str) -> (r: Result<Option<Vec<(String, usize)>>, SttError>)
    ensures
        r is Ok <==> tokenizer_vocab(content@) is Some,
        r matches Ok(None) ==> tokenizer_vocab(content@) == Some(None::<Map<Seq<char>, Option<u64>>>),
        r matches Ok(Some(v)) ==> (tokenizer_vocab(content@) matches Some(Some(m)) && lists_table(
            entry_views(v@),
            numeric_ids(m),
        )),
        r matches Err(e) ==> (e matches SttError::Inference(m) && has_prefix(
            m@,
            "Failed to parse tokenizer.json: "@,
        )),
{
    match parse_object_at(content, "model", "vocab") {
        Ok(None) => Ok(None),
        Ok(Some(entries)) => Ok(Some(numeric_entries(&entries))),
        Err(msg) => {
            let mut m = String::from_str("Failed to parse tokenizer.json: ");
            m.append(msg.as_str());
            proof {
                reveal_strlit("Failed to parse tokenizer.json: ");
                assert(m@.take(32) =~= "Failed to parse tokenizer.json: "@);
            }
            Err(SttError::Inference(m))
        },
    }
}

/// The vocabulary of a `tokenizer.json` text, from the numeric entries of
/// its `model.vocab` object: one entry per id up to the largest, empty
/// where no token has the id; `None` when it has no such object.
pub fn vocab_from_tokenizer_json(content: &str) -> (r: Result<Option<Vec<String>>, SttError>)
    requires
        tokenizer_vocab(content@) matches Some(Some(m)) ==> ids_fit(numeric_ids(m)),
    ensures
        r is Ok <==> tokenizer_vocab(content@) is Some,
        r matches Ok(None) ==> tokenizer_vocab(content@) == Some(None::<Map<Seq<char>, Option<u64>>>),
        r matches Ok(Some(v)) ==> (tokenizer_vocab(content@) matches Some(Some(m)) && vocab_of_table(
            vocab_view(v@),
            numeric_ids(m),
        )),
        r matches Err(e) ==> (e matches SttError::Inference(m) && has_prefix(
            m@,
            "Failed to parse tokenizer.json: "@,
        )),
{
    match tokenizer_table(content) {
        Ok(Some(pairs)) => {
            let ghost m = numeric_ids(tokenizer_vocab(content@)->Some_0->Some_0);
            proof {
                lemma_ids_fit(pairs@, m);
            }
            let v = vocab_from_pairs(&pairs);
            assert(lists_table(entry_views(pairs@), m) && vocab_view(v@) == vocab_of_pairs(entry_views(pairs@)));
            Ok(Some(v))
        },
        Ok(None) => Ok(None),
        Err(e) => Err(e),
    }
}

/// The vocabulary of a `tokenizer.json` text, when every id leaves room
/// for one more entry (`None` otherwise).
pub fn vocab_from_tokenizer_json_checked(content: &str) -> (r: Option<Result<Option<Vec<String>>, SttError>>)
    ensures
        r is None <==> (tokenizer_vocab(content@) matches Some(Some(m)) && !ids_fit(numeric_ids(m))),
        r matches Some(x) ==> (x is Ok <==> tokenizer_vocab(content@) is Some),
        r matches Some(Ok(None)) ==> tokenizer_vocab(content@) == Some(None::<Map<Seq<char>, Option<u64>>>),
        r matches Some(Ok(Some(v))) ==> (tokenizer_vocab(content@) matches Some(Some(m)) && vocab_of_table(
            vocab_view(v@),
            numeric_ids(m),
        )),
        r matches Some(Err(e)) ==> (e matches SttError::Inference(m) && has_prefix(
            m@,
            "Failed to parse tokenizer.json: "@,
        )),
{
    match tokenizer_table(content) {
        Ok(Some(pairs)) => {
            let ghost m = numeric_ids(tokenizer_vocab(content@)->Some_0->Some_0);
            proof {
                lemma_ids_fit(pairs@, m);
            }
            if !all_ids_fit(&pairs) {
                return None;
            }
            Some(vocab_from_tokenizer_json(content))
        },
        Ok(None) => Some(Ok(None)),
        Err(e) => Some(Err(e)),
    }
}

} // verus!
