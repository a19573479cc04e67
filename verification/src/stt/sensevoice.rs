//! Token decoding and output cleanup for the SenseVoice model.

use vstd::prelude::*;
use crate::stt::{lookup_token, token_at, vocab_view};
use vstd::string::StringExecFns;
use crate::error::SttError;
use crate::text::{
    chars_of, extend_chars, find, find_chars_from, join, join_words, lemma_find_from, lemma_find_from_skip, lines,
    parse_nat, parse_u64, replace_all, replace_chars, split_words, string_of, trim, trim_chars, words,
};

verus! {

broadcast use vstd::string::group_string_axioms;

/// Whether a vocabulary entry is a special token (`<...>`).
pub open spec fn is_special(t: Seq<char>) -> bool {
    t.len() > 0 && t[0] == '<' && t.last() == '>'
}

/// The text one vocabulary entry contributes: a leading word mark (U+2581)
/// becomes a space.
pub open spec fn piece_text(t: Seq<char>) -> Seq<char> {
    if t.len() > 0 && t[0] == '\u{2581}' {
        seq![' '] + t.drop_first()
    } else {
        t
    }
}

/// What `decode_tokens` returns: the pieces of the text tokens of `ids`,
/// concatenated.  Ids outside the vocabulary, empty entries and special
/// tokens contribute nothing.
pub open spec fn decode_spec(ids: Seq<i64>, vocab: Seq<Seq<char>>) -> Seq<char>
    decreases ids.len(),
{
    if ids.len() == 0 {
        Seq::empty()
    } else {
        let prev = decode_spec(ids.drop_last(), vocab);
        match token_at(vocab, ids.last()) {
            Some(t) => if t.len() > 0 && !is_special(t) {
                prev + piece_text(t)
            } else {
                prev
            },
            None => prev,
        }
    }
}

/// Token ids to text (not trimmed).
pub fn decode_tokens(token_ids: &[i64], vocab: &[String]) -> (r: String)
    ensures
        r@ == decode_spec(token_ids@, vocab_view(vocab@)),
{
    let ghost vv = vocab_view(vocab@);
    let mut out: Vec<char> = Vec::new();
    let mut i: usize = 0;
    while i < token_ids.len()
        invariant
            i <= token_ids.len(),
            vv == vocab_view(vocab@),
            out@ == decode_spec(token_ids@.take(i as int), vv),
        decreases token_ids.len() - i,
    {
        let ghost pre = token_ids@.take(i as int);
        assert(token_ids@.take(i + 1).drop_last() =~= pre);
        match lookup_token(vocab, token_ids[i]) {
            Some(tok) => {
                let t = chars_of(tok.as_str());
                let n = t.len();
                if n > 0 && !(t[0] == '<' && t[n - 1] == '>') {
                    if t[0] == '\u{2581}' {
                        out.push(' ');
                        let mut k: usize = 1;
                        let ghost base = out@;
                        while k < n
                            invariant
                                1 <= k <= n == t.len(),
                                out@ == base + t@.subrange(1, k as int),
                            decreases n - k,
                        {
                            out.push(t[k]);
                            k += 1;
                            assert(out@ =~= base + t@.subrange(1, k as int));
                        }
                        assert(t@.subrange(1, n as int) =~= t@.drop_first());
                    } else {
                        extend_chars(&mut out, &t);
                    }
                }
            },
            None => {},
        }
        i += 1;
    }
    assert(token_ids@.take(token_ids.len() as int) =~= token_ids@);
    string_of(&out)
}

/// The emotion and event tags that SenseVoice emits.
pub open spec fn sensevoice_tags() -> Seq<Seq<char>> {
    seq![
        "<|HAPPY|>"@, "<|SAD|>"@, "<|ANGRY|>"@, "<|NEUTRAL|>"@, "<|BGM|>"@,
        "<|Applause|>"@, "<|Laughter|>"@, "<|Crying|>"@, "<|Speech|>"@, "<|Silence|>"@,
    ]
}

/// `s` with every occurrence of `tags[0]`, then `tags[1]`, ... removed.
pub open spec fn remove_all_tags(s: Seq<char>, tags: Seq<Seq<char>>) -> Seq<char>
    decreases tags.len(),
{
    if tags.len() == 0 {
        s
    } else {
        remove_all_tags(replace_all(s, tags[0], Seq::empty()), tags.drop_first())
    }
}

/// What `clean_sensevoice_output` returns.
pub open spec fn clean_spec(s: Seq<char>) -> Seq<char> {
    trim(remove_all_tags(s, sensevoice_tags()))
}

/// Removes emotion and event tags and trims.
pub fn clean_sensevoice_output(text: &str) -> (r: String)
    ensures
        r@ == clean_spec(text@),
{
    let tags: [&str; 10] = [
        "<|HAPPY|>", "<|SAD|>", "<|ANGRY|>", "<|NEUTRAL|>", "<|BGM|>",
        "<|Applause|>", "<|Laughter|>", "<|Crying|>", "<|Speech|>", "<|Silence|>",
    ];
    let ghost all = sensevoice_tags();
    assert(forall|k: int| 0 <= k < 10 ==> #[trigger] tags@[k]@ == all[k]);
    let mut v = chars_of(text);
    let empty: Vec<char> = Vec::new();
    let mut i: usize = 0;
    assert(all.skip(0) =~= all);
    while i < 10
        invariant
            i <= 10,
            all == sensevoice_tags(),
            forall|k: int| 0 <= k < 10 ==> #[trigger] tags@[k]@ == all[k],
            empty@ == Seq::<char>::empty(),
            remove_all_tags(v@, all.skip(i as int)) == remove_all_tags(text@, all),
        decreases 10 - i,
    {
        let pat = chars_of(tags[i]);
        assert(all.skip(i as int).drop_first() =~= all.skip(i + 1));
        assert(all.skip(i as int)[0] == all[i as int]);
        assert(pat@.len() > 0) by {
            reveal_strlit("<|HAPPY|>");
            reveal_strlit("<|SAD|>");
            reveal_strlit("<|ANGRY|>");
            reveal_strlit("<|NEUTRAL|>");
            reveal_strlit("<|BGM|>");
            reveal_strlit("<|Applause|>");
            reveal_strlit("<|Laughter|>");
            reveal_strlit("<|Crying|>");
            reveal_strlit("<|Speech|>");
            reveal_strlit("<|Silence|>");
        }
        v = replace_chars(&v, &pat, &empty);
        i += 1;
    }
    assert(all.skip(0) =~= all);
    let t = trim_chars(&v);
    string_of(&t)
}

/// The SenseVoice language id for a language code: zh 3, en 4, ja 11,
/// ko 7, yue 13; anything else, and no code, 0 (automatic).
pub open spec fn language_id_spec(lang: Option<Seq<char>>) -> i32 {
    match lang {
        Some(l) => if l == "zh"@ {
            3
        } else if l == "en"@ {
            4
        } else if l == "ja"@ {
            11
        } else if l == "ko"@ {
            7
        } else if l == "yue"@ {
            13
        } else {
            0
        },
        None => 0,
    }
}

/// The SenseVoice language id for an optional language code.
pub fn language_id(lang: Option<&str>) -> (id: i32)
    ensures
        id == language_id_spec(match lang {
            Some(l) => Some(l@),
            None => None,
        }),
{
    match lang {
        Some(l) => {
            if crate::text::str_eq(l, "zh") {
                3
            } else if crate::text::str_eq(l, "en") {
                4
            } else if crate::text::str_eq(l, "ja") {
                11
            } else if crate::text::str_eq(l, "ko") {
                7
            } else if crate::text::str_eq(l, "yue") {
                13
            } else {
                0
            }
        },
        None => 0,
    }
}

/// The token id of a `tokens.txt` line, from its words: the last word as
/// an unsigned number, when there are at least two words.
pub open spec fn line_id(parts: Seq<Seq<char>>) -> Option<usize> {
    if parts.len() >= 2 {
        match parse_nat(parts.last()) {
            Some(n) => if n <= usize::MAX {
                Some(n as usize)
            } else {
                None
            },
            None => None,
        }
    } else {
        None
    }
}

/// `v` with entry `id` set to `t`, extended with empty entries when `id`
/// lies beyond its end.
pub open spec fn set_entry(v: Seq<Seq<char>>, id: nat, t: Seq<char>) -> Seq<Seq<char>> {
    if id < v.len() {
        v.update(id as int, t)
    } else {
        (v + Seq::new((id + 1 - v.len()) as nat, |i: int| Seq::<char>::empty())).update(id as int, t)
    }
}

/// One line of `tokens.txt` applied to the vocabulary: `token id` sets
/// entry `id` to the token (all words but the last, joined by spaces);
/// other lines change nothing.
pub open spec fn apply_line(v: Seq<Seq<char>>, line: Seq<char>) -> Seq<Seq<char>> {
    let parts = words(line);
    match line_id(parts) {
        Some(id) => set_entry(v, id as nat, join(parts.drop_last(), seq![' '])),
        None => v,
    }
}

/// The lines applied in order.
pub open spec fn apply_lines(v: Seq<Seq<char>>, ls: Seq<Seq<char>>) -> Seq<Seq<char>>
    decreases ls.len(),
{
    if ls.len() == 0 {
        v
    } else {
        apply_lines(apply_line(v, ls[0]), ls.drop_first())
    }
}

/// The vocabulary that a `tokens.txt` text describes.
pub open spec fn vocabulary_spec(content: Seq<char>) -> Seq<Seq<char>> {
    apply_lines(Seq::empty(), lines(content))
}

/// No line of the text has the id `usize::MAX` (for which the vocabulary
/// cannot grow).
pub open spec fn ids_fit(content: Seq<char>) -> bool {
    forall|i: int| 0 <= i < lines(content).len() ==> line_id(words(#[trigger] lines(content)[i])) != Some(usize::MAX)
}

fn line_parts_id(parts: &Vec<Vec<char>>) -> (r: Option<usize>)
    ensures
        r == line_id(parts@.map_values(|w: Vec<char>| w@)),
{
    let ghost pv = parts@.map_values(|w: Vec<char>| w@);
    if parts.len() < 2 {
        return None;
    }
    assert(pv.last() == parts@[parts.len() - 1]@);
    match parse_u64(&parts[parts.len() - 1]) {
        Some(n) => {
            if n as u128 > usize::MAX as u128 {
                None
            } else {
                Some(n as usize)
            }
        },
        None => None,
    }
}

fn apply_line_exec(vocab: &mut Vec<String>, line: &Vec<char>)
    requires
        line_id(words(line@)) != Some(usize::MAX),
    ensures
        crate::stt::vocab_view(final(vocab)@) == apply_line(crate::stt::vocab_view(old(vocab)@), line@),
{
    let ghost v0 = crate::stt::vocab_view(vocab@);
    let (parts, _starts) = split_words(line);
    let ghost pv = parts@.map_values(|w: Vec<char>| w@);
    match line_parts_id(&parts) {
        Some(id) => {
            let n = parts.len();
            let joined = join_words(&parts, 0, n - 1);
            assert(pv.subrange(0, n - 1) =~= pv.drop_last());
            let token = string_of(&joined);
            if id >= vocab.len() {
                let ghost old_len = vocab.len();
                while vocab.len() <= id
                    invariant
                        id < usize::MAX,
                        old_len <= vocab.len() <= id + 1,
                        crate::stt::vocab_view(vocab@) == v0 + Seq::new(
                            (vocab.len() - old_len) as nat,
                            |i: int| Seq::<char>::empty(),
                        ),
                    decreases id + 1 - vocab.len(),
                {
                    let ghost before = crate::stt::vocab_view(vocab@);
                    vocab.push(String::new());
                    assert(crate::stt::vocab_view(vocab@) =~= before.push(Seq::<char>::empty()));
                    assert(crate::stt::vocab_view(vocab@) =~= v0 + Seq::new(
                        (vocab.len() - old_len) as nat,
                        |i: int| Seq::<char>::empty(),
                    ));
                }
            }
            let ghost mid = crate::stt::vocab_view(vocab@);
            vocab.set(id, token);
            assert(crate::stt::vocab_view(vocab@) =~= mid.update(id as int, joined@));
        },
        None => {},
    }
}

/// Whether no line of a `tokens.txt` text has the id `usize::MAX`.
pub fn vocabulary_ids_fit(content: &str) -> (b: bool)
    ensures
        b == ids_fit(content@),
{
    let v = chars_of(content);
    let nl: Vec<char> = vec!['\n'];
    assert(nl@ =~= seq!['\n']);
    let mut start: usize = 0;
    assert(v@.skip(0) =~= v@);
    loop
        invariant
            start <= v.len(),
            nl@ == seq!['\n'],
            v@ == content@,
            ids_fit(content@) <==> ids_fit(v@.skip(start as int)),
        decreases v.len() - start,
    {
        let ghost rest = v@.skip(start as int);
        proof {
            lemma_find_from_skip(v@, seq!['\n'], start as int, 0);
            lemma_find_from(rest, seq!['\n'], 0);
        }
        match find_chars_from(&v, &nl, start) {
            Some(i) => {
                let line = copy_range(&v, start, i);
                let (parts, _s) = split_words(&line);
                proof {
                    assert(rest.take(i - start) =~= line@);
                    assert(rest.skip(i - start + 1) =~= v@.skip(i + 1));
                    let ls = lines(rest);
                    assert(ls =~= seq![line@] + lines(v@.skip(i + 1)));
                    assert(ls[0] == line@);
                    assert forall|k: int| 0 <= k < lines(v@.skip(i + 1)).len() implies #[trigger] lines(
                        v@.skip(i + 1),
                    )[k] == ls[k + 1] by {}
                }
                if line_parts_id(&parts) == Some(usize::MAX) {
                    return false;
                }
                start = i + 1;
            },
            None => {
                if start < v.len() {
                    let line = copy_range(&v, start, v.len());
                    let (parts, _s) = split_words(&line);
                    assert(line@ =~= rest);
                    assert(lines(rest) =~= seq![rest]);
                    let id = line_parts_id(&parts);
                    let ok = match id {
                        Some(x) => x != usize::MAX,
                        None => true,
                    };
                    assert(ids_fit(rest) <==> line_id(words(rest)) != Some(usize::MAX)) by {
                        assert(lines(rest).len() == 1);
                        assert(lines(rest)[0] == rest);
                    }
                    return ok;
                }
                assert(lines(rest) =~= Seq::<Seq<char>>::empty());
                return true;
            },
        }
    }
}

fn copy_range(v: &Vec<char>, from: usize, to: usize) -> (r: Vec<char>)
    requires
        from <= to <= v.len(),
    ensures
        r@ == v@.subrange(from as int, to as int),
{
    let mut r: Vec<char> = Vec::new();
    let mut k = from;
    while k < to
        invariant
            from <= k <= to <= v.len(),
            r@ == v@.subrange(from as int, k as int),
        decreases to - k,
    {
        r.push(v[k]);
        k += 1;
        assert(r@ =~= v@.subrange(from as int, k as int));
    }
    r
}

/// Reads a `tokens.txt` vocabulary: one `token id` per line (a token may
/// contain spaces); other lines are skipped.  An empty result is an error.
pub fn parse_vocabulary(content: &str) -> (r: Result<Vec<String>, SttError>)
    requires
        ids_fit(content@),
    ensures
        vocabulary_spec(content@).len() == 0 ==> (r matches Err(SttError::Inference(m)) && m@
            == "Empty vocabulary"@),
        vocabulary_spec(content@).len() > 0 ==> (r matches Ok(v) && crate::stt::vocab_view(v@)
            == vocabulary_spec(content@)),
{
    let v = chars_of(content);
    let nl: Vec<char> = vec!['\n'];
    assert(nl@ =~= seq!['\n']);
    let mut vocab: Vec<String> = Vec::new();
    let mut start: usize = 0;
    assert(v@.skip(0) =~= v@);
    assert(crate::stt::vocab_view(vocab@) =~= Seq::<Seq<char>>::empty());
    loop
        invariant
            start <= v.len(),
            nl@ == seq!['\n'],
            v@ == content@,
            ids_fit(v@.skip(start as int)),
            apply_lines(crate::stt::vocab_view(vocab@), lines(v@.skip(start as int))) == vocabulary_spec(
                content@,
            ),
        ensures
            crate::stt::vocab_view(vocab@) == vocabulary_spec(content@),
        decreases v.len() - start,
    {
        let ghost rest = v@.skip(start as int);
        proof {
            lemma_find_from_skip(v@, seq!['\n'], start as int, 0);
            lemma_find_from(rest, seq!['\n'], 0);
        }
        match find_chars_from(&v, &nl, start) {
            Some(i) => {
                let line = copy_range(&v, start, i);
                proof {
                    assert(rest.take(i - start) =~= line@);
                    assert(rest.skip(i - start + 1) =~= v@.skip(i + 1));
                    let ls = lines(rest);
                    assert(ls =~= seq![line@] + lines(v@.skip(i + 1)));
                    assert(ls[0] == line@);
                    assert(ls.drop_first() =~= lines(v@.skip(i + 1)));
                    assert forall|k: int| 0 <= k < lines(v@.skip(i + 1)).len() implies line_id(
                        words(#[trigger] lines(v@.skip(i + 1))[k]),
                    ) != Some(usize::MAX) by {
                        assert(lines(v@.skip(i + 1))[k] == ls[k + 1]);
                    }
                }
                apply_line_exec(&mut vocab, &line);
                start = i + 1;
            },
            None => {
                if start < v.len() {
                    let line = copy_range(&v, start, v.len());
                    let ghost before = crate::stt::vocab_view(vocab@);
                    assert(line@ =~= rest);
                    assert(lines(rest) =~= seq![rest]);
                    assert(lines(rest)[0] == rest);
                    assert(lines(rest).drop_first() =~= Seq::<Seq<char>>::empty());
                    let ghost after = apply_line(before, rest);
                    assert(apply_lines(after, Seq::<Seq<char>>::empty()) == after);
                    assert(apply_lines(before, seq![rest]) == apply_lines(after, seq![rest].drop_first()));
                    assert(seq![rest].drop_first() =~= Seq::<Seq<char>>::empty());
                    assert(apply_lines(before, lines(rest)) == after);
                    apply_line_exec(&mut vocab, &line);
                    assert(crate::stt::vocab_view(vocab@) == apply_line(before, rest));
                } else {
                    assert(lines(rest) =~= Seq::<Seq<char>>::empty());
                }
                start = v.len();
                assert(v@.skip(start as int) =~= Seq::<char>::empty());
                assert(lines(v@.skip(start as int)) =~= Seq::<Seq<char>>::empty());
                break;
            },
        }
    }
    if vocab.len() == 0 {
        return Err(SttError::Inference(String::from_str("Empty vocabulary")));
    }
    Ok(vocab)
}

} // verus!
