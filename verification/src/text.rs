//! Character-sequence helpers shared by the text-processing modules.
//!
//! Strings are modelled by their views, `Seq<char>`.  The helpers here
//! convert between `String`/`&str` and `Vec<char>`, and give executable,
//! verified versions of the handful of `str` operations that the library
//! uses (searching, trimming, replacing, prefix and suffix tests).

use vstd::prelude::*;

verus! {

broadcast use vstd::string::group_string_axioms;

// ----------------------------------------------------------------------
// Trusted std calls
// ----------------------------------------------------------------------

/// Whether `c` has the Unicode `White_Space` property, which is what
/// `char::is_whitespace` decides: the ASCII tab, line feed, vertical tab,
/// form feed, carriage return and space, next line, no-break space, the
/// Ogham space mark, the spaces U+2000 to U+200A, the line and paragraph
/// separators, the narrow no-break space, the medium mathematical space
/// and the ideographic space.
pub open spec fn unicode_white_space(c: char) -> bool {
    let u = c as u32;
    ||| 0x09 <= u <= 0x0d
    ||| u == 0x20
    ||| u == 0x85
    ||| u == 0xa0
    ||| u == 0x1680
    ||| 0x2000 <= u <= 0x200a
    ||| u == 0x2028
    ||| u == 0x2029
    ||| u == 0x202f
    ||| u == 0x205f
    ||| u == 0x3000
}

/// Whether `c` is white space, as `char::is_whitespace` decides.
pub fn is_whitespace(c: char) -> (b: bool)
    ensures
        b == unicode_white_space(c),
{
    let u = c as u32;
    (0x09 <= u && u <= 0x0d) || u == 0x20 || u == 0x85 || u == 0xa0 || u == 0x1680
        || (0x2000 <= u && u <= 0x200a) || u == 0x2028 || u == 0x2029 || u == 0x202f
        || u == 0x205f || u == 0x3000
}

/// What `str::to_lowercase` returns for a string with the given characters.
pub uninterp spec fn lowercase(s: Seq<char>) -> Seq<char>;

/// The ASCII lower-case form of a character: `A` to `Z` become `a` to
/// `z`; every other character stays.
pub open spec fn ascii_lower(c: char) -> char {
    if 'A' <= c <= 'Z' {
        ((c as u32) + 32) as char
    } else {
        c
    }
}

/// All characters are ASCII.
pub open spec fn all_ascii(s: Seq<char>) -> bool {
    forall|i: int| 0 <= i < s.len() ==> (#[trigger] s[i] as u32) < 128
}

/// `str::to_lowercase`.  The result is named and depends on the
/// characters of `s` alone.  Of an ASCII string, the Unicode lower-case
/// mapping lowers `A` to `Z` and keeps every other character, and that is
/// stated; the mapping of other characters (including the final-sigma
/// rule) is not written out.
#[verifier::external_body]
pub(crate) fn to_lowercase(s: &str) -> (r: String)
    ensures
        r@ == lowercase(s@),
        all_ascii(s@) ==> r@ == s@.map_values(|c: char| ascii_lower(c)),
{
    s.to_lowercase()
}

/// `String::push`: appends one character.
#[verifier::external_body]
pub(crate) fn push_char(s: &mut String, c: char)
    ensures
        final(s)@ == old(s)@.push(c),
{
    s.push(c)
}

// ----------------------------------------------------------------------
// Conversions
// ----------------------------------------------------------------------

/// The characters of `s`, in order.
pub fn chars_of(s: &str) -> (v: Vec<char>)
    ensures
        v@ == s@,
{
    let mut v: Vec<char> = Vec::new();
    for c in it: s.chars()
        invariant
            v@ == it.seq().take(it.index() as int),
            it.seq() == s@,
    {
        v.push(c);
    }
    v
}

/// A string made of the characters of `v[from..to]`.
pub fn string_of_range(v: &Vec<char>, from: usize, to: usize) -> (s: String)
    requires
        from <= to <= v.len(),
    ensures
        s@ == v@.subrange(from as int, to as int),
{
    let mut s = String::new();
    let mut i = from;
    while i < to
        invariant
            from <= i <= to <= v.len(),
            s@ == v@.subrange(from as int, i as int),
        decreases to - i,
    {
        push_char(&mut s, v[i]);
        i += 1;
        assert(s@ =~= v@.subrange(from as int, i as int));
    }
    s
}

/// A string made of the characters of `v`.
pub fn string_of(v: &Vec<char>) -> (s: String)
    ensures
        s@ == v@,
{
    let s = string_of_range(v, 0, v.len());
    assert(v@.subrange(0, v@.len() as int) =~= v@);
    s
}

/// Appends the characters of `v` to `out`.
pub fn extend_chars(out: &mut Vec<char>, v: &Vec<char>)
    ensures
        final(out)@ == old(out)@ + v@,
{
    let mut i: usize = 0;
    while i < v.len()
        invariant
            i <= v.len(),
            out@ == old(out)@ + v@.take(i as int),
        decreases v.len() - i,
    {
        out.push(v[i]);
        i += 1;
        assert(out@ =~= old(out)@ + v@.take(i as int));
    }
    assert(v@.take(v.len() as int) =~= v@);
}

/// Appends the characters of `s` to `out`.
pub fn extend_str(out: &mut Vec<char>, s: &str)
    ensures
        final(out)@ == old(out)@ + s@,
{
    let v = chars_of(s);
    extend_chars(out, &v);
}

/// Whether two character vectors hold the same characters.
pub fn chars_eq(a: &Vec<char>, b: &Vec<char>) -> (r: bool)
    ensures
        r == (a@ == b@),
{
    if a.len() != b.len() {
        return false;
    }
    let mut i: usize = 0;
    while i < a.len()
        invariant
            i <= a.len() == b.len(),
            a@.take(i as int) == b@.take(i as int),
        decreases a.len() - i,
    {
        if a[i] != b[i] {
            assert(a@[i as int] != b@[i as int]);
            return false;
        }
        i += 1;
        assert(a@.take(i as int) =~= b@.take(i as int)) by {
            assert forall|k: int| 0 <= k < i implies a@.take(i as int)[k] == b@.take(i as int)[k] by {
                if k < i - 1 {
                    assert(a@.take(i - 1)[k] == b@.take(i - 1)[k]);
                }
            }
        }
    }
    assert(a@ =~= a@.take(a.len() as int));
    assert(b@ =~= b@.take(b.len() as int));
    true
}

/// Whether two strings hold the same characters.
pub fn str_eq(a: &str, b: &str) -> (r: bool)
    ensures
        r == (a@ == b@),
{
    chars_eq(&chars_of(a), &chars_of(b))
}

// ----------------------------------------------------------------------
// Searching
// ----------------------------------------------------------------------

/// `pat` occurs in `s` starting at index `i`.
pub open spec fn occurs_at(s: Seq<char>, pat: Seq<char>, i: int) -> bool {
    0 <= i && i + pat.len() <= s.len() && s.subrange(i, i + pat.len()) == pat
}

/// The first index `j >= i` at which `pat` occurs in `s`, if any.
pub open spec fn find_from(s: Seq<char>, pat: Seq<char>, i: int) -> Option<int>
    decreases s.len() + 1 - i,
{
    if i < 0 || i + pat.len() > s.len() {
        None
    } else if s.subrange(i, i + pat.len()) == pat {
        Some(i)
    } else {
        find_from(s, pat, i + 1)
    }
}

/// The first index at which `pat` occurs in `s`, as `str::find` reports it
/// (counted in characters).
pub open spec fn find(s: Seq<char>, pat: Seq<char>) -> Option<int> {
    find_from(s, pat, 0)
}

/// `find_from` gives an occurrence, and the first one at or after `i`.
pub proof fn lemma_find_from(s: Seq<char>, pat: Seq<char>, i: int)
    requires
        0 <= i,
    ensures
        find_from(s, pat, i) matches Some(j) ==> i <= j && occurs_at(s, pat, j) && (forall|k: int|
            i <= k < j ==> !occurs_at(s, pat, k)),
        find_from(s, pat, i) is None ==> forall|k: int| i <= k ==> !occurs_at(s, pat, k),
    decreases s.len() + 1 - i,
{
    if i + pat.len() > s.len() {
    } else if s.subrange(i, i + pat.len()) == pat {
    } else {
        lemma_find_from(s, pat, i + 1);
    }
}

/// Searching from `r + k` in `s` is searching from `k` in `s.skip(r)`,
/// shifted by `r`.
pub proof fn lemma_find_from_skip(s: Seq<char>, pat: Seq<char>, r: int, k: int)
    requires
        0 <= r <= s.len(),
        0 <= k,
    ensures
        find_from(s, pat, r + k) == (match find_from(s.skip(r), pat, k) {
            Some(j) => Some(j + r),
            None => None,
        }),
    decreases s.len() + 1 - (r + k),
{
    if r + k + pat.len() > s.len() {
    } else {
        assert(s.subrange(r + k, r + k + pat.len()) =~= s.skip(r).subrange(k, k + pat.len()));
        if s.subrange(r + k, r + k + pat.len()) != pat {
            lemma_find_from_skip(s, pat, r, k + 1);
        }
    }
}

/// Whether `pat` occurs in `v` at index `i`.
pub fn matches_at(v: &Vec<char>, pat: &Vec<char>, i: usize) -> (r: bool)
    ensures
        r == occurs_at(v@, pat@, i as int),
{
    if i > v.len() || pat.len() > v.len() - i {
        return false;
    }
    let mut k: usize = 0;
    while k < pat.len()
        invariant
            i + pat.len() <= v.len(),
            k <= pat.len(),
            forall|m: int| 0 <= m < k ==> v@[i + m] == pat@[m],
        decreases pat.len() - k,
    {
        if v[i + k] != pat[k] {
            assert(v@.subrange(i as int, i + pat.len())[k as int] != pat@[k as int]);
            return false;
        }
        k += 1;
    }
    assert(v@.subrange(i as int, i + pat.len()) =~= pat@);
    true
}

/// The first index at or after `from` at which `pat` occurs in `v`.
pub fn find_chars_from(v: &Vec<char>, pat: &Vec<char>, from: usize) -> (r: Option<usize>)
    ensures
        r matches Some(j) ==> find_from(v@, pat@, from as int) == Some(j as int),
        r is None ==> find_from(v@, pat@, from as int) is None,
{
    let mut i = from;
    while i <= v.len() && pat.len() <= v.len() - i
        invariant
            from <= i,
            find_from(v@, pat@, from as int) == find_from(v@, pat@, i as int),
        decreases v.len() + 1 - i,
    {
        if matches_at(v, pat, i) {
            return Some(i);
        }
        assert(pat@.len() > 0) by {
            if pat@.len() == 0 {
                assert(v@.subrange(i as int, i as int) =~= pat@);
            }
        }
        i += 1;
    }
    None
}

/// The first index at which `pat` occurs in `v`.
pub fn find_chars(v: &Vec<char>, pat: &Vec<char>) -> (r: Option<usize>)
    ensures
        r matches Some(j) ==> find(v@, pat@) == Some(j as int),
        r is None ==> find(v@, pat@) is None,
{
    find_chars_from(v, pat, 0)
}

/// `s` begins with `pat`.
pub open spec fn has_prefix(s: Seq<char>, pat: Seq<char>) -> bool {
    pat.len() <= s.len() && s.take(pat.len() as int) == pat
}

/// `s` ends with `pat`.
pub open spec fn has_suffix(s: Seq<char>, pat: Seq<char>) -> bool {
    pat.len() <= s.len() && s.skip(s.len() - pat.len()) == pat
}

/// `str::starts_with` on characters.
pub fn starts_with(v: &Vec<char>, pat: &Vec<char>) -> (r: bool)
    ensures
        r == has_prefix(v@, pat@),
{
    let r = matches_at(v, pat, 0);
    assert(r == has_prefix(v@, pat@)) by {
        if pat@.len() <= v@.len() {
            assert(v@.subrange(0, pat@.len() as int) =~= v@.take(pat@.len() as int));
        }
    }
    r
}

/// `str::ends_with` on characters.
pub fn ends_with(v: &Vec<char>, pat: &Vec<char>) -> (r: bool)
    ensures
        r == has_suffix(v@, pat@),
{
    if pat.len() > v.len() {
        return false;
    }
    let start = v.len() - pat.len();
    let r = matches_at(v, pat, start);
    assert(v@.subrange(start as int, start + pat@.len()) =~= v@.skip(start as int));
    r
}

// ----------------------------------------------------------------------
// Trimming
// ----------------------------------------------------------------------

/// `s` without its leading white space.
pub open spec fn trim_start(s: Seq<char>) -> Seq<char>
    decreases s.len(),
{
    if s.len() > 0 && unicode_white_space(s[0]) {
        trim_start(s.drop_first())
    } else {
        s
    }
}

/// `s` without its trailing white space.
pub open spec fn trim_end(s: Seq<char>) -> Seq<char>
    decreases s.len(),
{
    if s.len() > 0 && unicode_white_space(s.last()) {
        trim_end(s.drop_last())
    } else {
        s
    }
}

/// `s` without leading and trailing white space, as `str::trim` gives it.
pub open spec fn trim(s: Seq<char>) -> Seq<char> {
    trim_end(trim_start(s))
}

proof fn lemma_trim_start_skip(s: Seq<char>, i: int)
    requires
        0 <= i <= s.len(),
        forall|k: int| 0 <= k < i ==> unicode_white_space(#[trigger] s[k]),
    ensures
        trim_start(s) == trim_start(s.skip(i)),
    decreases i,
{
    if i > 0 {
        assert(unicode_white_space(s[0]));
        assert(s.drop_first().skip(i - 1) =~= s.skip(i));
        assert forall|k: int| 0 <= k < i - 1 implies unicode_white_space(#[trigger] s.drop_first()[k]) by {
            assert(s.drop_first()[k] == s[k + 1]);
        }
        lemma_trim_start_skip(s.drop_first(), i - 1);
    } else {
        assert(s.skip(0) =~= s);
    }
}

proof fn lemma_trim_end_take(s: Seq<char>, j: int)
    requires
        0 <= j <= s.len(),
        forall|k: int| j <= k < s.len() ==> unicode_white_space(#[trigger] s[k]),
    ensures
        trim_end(s) == trim_end(s.take(j)),
    decreases s.len() - j,
{
    if j < s.len() {
        assert(unicode_white_space(s[s.len() - 1]));
        assert(s.drop_last().take(j) =~= s.take(j));
        assert forall|k: int| j <= k < s.drop_last().len() implies unicode_white_space(#[trigger] s.drop_last()[k]) by {
            assert(s.drop_last()[k] == s[k]);
        }
        lemma_trim_end_take(s.drop_last(), j);
    } else {
        assert(s.take(j) =~= s);
    }
}

/// The characters of `v`, trimmed.
pub fn trim_chars(v: &Vec<char>) -> (r: Vec<char>)
    ensures
        r@ == trim(v@),
{
    let mut i: usize = 0;
    while i < v.len() && is_whitespace(v[i])
        invariant
            i <= v.len(),
            forall|k: int| 0 <= k < i ==> unicode_white_space(#[trigger] v@[k]),
        decreases v.len() - i,
    {
        i += 1;
    }
    proof {
        lemma_trim_start_skip(v@, i as int);
    }
    let ghost rest = v@.skip(i as int);
    assert(i < v.len() ==> !unicode_white_space(rest[0]));
    assert(trim_start(rest) == rest);
    let mut j: usize = v.len();
    while j > i && is_whitespace(v[j - 1])
        invariant
            i <= j <= v.len(),
            forall|k: int| j <= k < v.len() ==> unicode_white_space(#[trigger] v@[k]),
        decreases j,
    {
        j -= 1;
    }
    proof {
        assert forall|k: int| j - i <= k < rest.len() implies unicode_white_space(#[trigger] rest[k]) by {
            assert(rest[k] == v@[k + i]);
        }
        lemma_trim_end_take(rest, j - i);
        let t = rest.take(j - i);
        assert(t =~= v@.subrange(i as int, j as int));
        if t.len() > 0 {
            assert(t.last() == v@[j - 1]);
        }
        assert(trim_end(t) == t);
    }
    let mut r: Vec<char> = Vec::new();
    let mut k = i;
    while k < j
        invariant
            i <= k <= j <= v.len(),
            r@ == v@.subrange(i as int, k as int),
        decreases j - k,
    {
        r.push(v[k]);
        k += 1;
        assert(r@ =~= v@.subrange(i as int, k as int));
    }
    r
}

/// `str::trim`, into a new string.
pub fn trim_string(s: &str) -> (r: String)
    ensures
        r@ == trim(s@),
{
    let v = chars_of(s);
    let t = trim_chars(&v);
    string_of(&t)
}

// ----------------------------------------------------------------------
// Replacing
// ----------------------------------------------------------------------

/// `s` with every occurrence of the non-empty `pat` replaced by `rep`,
/// scanning left to right without overlap, as `str::replace` does.
pub open spec fn replace_all(s: Seq<char>, pat: Seq<char>, rep: Seq<char>) -> Seq<char>
    decreases s.len(),
{
    if s.len() == 0 || pat.len() == 0 {
        s
    } else if has_prefix(s, pat) {
        rep + replace_all(s.skip(pat.len() as int), pat, rep)
    } else {
        seq![s[0]] + replace_all(s.drop_first(), pat, rep)
    }
}

/// Replacing one character by another everywhere maps each character on
/// its own: the text keeps its length, and only that character changes.
pub proof fn lemma_replace_char(s: Seq<char>, a: char, b: char)
    ensures
        replace_all(s, seq![a], seq![b]) == s.map_values(|c: char| if c == a { b } else { c }),
    decreases s.len(),
{
    let f = |c: char| if c == a { b } else { c };
    if s.len() > 0 {
        if has_prefix(s, seq![a]) {
            assert(s.take(1) =~= seq![s[0]]);
            assert(seq![s[0]][0] == seq![a][0]);
            assert(s[0] == a);
            lemma_replace_char(s.skip(1), a, b);
            assert(s.map_values(f) =~= seq![b] + s.skip(1).map_values(f));
        } else {
            assert(s.take(1) =~= seq![s[0]]);
            assert(s[0] != a);
            lemma_replace_char(s.drop_first(), a, b);
            assert(s.map_values(f) =~= seq![s[0]] + s.drop_first().map_values(f));
        }
    } else {
        assert(s.map_values(f) =~= s);
    }
}

/// Trimming cuts white space off the ends only: the trimmed text is a
/// contiguous piece of the text.
pub proof fn lemma_trim_piece(s: Seq<char>)
    ensures
        exists|i: int, j: int| 0 <= i <= j <= s.len() && trim(s) == s.subrange(i, j),
{
    lemma_trim_start_suffix(s);
    let i = choose|i: int| 0 <= i <= s.len() && trim_start(s) == s.skip(i);
    lemma_trim_end_prefix(trim_start(s));
    let t = trim_start(s);
    let j = choose|j: int| 0 <= j <= t.len() && trim_end(t) == t.take(j);
    assert(s.skip(i).take(j) =~= s.subrange(i, i + j));
}

proof fn lemma_trim_start_suffix(s: Seq<char>)
    ensures
        exists|i: int| 0 <= i <= s.len() && trim_start(s) == s.skip(i),
    decreases s.len(),
{
    if s.len() > 0 && unicode_white_space(s[0]) {
        lemma_trim_start_suffix(s.drop_first());
        let i = choose|i: int| 0 <= i <= s.drop_first().len() && trim_start(s.drop_first()) == s.drop_first().skip(i);
        assert(s.drop_first().skip(i) =~= s.skip(i + 1));
    } else {
        assert(s.skip(0) =~= s);
    }
}

proof fn lemma_trim_end_prefix(s: Seq<char>)
    ensures
        exists|j: int| 0 <= j <= s.len() && trim_end(s) == s.take(j),
    decreases s.len(),
{
    if s.len() > 0 && unicode_white_space(s.last()) {
        lemma_trim_end_prefix(s.drop_last());
        let j = choose|j: int| 0 <= j <= s.drop_last().len() && trim_end(s.drop_last()) == s.drop_last().take(j);
        assert(s.drop_last().take(j) =~= s.take(j));
    } else {
        assert(s.take(s.len() as int) =~= s);
    }
}

/// The characters of `v` with every occurrence of `pat` replaced by `rep`.
pub fn replace_chars(v: &Vec<char>, pat: &Vec<char>, rep: &Vec<char>) -> (r: Vec<char>)
    requires
        pat.len() > 0,
    ensures
        r@ == replace_all(v@, pat@, rep@),
{
    let mut out: Vec<char> = Vec::new();
    let mut i: usize = 0;
    assert(v@.skip(0) =~= v@);
    assert(out@ + replace_all(v@, pat@, rep@) =~= replace_all(v@, pat@, rep@));
    while i < v.len()
        invariant
            i <= v.len(),
            pat@.len() > 0,
            out@ + replace_all(v@.skip(i as int), pat@, rep@) == replace_all(v@, pat@, rep@),
        decreases v.len() - i,
    {
        let ghost rest = v@.skip(i as int);
        let m = matches_at(v, pat, i);
        if m {
            assert(has_prefix(rest, pat@)) by {
                assert(rest.take(pat@.len() as int) =~= v@.subrange(i as int, i + pat@.len()));
            }
            assert(rest.skip(pat@.len() as int) =~= v@.skip(i + pat@.len()));
            extend_chars(&mut out, rep);
            i += pat.len();
            assert(out@ + replace_all(v@.skip(i as int), pat@, rep@) =~= replace_all(v@, pat@, rep@));
        } else {
            assert(!has_prefix(rest, pat@)) by {
                if has_prefix(rest, pat@) {
                    assert(rest.take(pat@.len() as int) =~= v@.subrange(i as int, i + pat@.len()));
                }
            }
            assert(rest.drop_first() =~= v@.skip(i + 1));
            out.push(v[i]);
            i += 1;
            assert(out@ + replace_all(v@.skip(i as int), pat@, rep@) =~= replace_all(v@, pat@, rep@));
        }
    }
    assert(v@.skip(i as int).len() == 0);
    assert(out@ + replace_all(v@.skip(i as int), pat@, rep@) =~= out@);
    out
}

// ----------------------------------------------------------------------
// Decimal numbers
// ----------------------------------------------------------------------

/// The character of a decimal digit.
pub open spec fn digit_char(d: nat) -> char {
    if d == 0 { '0' }
    else if d == 1 { '1' }
    else if d == 2 { '2' }
    else if d == 3 { '3' }
    else if d == 4 { '4' }
    else if d == 5 { '5' }
    else if d == 6 { '6' }
    else if d == 7 { '7' }
    else if d == 8 { '8' }
    else { '9' }
}

/// The decimal digits of `n`, most significant first, without leading
/// zeros (`0` is written `"0"`), as `{}` formats an unsigned integer.
pub open spec fn dec_digits(n: nat) -> Seq<char>
    decreases n,
{
    if n < 10 {
        seq![digit_char(n)]
    } else {
        dec_digits(n / 10).push(digit_char(n % 10))
    }
}

/// `n` in decimal, left-padded with zeros to at least `width` characters,
/// as `{:0width$}` formats an unsigned integer.
pub open spec fn dec_padded(n: nat, width: nat) -> Seq<char> {
    let d = dec_digits(n);
    if d.len() < width {
        Seq::new((width - d.len()) as nat, |i: int| '0') + d
    } else {
        d
    }
}

/// `10` to the power `k`.
pub open spec fn pow10(k: nat) -> nat
    decreases k,
{
    if k == 0 {
        1
    } else {
        10 * pow10((k - 1) as nat)
    }
}

/// The decimal digits of `n` are ASCII digits, and there are at most `k`
/// of them when `n < 10^k`.
pub proof fn lemma_dec_digits(n: nat, k: nat)
    requires
        1 <= k,
        n < pow10(k),
    ensures
        all_digits(dec_digits(n)),
        1 <= dec_digits(n).len() <= k,
    decreases n,
{
    if n >= 10 {
        assert(k >= 2) by {
            if k == 1 {
                assert(pow10(1) == 10 * pow10(0));
            }
        }
        let k1 = (k - 1) as nat;
        assert(pow10(k) == 10 * pow10(k1));
        assert(n / 10 < pow10(k1)) by (nonlinear_arith)
            requires
                n < 10 * pow10(k1),
        ;
        lemma_dec_digits(n / 10, k1);
        let d = dec_digits(n / 10);
        assert(dec_digits(n) == d.push(digit_char(n % 10)));
        assert forall|i: int| 0 <= i < dec_digits(n).len() implies '0' <= #[trigger] dec_digits(n)[i]
            <= '9' by {
            if i < d.len() {
                assert(dec_digits(n)[i] == d[i]);
            }
        }
    }
}

/// `n` padded to `width` digits, for `n < 10^width`, is exactly `width`
/// ASCII digits.
pub proof fn lemma_dec_padded(n: nat, width: nat)
    requires
        1 <= width,
        n < pow10(width),
    ensures
        all_digits(dec_padded(n, width)),
        dec_padded(n, width).len() == width,
{
    lemma_dec_digits(n, width);
    let d = dec_digits(n);
    if d.len() < width {
        let p = Seq::new((width - d.len()) as nat, |i: int| '0');
        assert forall|i: int| 0 <= i < (p + d).len() implies '0' <= #[trigger] (p + d)[i] <= '9' by {
            if i >= p.len() {
                assert((p + d)[i] == d[i - p.len()]);
            }
        }
    }
}

/// The character of the digit `d`.
pub fn digit(d: u64) -> (c: char)
    requires
        d < 10,
    ensures
        c == digit_char(d as nat),
{
    if d == 0 { '0' }
    else if d == 1 { '1' }
    else if d == 2 { '2' }
    else if d == 3 { '3' }
    else if d == 4 { '4' }
    else if d == 5 { '5' }
    else if d == 6 { '6' }
    else if d == 7 { '7' }
    else if d == 8 { '8' }
    else { '9' }
}

/// Appends the decimal digits of `n`.
pub fn push_decimal(out: &mut Vec<char>, n: u64)
    ensures
        final(out)@ == old(out)@ + dec_digits(n as nat),
    decreases n,
{
    if n >= 10 {
        push_decimal(out, n / 10);
    }
    out.push(digit(n % 10));
    proof {
        if n >= 10 {
            assert(old(out)@ + dec_digits(n as nat) =~= old(out)@ + dec_digits((n / 10) as nat) + seq![
                digit_char((n % 10) as nat)]);
        }
    }
    assert(out@ =~= old(out)@ + dec_digits(n as nat));
}

/// Appends `n` in decimal, zero-padded to `width` characters.
pub fn push_decimal_padded(out: &mut Vec<char>, n: u64, width: usize)
    ensures
        final(out)@ == old(out)@ + dec_padded(n as nat, width as nat),
{
    let mut digits: Vec<char> = Vec::new();
    push_decimal(&mut digits, n);
    assert(digits@ =~= dec_digits(n as nat));
    if digits.len() < width {
        let pad = width - digits.len();
        let mut k: usize = 0;
        while k < pad
            invariant
                k <= pad,
                out@ == old(out)@ + Seq::new(k as nat, |i: int| '0'),
            decreases pad - k,
        {
            out.push('0');
            k += 1;
            assert(out@ =~= old(out)@ + Seq::new(k as nat, |i: int| '0'));
        }
    }
    extend_chars(out, &digits);
    assert(out@ =~= old(out)@ + dec_padded(n as nat, width as nat));
}

/// `a / b` rounded toward zero, as Rust divides signed integers (`b > 0`).
pub open spec fn tdiv(a: int, b: int) -> int
    recommends
        b > 0,
{
    if a >= 0 {
        a / b
    } else {
        -((-a) / b)
    }
}

/// The remainder of `tdiv`, with the sign of `a`, as Rust's `%`.
pub open spec fn trem(a: int, b: int) -> int
    recommends
        b > 0,
{
    a - b * tdiv(a, b)
}

/// A signed integer in decimal, as `{}` formats it.
pub open spec fn int_text(n: int) -> Seq<char> {
    if n < 0 {
        seq!['-'] + dec_digits((-n) as nat)
    } else {
        dec_digits(n as nat)
    }
}

/// A signed integer zero-padded to two characters (the sign counts), as
/// `{:02}` formats it.
pub open spec fn pad2_text(n: int) -> Seq<char> {
    if n < 0 {
        seq!['-'] + dec_digits((-n) as nat)
    } else {
        dec_padded(n as nat, 2)
    }
}

/// The magnitude of a signed integer.
pub fn magnitude(n: i64) -> (m: u64)
    ensures
        m as int == if n < 0 { -(n as int) } else { n as int },
{
    if n < 0 {
        ((-(n + 1)) as u64) + 1
    } else {
        n as u64
    }
}

/// Appends the signed number `-mag` (when `neg`) or `mag`, in decimal.
pub fn push_signed(out: &mut Vec<char>, neg: bool, mag: u64)
    ensures
        final(out)@ == old(out)@ + int_text(if neg { -(mag as int) } else { mag as int }),
{
    if neg && mag > 0 {
        out.push('-');
    }
    push_decimal(out, mag);
    assert(out@ =~= old(out)@ + int_text(if neg { -(mag as int) } else { mag as int }));
}

/// Appends the signed number `-mag` (when `neg`) or `mag`, as `{:02}`.
pub fn push_signed_pad2(out: &mut Vec<char>, neg: bool, mag: u64)
    ensures
        final(out)@ == old(out)@ + pad2_text(if neg { -(mag as int) } else { mag as int }),
{
    if neg && mag > 0 {
        out.push('-');
        push_decimal(out, mag);
        assert(out@ =~= old(out)@ + pad2_text(-(mag as int)));
    } else {
        push_decimal_padded(out, mag, 2);
    }
}

// ----------------------------------------------------------------------
// Words
// ----------------------------------------------------------------------

/// The length of the run of non-white-space characters that `s` starts
/// with.
pub open spec fn word_len(s: Seq<char>) -> nat
    decreases s.len(),
{
    if s.len() == 0 || unicode_white_space(s[0]) {
        0
    } else {
        1 + word_len(s.drop_first())
    }
}

/// The words of `s`: its maximal runs of non-white-space characters, in
/// order, as `str::split_whitespace` yields them.
pub open spec fn words(s: Seq<char>) -> Seq<Seq<char>>
    decreases s.len(),
{
    if s.len() == 0 {
        Seq::empty()
    } else if unicode_white_space(s[0]) {
        words(s.drop_first())
    } else {
        let n = word_len(s);
        if 0 < n <= s.len() {
            seq![s.take(n as int)] + words(s.skip(n as int))
        } else {
            Seq::empty()
        }
    }
}

proof fn lemma_word_len(s: Seq<char>, i: int, j: int)
    requires
        0 <= i <= j <= s.len(),
        forall|k: int| i <= k < j ==> !unicode_white_space(#[trigger] s[k]),
        j == s.len() || unicode_white_space(s[j]),
    ensures
        word_len(s.skip(i)) == j - i,
    decreases j - i,
{
    if i == j {
        if j < s.len() {
            assert(s.skip(i)[0] == s[j]);
        }
    } else {
        lemma_word_len(s, i + 1, j);
        assert(s.skip(i).drop_first() =~= s.skip(i + 1));
        assert(s.skip(i)[0] == s[i]);
    }
}

/// The words of `v`, with the index of the first character of each.
pub fn split_words(v: &Vec<char>) -> (r: (Vec<Vec<char>>, Vec<usize>))
    ensures
        r.0@.map_values(|w: Vec<char>| w@) == words(v@),
        r.1@.len() == r.0@.len(),
        forall|k: int|
            0 <= k < r.0@.len() ==> #[trigger] r.1@[k] + r.0@[k]@.len() <= v@.len() && v@.subrange(
                r.1@[k] as int,
                r.1@[k] + r.0@[k]@.len(),
            ) == r.0@[k]@,
{
    let mut out: Vec<Vec<char>> = Vec::new();
    let mut starts: Vec<usize> = Vec::new();
    let mut i: usize = 0;
    assert(v@.skip(0) =~= v@);
    assert(out@.map_values(|w: Vec<char>| w@) + words(v@.skip(0)) =~= words(v@));
    while i < v.len()
        invariant
            i <= v.len(),
            out@.map_values(|w: Vec<char>| w@) + words(v@.skip(i as int)) == words(v@),
            starts@.len() == out@.len(),
            forall|k: int|
                0 <= k < out@.len() ==> #[trigger] starts@[k] + out@[k]@.len() <= v@.len() && v@.subrange(
                    starts@[k] as int,
                    starts@[k] + out@[k]@.len(),
                ) == out@[k]@,
        decreases v.len() - i,
    {
        let ghost rest = v@.skip(i as int);
        assert(rest[0] == v@[i as int]);
        if is_whitespace(v[i]) {
            assert(rest.drop_first() =~= v@.skip(i + 1));
            i += 1;
        } else {
            let mut j = i;
            while j < v.len() && !is_whitespace(v[j])
                invariant
                    i <= j <= v.len(),
                    forall|k: int| i <= k < j ==> !unicode_white_space(#[trigger] v@[k]),
                decreases v.len() - j,
            {
                j += 1;
            }
            proof {
                lemma_word_len(v@, i as int, j as int);
                assert(rest.skip((j - i) as int) =~= v@.skip(j as int));
                assert(rest.take((j - i) as int) =~= v@.subrange(i as int, j as int));
            }
            let mut w: Vec<char> = Vec::new();
            let mut k = i;
            while k < j
                invariant
                    i <= k <= j <= v.len(),
                    w@ == v@.subrange(i as int, k as int),
                decreases j - k,
            {
                w.push(v[k]);
                k += 1;
                assert(w@ =~= v@.subrange(i as int, k as int));
            }
            let ghost out0 = out@;
            out.push(w);
            starts.push(i);
            proof {
                assert(out@.map_values(|w: Vec<char>| w@) =~= out0.map_values(|w: Vec<char>| w@).push(
                    v@.subrange(i as int, j as int),
                ));
                assert forall|m: int|
                    0 <= m < out@.len() implies #[trigger] starts@[m] + out@[m]@.len() <= v@.len()
                    && v@.subrange(starts@[m] as int, starts@[m] + out@[m]@.len()) == out@[m]@ by {
                    if m < out0.len() {
                        assert(out@[m] == out0[m]);
                    }
                }
            }
            i = j;
        }
    }
    assert(v@.skip(i as int) =~= Seq::<char>::empty());
    assert(out@.map_values(|w: Vec<char>| w@) =~= words(v@));
    (out, starts)
}

/// `ws` joined with `sep` between neighbours, as `[&str]::join` does.
pub open spec fn join(ws: Seq<Seq<char>>, sep: Seq<char>) -> Seq<char>
    decreases ws.len(),
{
    if ws.len() == 0 {
        Seq::empty()
    } else if ws.len() == 1 {
        ws[0]
    } else {
        join(ws.drop_last(), sep) + sep + ws.last()
    }
}

/// `ws[from..to]` joined with single spaces.
pub fn join_words(ws: &Vec<Vec<char>>, from: usize, to: usize) -> (r: Vec<char>)
    requires
        from <= to <= ws.len(),
    ensures
        r@ == join(ws@.map_values(|w: Vec<char>| w@).subrange(from as int, to as int), seq![' ']),
{
    let ghost all = ws@.map_values(|w: Vec<char>| w@);
    let mut out: Vec<char> = Vec::new();
    let mut k = from;
    assert(all.subrange(from as int, from as int) =~= Seq::<Seq<char>>::empty());
    while k < to
        invariant
            from <= k <= to <= ws.len(),
            all == ws@.map_values(|w: Vec<char>| w@),
            out@ == join(all.subrange(from as int, k as int), seq![' ']),
        decreases to - k,
    {
        let ghost part = all.subrange(from as int, (k + 1) as int);
        assert(part.drop_last() =~= all.subrange(from as int, k as int));
        assert(part.last() == ws@[k as int]@);
        if k > from {
            out.push(' ');
        }
        extend_chars(&mut out, &ws[k]);
        k += 1;
        if k - 1 == from {
            assert(part =~= seq![ws@[from as int]@]);
        }
    }
    out
}

/// The character vectors of `ws` joined with `sep` between neighbours.
pub fn join_with(ws: &Vec<Vec<char>>, sep: &Vec<char>) -> (r: Vec<char>)
    ensures
        r@ == join(ws@.map_values(|w: Vec<char>| w@), sep@),
{
    let ghost all = ws@.map_values(|w: Vec<char>| w@);
    let mut out: Vec<char> = Vec::new();
    let mut k: usize = 0;
    assert(all.subrange(0, 0) =~= Seq::<Seq<char>>::empty());
    while k < ws.len()
        invariant
            k <= ws.len(),
            all == ws@.map_values(|w: Vec<char>| w@),
            out@ == join(all.subrange(0, k as int), sep@),
        decreases ws.len() - k,
    {
        let ghost part = all.subrange(0, (k + 1) as int);
        assert(part.drop_last() =~= all.subrange(0, k as int));
        assert(part.last() == ws@[k as int]@);
        if k > 0 {
            extend_chars(&mut out, sep);
        }
        extend_chars(&mut out, &ws[k]);
        k += 1;
        if k == 1 {
            assert(part =~= seq![ws@[0]@]);
        }
    }
    assert(all.subrange(0, ws.len() as int) =~= all);
    out
}

// ----------------------------------------------------------------------
// Parsing numbers and lines
// ----------------------------------------------------------------------

/// The value of an ASCII digit character.
pub open spec fn digit_value(c: char) -> nat {
    ((c as u32) - ('0' as u32)) as nat
}

/// All characters are ASCII digits.
pub open spec fn all_digits(s: Seq<char>) -> bool {
    forall|i: int| 0 <= i < s.len() ==> '0' <= #[trigger] s[i] <= '9'
}

/// The value of a string of decimal digits.
pub open spec fn digits_value(s: Seq<char>) -> nat
    decreases s.len(),
{
    if s.len() == 0 {
        0
    } else {
        digits_value(s.drop_last()) * 10 + digit_value(s.last())
    }
}

/// The unsigned number a text denotes, as `str::parse` reads an unsigned
/// integer (before the range check): an optional `+`, then one or more
/// ASCII digits.
pub open spec fn parse_nat(s: Seq<char>) -> Option<nat> {
    if digits_part(s).len() > 0 && all_digits(digits_part(s)) {
        Some(digits_value(digits_part(s)))
    } else {
        None
    }
}

/// The text after an optional leading `+`.
pub open spec fn digits_part(s: Seq<char>) -> Seq<char> {
    if s.len() > 0 && s[0] == '+' {
        s.drop_first()
    } else {
        s
    }
}

/// What `str::parse::<u64>` gives: the number, when it is in range.
pub open spec fn parse_u64_spec(s: Seq<char>) -> Option<u64> {
    match parse_nat(s) {
        Some(n) => if n <= u64::MAX {
            Some(n as u64)
        } else {
            None
        },
        None => None,
    }
}

proof fn lemma_digits_value_prefix(s: Seq<char>, i: int)
    requires
        0 <= i <= s.len(),
    ensures
        digits_value(s.take(i)) <= digits_value(s),
    decreases s.len() - i,
{
    if i < s.len() {
        lemma_digits_value_prefix(s, i + 1);
        assert(s.take(i + 1).drop_last() =~= s.take(i));
    } else {
        assert(s.take(i) =~= s);
    }
}

/// Parses an unsigned decimal number, as `str::parse::<u64>` does.
pub fn parse_u64(v: &Vec<char>) -> (r: Option<u64>)
    ensures
        r == parse_u64_spec(v@),
{
    let mut i: usize = 0;
    if v.len() > 0 && v[0] == '+' {
        i = 1;
    }
    let ghost d = digits_part(v@);
    assert(d =~= v@.skip(i as int));
    if i >= v.len() {
        return None;
    }
    let mut acc: u64 = 0;
    let mut k = i;
    while k < v.len()
        invariant
            i <= k <= v.len(),
            d == v@.skip(i as int),
            d == digits_part(v@),
            all_digits(v@.subrange(i as int, k as int)),
            acc == digits_value(v@.subrange(i as int, k as int)),
        decreases v.len() - k,
    {
        let c = v[k];
        if !('0' <= c && c <= '9') {
            assert(!all_digits(d)) by {
                assert(d[k - i] == c);
            }
            assert(parse_nat(v@) is None);
            return None;
        }
        let dv = (c as u32 - '0' as u32) as u64;
        assert(v@.subrange(i as int, k + 1).drop_last() =~= v@.subrange(i as int, k as int));
        if acc > (u64::MAX - dv) / 10 {
            proof {
                assert(digits_value(v@.subrange(i as int, k + 1)) > u64::MAX);
                assert(v@.subrange(i as int, k + 1) =~= d.take(k + 1 - i));
                lemma_digits_value_prefix(d, k + 1 - i);
            }
            let mut m = k + 1;
            while m < v.len()
                invariant
                    i < m <= v.len(),
                    d == v@.skip(i as int),
                    d == digits_part(v@),
                    all_digits(v@.subrange(i as int, m as int)),
                decreases v.len() - m,
            {
                let c2 = v[m];
                if !('0' <= c2 && c2 <= '9') {
                    assert(!all_digits(d)) by {
                        assert(d[m - i] == c2);
                    }
                    assert(parse_nat(v@) is None);
                    return None;
                }
                m += 1;
                assert forall|j: int| 0 <= j < v@.subrange(i as int, m as int).len() implies '0' <= #[trigger] v@.subrange(
                    i as int,
                    m as int,
                )[j] <= '9' by {
                    if j < m - 1 - i {
                        assert(v@.subrange(i as int, m as int)[j] == v@.subrange(i as int, m - 1)[j]);
                    }
                }
            }
            assert(v@.subrange(i as int, v.len() as int) =~= d);
            assert(all_digits(d));
            assert(digits_value(d) > u64::MAX);
            assert(parse_nat(v@) == Some(digits_value(d)));
            return None;
        }
        acc = acc * 10 + dv;
        k += 1;
        assert forall|j: int| 0 <= j < v@.subrange(i as int, k as int).len() implies '0' <= #[trigger] v@.subrange(
            i as int,
            k as int,
        )[j] <= '9' by {
            if j < k - 1 - i {
                assert(v@.subrange(i as int, k as int)[j] == v@.subrange(i as int, k - 1)[j]);
            }
        }
    }
    assert(v@.subrange(i as int, v.len() as int) =~= d);
    Some(acc)
}

/// The lines of `s`: the pieces between line feeds, without a final empty
/// piece, as `str::lines` yields them (up to a trailing carriage return).
pub open spec fn lines(s: Seq<char>) -> Seq<Seq<char>>
    decreases s.len(),
{
    match find(s, seq!['\n']) {
        Some(i) => if 0 <= i < s.len() {
            seq![s.take(i)] + lines(s.skip(i + 1))
        } else {
            Seq::empty()
        },
        None => if s.len() == 0 {
            Seq::empty()
        } else {
            seq![s]
        },
    }
}

} // verus!
