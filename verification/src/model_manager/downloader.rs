//! The decisions of the resumable model download: the `Range` header that
//! resumes a partial file, which response statuses are accepted, and the
//! total size that progress is reported against.  The transfer itself, the
//! file writes and the progress callback belong to the application.

use vstd::prelude::*;
use crate::text::{chars_of, dec_digits, extend_str, parse_u64, parse_u64_spec, push_decimal, string_of};

verus! {

broadcast use vstd::string::group_string_axioms;

/// The `Range` header value that asks for the bytes from `downloaded` on.
pub open spec fn range_text(downloaded: nat) -> Seq<char> {
    "bytes="@ + dec_digits(downloaded) + "-"@
}

/// The `Range` header of a request that resumes after `downloaded` bytes:
/// `bytes=N-`, or none when nothing is on disk yet.
pub fn range_header(downloaded: u64) -> (r: Option<String>)
    ensures
        downloaded == 0 ==> r is None,
        downloaded > 0 ==> (r matches Some(s) && s@ == range_text(downloaded as nat)),
{
    if downloaded == 0 {
        return None;
    }
    let mut v: Vec<char> = Vec::new();
    extend_str(&mut v, "bytes=");
    push_decimal(&mut v, downloaded);
    extend_str(&mut v, "-");
    Some(string_of(&v))
}

/// A response status with which the download goes on: a success (2xx),
/// which takes in 206 Partial Content.
pub open spec fn status_ok(status: u16) -> bool {
    200 <= status <= 299
}

/// Whether the download goes on after a response with `status`.
pub fn accepts_status(status: u16) -> (b: bool)
    ensures
        b == status_ok(status),
{
    (200 <= status && status <= 299) || status == 206
}

/// The part of `s` after its last `/` (all of `s` when it has none), as
/// the last item of `str::split('/')`.
pub open spec fn after_last_slash(s: Seq<char>) -> Seq<char>
    decreases s.len(),
{
    if s.len() == 0 {
        s
    } else if s.last() == '/' {
        Seq::empty()
    } else {
        after_last_slash(s.drop_last()).push(s.last())
    }
}

/// The characters of `s` after its last `/`.
pub fn after_last_slash_chars(v: &Vec<char>) -> (r: Vec<char>)
    ensures
        r@ == after_last_slash(v@),
{
    let mut i = v.len();
    assert(v@.take(i as int) =~= v@);
    assert(v@.subrange(i as int, v.len() as int) =~= Seq::<char>::empty());
    while i > 0
        invariant_except_break
            i <= v.len(),
            after_last_slash(v@) == after_last_slash(v@.take(i as int)) + v@.subrange(i as int, v.len() as int),
        invariant
            i <= v.len(),
        ensures
            i <= v.len(),
            after_last_slash(v@) == v@.subrange(i as int, v.len() as int),
        decreases i,
    {
        let ghost t = v@.take(i as int);
        assert(t.drop_last() =~= v@.take(i - 1));
        assert(t.last() == v@[i - 1]);
        if v[i - 1] == '/' {
            assert(after_last_slash(t) =~= Seq::<char>::empty());
            assert(after_last_slash(v@) =~= v@.subrange(i as int, v.len() as int));
            break;
        }
        assert(v@.subrange(i - 1, v.len() as int) =~= seq![v@[i - 1]] + v@.subrange(
            i as int,
            v.len() as int,
        ));
        assert(after_last_slash(t) + v@.subrange(i as int, v.len() as int) =~= after_last_slash(
            v@.take(i - 1),
        ) + v@.subrange(i - 1, v.len() as int));
        i -= 1;
    }
    if i == 0 {
        assert(after_last_slash(v@.take(0)) =~= Seq::<char>::empty());
        assert(after_last_slash(v@) =~= v@.subrange(0, v.len() as int));
    }
    let mut out: Vec<char> = Vec::new();
    let mut k = i;
    while k < v.len()
        invariant
            i <= k <= v.len(),
            out@ == v@.subrange(i as int, k as int),
        decreases v.len() - k,
    {
        out.push(v[k]);
        k += 1;
        assert(out@ =~= v@.subrange(i as int, k as int));
    }
    out
}

/// The size that download progress is measured against.
///
/// After 206 Partial Content it is the number after the last `/` of the
/// `Content-Range` header, or, where that is missing or no number, the
/// bytes already on disk plus the response's `Content-Length`.  After any
/// other status it is the `Content-Length`.  A missing `Content-Length`
/// counts as 0.
pub open spec fn total_bytes_spec(
    status: u16,
    content_range: Option<Seq<char>>,
    content_length: Option<u64>,
    downloaded: u64,
) -> int {
    let len: int = match content_length {
        Some(n) => n as int,
        None => 0,
    };
    if status == 206 {
        match content_range {
            Some(cr) => match parse_u64_spec(after_last_slash(cr)) {
                Some(n) => n as int,
                None => downloaded + len,
            },
            None => downloaded + len,
        }
    } else {
        len
    }
}

/// The size that download progress is measured against (see
/// `total_bytes_spec`).  `content_range` is the header's text where it is
/// visible ASCII.
pub fn total_bytes(
    status: u16,
    content_range: Option<&str>,
    content_length: Option<u64>,
    downloaded: u64,
) -> (t: u64)
    requires
        status == 206 ==> downloaded + (match content_length {
            Some(n) => n as int,
            None => 0int,
        }) <= u64::MAX,
    ensures
        t == total_bytes_spec(
            status,
            match content_range {
                Some(s) => Some(s@),
                None => None,
            },
            content_length,
            downloaded,
        ),
{
    let len: u64 = match content_length {
        Some(n) => n,
        None => 0,
    };
    if status != 206 {
        return len;
    }
    let fallback = downloaded + len;
    match content_range {
        Some(cr) => {
            let tail = after_last_slash_chars(&chars_of(cr));
            match parse_u64(&tail) {
                Some(n) => n,
                None => fallback,
            }
        },
        None => fallback,
    }
}

} // verus!
