//! SHA-256 digests and their hexadecimal form.

use vstd::prelude::*;

verus! {

/// The SHA-256 digest of a byte sequence.
pub uninterp spec fn sha256(data: Seq<u8>) -> Seq<u8>;

/// `sha2::Sha256::digest`: the SHA-256 digest of `data`.  The result is
/// named; it is 32 bytes long.
#[verifier::external_body]
pub(crate) fn sha256_digest(data: &[u8]) -> (d: [u8; 32])
    ensures
        d@ == sha256(data@),
{
    <sha2::Sha256 as sha2::Digest>::digest(data).into()
}

/// The lower-case hexadecimal digit of `n` (below 16).
pub open spec fn hex_digit(n: nat) -> char {
    if n < 10 {
        crate::text::digit_char(n)
    } else if n == 10 {
        'a'
    } else if n == 11 {
        'b'
    } else if n == 12 {
        'c'
    } else if n == 13 {
        'd'
    } else if n == 14 {
        'e'
    } else {
        'f'
    }
}

/// The lower-case hexadecimal text of `bytes`: two digits per byte, high
/// nibble first, as `hex::encode` writes it.
pub open spec fn hex_text(bytes: Seq<u8>) -> Seq<char>
    decreases bytes.len(),
{
    if bytes.len() == 0 {
        Seq::empty()
    } else {
        hex_text(bytes.drop_last()) + seq![
            hex_digit((bytes.last() / 16) as nat),
            hex_digit((bytes.last() % 16) as nat),
        ]
    }
}

fn hex_char(n: u8) -> (c: char)
    requires
        n < 16,
    ensures
        c == hex_digit(n as nat),
{
    if n < 10 {
        crate::text::digit(n as u64)
    } else if n == 10 {
        'a'
    } else if n == 11 {
        'b'
    } else if n == 12 {
        'c'
    } else if n == 13 {
        'd'
    } else if n == 14 {
        'e'
    } else {
        'f'
    }
}

/// The lower-case hexadecimal text of `bytes`.
pub fn hex_encode(bytes: &[u8]) -> (s: String)
    ensures
        s@ == hex_text(bytes@),
{
    let mut out: Vec<char> = Vec::new();
    let mut i: usize = 0;
    while i < bytes.len()
        invariant
            i <= bytes.len(),
            out@ == hex_text(bytes@.take(i as int)),
        decreases bytes.len() - i,
    {
        assert(bytes@.take(i + 1).drop_last() =~= bytes@.take(i as int));
        let b = bytes[i];
        out.push(hex_char(b / 16));
        out.push(hex_char(b % 16));
        i += 1;
    }
    assert(bytes@.take(bytes.len() as int) =~= bytes@);
    crate::text::string_of(&out)
}

/// The hexadecimal SHA-256 digest of `data`, as the model registry lists
/// digests.
pub fn sha256_hex(data: &[u8]) -> (s: String)
    ensures
        s@ == hex_text(sha256(data@)),
{
    let d = sha256_digest(data);
    hex_encode(&d)
}

/// A running SHA-256 computation over bytes fed to it piece by piece.
/// The `sha2` hasher it holds is hidden from verification; what it has
/// been fed is named by `fed_bytes`.
#[verifier::external_body]
pub struct Sha256Stream {
    state: sha2::Sha256,
}

/// The bytes fed to a running SHA-256 computation so far, in order.
pub uninterp spec fn fed_bytes(h: Sha256Stream) -> Seq<u8>;

/// `Digest::new` of `sha2::Sha256`: a computation fed nothing yet.
#[verifier::external_body]
fn sha256_start() -> (h: Sha256Stream)
    ensures
        fed_bytes(h) == Seq::<u8>::empty(),
{
    Sha256Stream { state: <sha2::Sha256 as sha2::Digest>::new() }
}

/// `Digest::update` of `sha2::Sha256`: feeds `chunk` after what the
/// computation was fed before.
#[verifier::external_body]
fn sha256_feed(h: &mut Sha256Stream, chunk: &[u8])
    ensures
        fed_bytes(*final(h)) == fed_bytes(*old(h)) + chunk@,
{
    sha2::Digest::update(&mut h.state, chunk)
}

/// `Digest::finalize` of `sha2::Sha256`: the digest of everything fed,
/// the same as the one-shot digest of those bytes.
#[verifier::external_body]
fn sha256_finish(h: Sha256Stream) -> (d: [u8; 32])
    ensures
        d@ == sha256(fed_bytes(h)),
{
    sha2::Digest::finalize(h.state).into()
}

impl Sha256Stream {
    /// The bytes fed so far.
    pub open spec fn fed(self) -> Seq<u8> {
        fed_bytes(self)
    }

    /// A computation fed nothing yet.
    pub fn new() -> (h: Self)
        ensures
            h.fed() == Seq::<u8>::empty(),
    {
        sha256_start()
    }

    /// Feeds the next piece of the data.
    pub fn update(&mut self, chunk: &[u8])
        ensures
            final(self).fed() == old(self).fed() + chunk@,
    {
        sha256_feed(self, chunk)
    }

    /// The lower-case hexadecimal SHA-256 digest of all that was fed.
    pub fn finalize_hex(self) -> (s: String)
        ensures
            s@ == hex_text(sha256(self.fed())),
    {
        let d = sha256_finish(self);
        hex_encode(&d)
    }
}

} // verus!
