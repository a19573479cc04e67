//! End-to-end encryption: Argon2id key derivation and ChaCha20-Poly1305
//! authenticated encryption.
//!
//! A sealed message is the 12-byte nonce followed by the ciphertext and
//! its 16-byte authentication tag.

use vstd::prelude::*;
use vstd::string::{StringExecFns, StringSliceAdditionalSpecFns};
use crate::error::CryptoError;

verus! {

broadcast use vstd::string::group_string_axioms;

/// The Argon2id (version 0x13) key of 32 bytes derived from a password
/// and a salt with the given memory (KiB), pass and lane counts.
pub uninterp spec fn argon2id_key(password: Seq<u8>, salt: Seq<u8>, m_cost: u32, t_cost: u32, p_cost: u32) -> Seq<u8>;

/// The ChaCha20-Poly1305 ciphertext (with its tag, no associated data) of
/// a plaintext under a key and a nonce.
pub uninterp spec fn chacha_seal(key: Seq<u8>, nonce: Seq<u8>, plaintext: Seq<u8>) -> Seq<u8>;

/// The plaintext that ChaCha20-Poly1305 recovers from a ciphertext under a
/// key and a nonce, or `None` when the tag does not verify.
pub uninterp spec fn chacha_open(key: Seq<u8>, nonce: Seq<u8>, ciphertext: Seq<u8>) -> Option<Seq<u8>>;

/// Whether ChaCha20-Poly1305 accepts a plaintext of this length (fewer
/// than `u32::MAX` blocks of 64 bytes).
pub open spec fn sealable(len: nat) -> bool {
    len / 64 < 0xFFFF_FFFF
}

/// Whether Argon2 accepts the inputs: a password of at most `0xFFFFFFFF`
/// bytes and a salt of 8 to `0xFFFFFFFF` bytes.
pub open spec fn derivable(password: Seq<u8>, salt: Seq<u8>) -> bool {
    password.len() <= 0xFFFF_FFFF && 8 <= salt.len() <= 0xFFFF_FFFF
}

/// Whether `argon2::Params::new` accepts the costs (with a 32-byte key):
/// at least 8 KiB and 8 KiB per lane, at least one pass, 1 to `0xFFFFFF`
/// lanes.
pub open spec fn argon2_params_ok(m_cost: u32, t_cost: u32, p_cost: u32) -> bool {
    &&& m_cost >= 8
    &&& m_cost >= 8 * p_cost
    &&& t_cost >= 1
    &&& 1 <= p_cost <= 0xFF_FFFF
}

/// The memory cost of the library's key derivation, in KiB (64 MiB).
pub const ARGON2_M_COST: u32 = 65536;

/// The number of passes of the library's key derivation.
pub const ARGON2_T_COST: u32 = 3;

/// The number of lanes of the library's key derivation.
pub const ARGON2_P_COST: u32 = 4;

/// `argon2::Params::new(m_cost, t_cost, p_cost, Some(32))`, then
/// `Argon2::new(Argon2id, V0x13, params).hash_password_into`.  The key is
/// named over all five inputs; it is derived exactly when the costs pass
/// `Params::new` and the inputs pass `Argon2::verify_inputs`; an error
/// carries argon2's message.  `Params::new` computes `p_cost * 8` before
/// its checks, so `p_cost` is kept below the overflow of that product.
/// The memory the computation allocates (`m_cost` KiB) is not bounded
/// here.
#[verifier::external_body]
fn derive_key(password: &[u8], salt: &[u8], m_cost: u32, t_cost: u32, p_cost: u32) -> (r: Result<[u8; 32], String>)
    requires
        p_cost <= 0x1FFF_FFFF,
    ensures
        r is Ok <==> (argon2_params_ok(m_cost, t_cost, p_cost) && derivable(password@, salt@)),
        r matches Ok(k) ==> k@ == argon2id_key(password@, salt@, m_cost, t_cost, p_cost),
{
    let params = argon2::Params::new(m_cost, t_cost, p_cost, Some(32)).map_err(|e| e.to_string())?;
    let argon2 = argon2::Argon2::new(argon2::Algorithm::Argon2id, argon2::Version::V0x13, params);
    let mut key = [0u8; 32];
    match argon2.hash_password_into(password, salt, &mut key) {
        Ok(()) => Ok(key),
        Err(e) => Err(e.to_string()),
    }
}

/// `Aead::encrypt` of `ChaCha20Poly1305`.  The ciphertext is named; it is
/// produced exactly for sealable plaintexts and is 16 bytes (the tag)
/// longer than the plaintext.
#[verifier::external_body]
fn seal(key: &[u8; 32], nonce: &[u8; 12], plaintext: &[u8]) -> (r: Result<Vec<u8>, String>)
    ensures
        r is Ok <==> sealable(plaintext@.len()),
        r matches Ok(c) ==> c@ == chacha_seal(key@, nonce@, plaintext@) && c@.len() == plaintext@.len()
            + 16,
{
    let cipher = <chacha20poly1305::ChaCha20Poly1305 as chacha20poly1305::KeyInit>::new(key.into());
    chacha20poly1305::aead::Aead::encrypt(&cipher, nonce.into(), plaintext).map_err(|e| e.to_string())
}

/// `Aead::decrypt` of `ChaCha20Poly1305`.  The result is named; as an
/// authenticated cipher, it gives back the plaintext of any ciphertext it
/// produced under the same key and nonce.
#[verifier::external_body]
fn unseal(key: &[u8; 32], nonce: &[u8; 12], ciphertext: &[u8]) -> (r: Result<Vec<u8>, String>)
    ensures
        r is Ok <==> chacha_open(key@, nonce@, ciphertext@) is Some,
        r matches Ok(p) ==> chacha_open(key@, nonce@, ciphertext@) == Some(p@),
        forall|p: Seq<u8>|
            sealable(p.len()) && ciphertext@ == chacha_seal(key@, nonce@, p) ==> r is Ok && r->Ok_0@ == p,
{
    let cipher = <chacha20poly1305::ChaCha20Poly1305 as chacha20poly1305::KeyInit>::new(key.into());
    chacha20poly1305::aead::Aead::decrypt(&cipher, nonce.into(), ciphertext).map_err(|e| e.to_string())
}

/// The nonce built from a clock reading, a per-process counter and the
/// process id: the 6 low bytes of the nanoseconds, the 4 low bytes of the
/// counter and the 2 low bytes of the process id, each little-endian.
pub open spec fn nonce_spec(nanos: u128, count: u64, pid: u32) -> Seq<u8> {
    seq![
        (nanos % 256) as u8, ((nanos / 0x100) % 256) as u8, ((nanos / 0x1_0000) % 256) as u8,
        ((nanos / 0x100_0000) % 256) as u8, ((nanos / 0x1_0000_0000) % 256) as u8,
        ((nanos / 0x100_0000_0000) % 256) as u8,
        (count % 256) as u8, ((count / 0x100) % 256) as u8, ((count / 0x1_0000) % 256) as u8,
        ((count / 0x100_0000) % 256) as u8,
        (pid % 256) as u8, ((pid / 0x100) % 256) as u8,
    ]
}

/// Assembles a nonce from a clock reading (nanoseconds since the epoch), a
/// per-process counter and the process id.
pub fn nonce_from_parts(nanos: u128, count: u64, pid: u32) -> (n: [u8; 12])
    ensures
        n@ == nonce_spec(nanos, count, pid),
{
    let n: [u8; 12] = [
        (nanos % 256) as u8, ((nanos / 0x100) % 256) as u8, ((nanos / 0x1_0000) % 256) as u8,
        ((nanos / 0x100_0000) % 256) as u8, ((nanos / 0x1_0000_0000) % 256) as u8,
        ((nanos / 0x100_0000_0000) % 256) as u8,
        (count % 256) as u8, ((count / 0x100) % 256) as u8, ((count / 0x1_0000) % 256) as u8,
        ((count / 0x100_0000) % 256) as u8,
        (pid % 256) as u8, ((pid / 0x100) % 256) as u8,
    ];
    assert(n@ =~= nonce_spec(nanos, count, pid));
    n
}

/// The number of nonces a source has issued after `k` more, counted as
/// the source's 64-bit counter counts (wrapping to zero after the largest).
pub open spec fn count_after(c: u64, k: nat) -> u64 {
    ((c + k) % 0x1_0000_0000_0000_0000) as u64
}

/// The counter part of a nonce: bytes 6 to 9, read little-endian.
pub open spec fn counter_part(n: Seq<u8>) -> int {
    n[6] + 0x100 * n[7] + 0x1_0000 * n[8] + 0x100_0000 * n[9]
}

/// The counter part of a nonce is the low 32 bits of its count.
pub proof fn lemma_counter_part(nanos: u128, count: u64, pid: u32)
    ensures
        counter_part(nonce_spec(nanos, count, pid)) == count % 0x1_0000_0000,
{
    let n = nonce_spec(nanos, count, pid);
    assert(n[6] == count % 256);
    assert(n[7] == (count / 0x100) % 256);
    assert(n[8] == (count / 0x1_0000) % 256);
    assert(n[9] == (count / 0x100_0000) % 256);
    assert((count % 256) + 0x100 * ((count / 0x100) % 256) + 0x1_0000 * ((count / 0x1_0000) % 256)
        + 0x100_0000 * ((count / 0x100_0000) % 256) == count % 0x1_0000_0000) by (bit_vector);
}

/// Nonces stay unique within a process: of two nonces that one source
/// issues, the `i`-th and the `j`-th after its count stood at `c`, with
/// fewer than `2^32` issued from the first to the second, the counter
/// bytes differ, whatever the clock readings and process ids.
pub proof fn lemma_nonces_differ(c: u64, i: nat, j: nat, nanos1: u128, nanos2: u128, pid1: u32, pid2: u32)
    requires
        i < j < i + 0x1_0000_0000,
    ensures
        nonce_spec(nanos1, count_after(c, i), pid1).subrange(6, 10) != nonce_spec(
            nanos2,
            count_after(c, j),
            pid2,
        ).subrange(6, 10),
{
    let a = count_after(c, i);
    let b = count_after(c, j);
    let n1 = nonce_spec(nanos1, a, pid1);
    let n2 = nonce_spec(nanos2, b, pid2);
    lemma_counter_part(nanos1, a, pid1);
    lemma_counter_part(nanos2, b, pid2);
    if n1.subrange(6, 10) == n2.subrange(6, 10) {
        assert(n1[6] == n1.subrange(6, 10)[0]);
        assert(n1[7] == n1.subrange(6, 10)[1]);
        assert(n1[8] == n1.subrange(6, 10)[2]);
        assert(n1[9] == n1.subrange(6, 10)[3]);
        assert(n2[6] == n2.subrange(6, 10)[0]);
        assert(n2[7] == n2.subrange(6, 10)[1]);
        assert(n2[8] == n2.subrange(6, 10)[2]);
        assert(n2[9] == n2.subrange(6, 10)[3]);
        assert(counter_part(n1) == counter_part(n2));
        let x: int = c + i;
        let d: int = j - i;
        assert(a == x % 0x1_0000_0000_0000_0000);
        assert(b == (x + d) % 0x1_0000_0000_0000_0000);
        assert(a % 0x1_0000_0000 == x % 0x1_0000_0000) by (nonlinear_arith)
            requires
                a == x % 0x1_0000_0000_0000_0000,
                x >= 0,
        {
            let q = x / 0x1_0000_0000_0000_0000;
            assert(x == q * 0x1_0000_0000_0000_0000 + a);
            assert(q * 0x1_0000_0000_0000_0000 == (q * 0x1_0000_0000) * 0x1_0000_0000);
        }
        assert(b % 0x1_0000_0000 == (x + d) % 0x1_0000_0000) by (nonlinear_arith)
            requires
                b == (x + d) % 0x1_0000_0000_0000_0000,
                x + d >= 0,
        {
            let q = (x + d) / 0x1_0000_0000_0000_0000;
            assert(x + d == q * 0x1_0000_0000_0000_0000 + b);
            assert(q * 0x1_0000_0000_0000_0000 == (q * 0x1_0000_0000) * 0x1_0000_0000);
        }
        assert(false) by (nonlinear_arith)
            requires
                x % 0x1_0000_0000 == (x + d) % 0x1_0000_0000,
                0 < d < 0x1_0000_0000,
                x >= 0,
        {
        }
    }
}

/// A per-process source of nonces: each nonce carries the source's count,
/// which goes up by one with every nonce issued.
pub struct NonceSource {
    count: u64,
}

impl NonceSource {
    /// The number of nonces issued so far (modulo `2^64`).
    pub closed spec fn issued(&self) -> u64 {
        self.count
    }

    pub fn new() -> (s: Self)
        ensures
            s.issued() == 0,
    {
        NonceSource { count: 0 }
    }

    /// The next nonce, from a clock reading (nanoseconds since the epoch)
    /// and the process id.
    pub fn next(&mut self, nanos: u128, pid: u32) -> (n: [u8; 12])
        ensures
            n@ == nonce_spec(nanos, old(self).issued(), pid),
            final(self).issued() == count_after(old(self).issued(), 1),
    {
        let n = nonce_from_parts(nanos, self.count, pid);
        if self.count == u64::MAX {
            self.count = 0;
        } else {
            self.count = self.count + 1;
        }
        n
    }
}

/// Counting `a` nonces and then `b` more is counting `a + b`.
pub proof fn lemma_count_after_add(c: u64, a: nat, b: nat)
    ensures
        count_after(count_after(c, a), b) == count_after(c, a + b),
{
    let m: int = 0x1_0000_0000_0000_0000;
    let x: int = c + a;
    assert(((x % m) + b) % m == (x + b) % m) by {
        vstd::arithmetic::div_mod::lemma_add_mod_noop(x, b as int, m);
        vstd::arithmetic::div_mod::lemma_mod_twice(x, m);
        vstd::arithmetic::div_mod::lemma_small_mod(b as nat % m as nat, m as nat);
        vstd::arithmetic::div_mod::lemma_add_mod_noop(x % m, b as int, m);
    }
}

/// A sealed message: the nonce followed by the ciphertext and its tag.
pub fn frame_message(nonce: &[u8; 12], ciphertext: &[u8]) -> (m: Vec<u8>)
    ensures
        m@ == nonce@ + ciphertext@,
{
    let mut out: Vec<u8> = Vec::new();
    let mut i: usize = 0;
    while i < 12
        invariant
            i <= 12,
            out@ == nonce@.take(i as int),
        decreases 12 - i,
    {
        out.push(nonce[i]);
        i += 1;
        assert(out@ =~= nonce@.take(i as int));
    }
    let mut j: usize = 0;
    while j < ciphertext.len()
        invariant
            j <= ciphertext.len(),
            out@ == nonce@ + ciphertext@.take(j as int),
        decreases ciphertext.len() - j,
    {
        out.push(ciphertext[j]);
        j += 1;
        assert(out@ =~= nonce@ + ciphertext@.take(j as int));
    }
    assert(nonce@.take(12) =~= nonce@);
    assert(ciphertext@.take(ciphertext.len() as int) =~= ciphertext@);
    out
}

/// Splits a sealed message into its nonce (the first 12 bytes) and the
/// rest; a message shorter than a nonce is refused.
pub fn split_message(data: &[u8]) -> (r: Result<([u8; 12], Vec<u8>), CryptoError>)
    ensures
        data@.len() < 12 ==> (r matches Err(CryptoError::Decryption(m)) && m@ == "Data too short"@),
        data@.len() >= 12 ==> (r matches Ok(parts) && parts.0@ == data@.take(12) && parts.1@ == data@.skip(
            12,
        )),
{
    if data.len() < 12 {
        return Err(CryptoError::Decryption(String::from_str("Data too short")));
    }
    let mut nonce: [u8; 12] = [0u8; 12];
    let mut i: usize = 0;
    while i < 12
        invariant
            i <= 12 <= data@.len(),
            forall|k: int| 0 <= k < i ==> nonce@[k] == data@[k],
        decreases 12 - i,
    {
        nonce[i] = data[i];
        i += 1;
    }
    assert(nonce@ =~= data@.take(12));
    let mut ct: Vec<u8> = Vec::new();
    let mut j: usize = 12;
    while j < data.len()
        invariant
            12 <= j <= data@.len(),
            ct@ == data@.subrange(12, j as int),
        decreases data.len() - j,
    {
        ct.push(data[j]);
        j += 1;
        assert(ct@ =~= data@.subrange(12, j as int));
    }
    assert(ct@ =~= data@.skip(12));
    Ok((nonce, ct))
}

/// The encryption layer: one 32-byte key.
pub struct CryptoLayer {
    key: [u8; 32],
}

impl CryptoLayer {
    /// The key the layer encrypts with.
    pub closed spec fn key(&self) -> Seq<u8> {
        self.key@
    }

    /// Derives the key from a password and a salt with Argon2id.
    pub fn from_password(password: &str, salt: &[u8]) -> (r: Result<Self, CryptoError>)
        ensures
            r is Ok <==> derivable(password.spec_bytes(), salt@),
            r matches Ok(c) ==> c.key() == argon2id_key(
                password.spec_bytes(),
                salt@,
                ARGON2_M_COST,
                ARGON2_T_COST,
                ARGON2_P_COST,
            ),
            r matches Err(e) ==> e is KeyDerivation,
    {
        match derive_key(password.as_bytes(), salt, ARGON2_M_COST, ARGON2_T_COST, ARGON2_P_COST) {
            Ok(key) => Ok(CryptoLayer { key }),
            Err(msg) => Err(CryptoError::KeyDerivation(msg)),
        }
    }

    /// Uses a raw 32-byte key.
    pub fn from_key(key: &[u8; 32]) -> (r: Result<Self, CryptoError>)
        ensures
            r matches Ok(c) && c.key() == key@,
    {
        Ok(CryptoLayer { key: *key })
    }

    /// Encrypts `plaintext` with the given nonce: the nonce followed by the
    /// ciphertext and tag.
    pub fn encrypt_with_nonce(&self, nonce: &[u8; 12], plaintext: &[u8]) -> (r: Result<Vec<u8>, CryptoError>)
        ensures
            r is Ok <==> sealable(plaintext@.len()),
            r matches Ok(c) ==> c@ == nonce@ + chacha_seal(self.key(), nonce@, plaintext@),
            r matches Ok(c) ==> c@.len() == 12 + plaintext@.len() + 16,
            r matches Err(e) ==> e is Encryption,
    {
        match seal(&self.key, nonce, plaintext) {
            Ok(ct) => Ok(frame_message(nonce, ct.as_slice())),
            Err(msg) => Err(CryptoError::Encryption(msg)),
        }
    }

    /// Decrypts a sealed message (nonce, ciphertext, tag).
    ///
    /// Anything shorter than a nonce is refused; so is a message whose tag
    /// does not verify.  A message that `encrypt_with_nonce` sealed with
    /// the same key decrypts to its plaintext.
    pub fn decrypt(&self, data: &[u8]) -> (r: Result<Vec<u8>, CryptoError>)
        ensures
            data@.len() < 12 ==> (r matches Err(CryptoError::Decryption(m)) && m@ == "Data too short"@),
            data@.len() >= 12 ==> (r is Ok <==> chacha_open(self.key(), data@.take(12), data@.skip(12))
                is Some),
            r matches Ok(p) ==> data@.len() >= 12 && chacha_open(self.key(), data@.take(12), data@.skip(
                12,
            )) == Some(p@),
            r matches Err(e) ==> e is Decryption,
            forall|n: Seq<u8>, p: Seq<u8>|
                n.len() == 12 && sealable(p.len()) && data@ == n + chacha_seal(self.key(), n, p) ==> (r matches Ok(
                    q,
                ) && q@ == p),
    {
        let (nonce, ct) = match split_message(data) {
            Ok(parts) => parts,
            Err(e) => return Err(e),
        };
        proof {
            assert forall|n: Seq<u8>, p: Seq<u8>|
                n.len() == 12 && sealable(p.len()) && data@ == n + chacha_seal(self.key(), n, p) implies n
                == nonce@ && ct@ == chacha_seal(self.key(), nonce@, p) by {
                assert(data@.take(12) =~= n);
                assert(data@.skip(12) =~= chacha_seal(self.key(), n, p));
            }
        }
        match unseal(&self.key, &nonce, ct.as_slice()) {
            Ok(p) => Ok(p),
            Err(msg) => Err(CryptoError::Decryption(msg)),
        }
    }
}

} // verus!
