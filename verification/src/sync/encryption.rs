//! Encryption of synchronisation deltas.
//!
//! A delta is compressed (the codec is the identity for now) and then
//! sealed; the server relays only sealed deltas.

use vstd::prelude::*;
use crate::error::CryptoError;
use vstd::string::StringExecFns;
use crate::storage::crypto::{chacha_open, chacha_seal, sealable, CryptoLayer};

verus! {

/// Compression of a delta; the identity for now.
pub fn zstd_compress(data: &[u8]) -> (r: Vec<u8>)
    ensures
        r@ == data@,
{
    copy_bytes(data)
}

/// Decompression of a delta; the identity for now.
pub fn zstd_decompress(data: &[u8]) -> (r: Result<Vec<u8>, String>)
    ensures
        r matches Ok(v) && v@ == data@,
{
    Ok(copy_bytes(data))
}

fn copy_bytes(data: &[u8]) -> (r: Vec<u8>)
    ensures
        r@ == data@,
{
    let mut r: Vec<u8> = Vec::new();
    let mut i: usize = 0;
    while i < data.len()
        invariant
            i <= data.len(),
            r@ == data@.take(i as int),
        decreases data.len() - i,
    {
        r.push(data[i]);
        i += 1;
        assert(r@ =~= data@.take(i as int));
    }
    assert(data@.take(data.len() as int) =~= data@);
    r
}

/// Seals and opens synchronisation deltas.
pub struct SyncEncryption {
    crypto: CryptoLayer,
}

impl SyncEncryption {
    /// The key the deltas are sealed with.
    pub closed spec fn key(&self) -> Seq<u8> {
        self.crypto.key()
    }

    pub fn new(crypto: CryptoLayer) -> (s: Self)
        ensures
            s.key() == crypto.key(),
    {
        SyncEncryption { crypto }
    }

    /// Compresses and seals a delta with the given nonce.
    pub fn encrypt_delta(&self, nonce: &[u8; 12], delta: &[u8]) -> (r: Result<Vec<u8>, CryptoError>)
        ensures
            r is Ok <==> sealable(delta@.len()),
            r matches Ok(c) ==> c@ == nonce@ + chacha_seal(self.key(), nonce@, delta@),
    {
        let compressed = zstd_compress(delta);
        self.crypto.encrypt_with_nonce(nonce, compressed.as_slice())
    }

    /// Opens and decompresses a sealed delta.  A delta sealed by
    /// `encrypt_delta` with the same key comes back unchanged.
    pub fn decrypt_delta(&self, encrypted: &[u8]) -> (r: Result<Vec<u8>, CryptoError>)
        ensures
            encrypted@.len() < 12 ==> (r matches Err(CryptoError::Decryption(m)) && m@ == "Data too short"@),
            encrypted@.len() >= 12 ==> (r is Ok <==> chacha_open(
                self.key(),
                encrypted@.take(12),
                encrypted@.skip(12),
            ) is Some),
            r matches Ok(p) ==> chacha_open(self.key(), encrypted@.take(12), encrypted@.skip(12)) == Some(
                p@,
            ),
            r matches Err(e) ==> e is Decryption,
            forall|n: Seq<u8>, p: Seq<u8>|
                n.len() == 12 && sealable(p.len()) && encrypted@ == n + chacha_seal(self.key(), n, p)
                    ==> r is Ok && r->Ok_0@ == p,
    {
        let compressed = match self.crypto.decrypt(encrypted) {
            Ok(c) => c,
            Err(e) => return Err(e),
        };
        match zstd_decompress(compressed.as_slice()) {
            Ok(v) => Ok(v),
            Err(e) => {
                let mut m = String::from_str("Decompression failed: ");
                m.append(e.as_str());
                Err(CryptoError::Decryption(m))
            },
        }
    }
}

} // verus!
