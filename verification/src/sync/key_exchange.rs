//! Device key pairs and pairing codes.

use vstd::prelude::*;
use vstd::string::StringExecFns;
use crate::digest::{sha256, sha256_digest};
use crate::text::{all_digits, dec_padded, lemma_dec_padded, pow10, push_decimal_padded, string_of};

verus! {

broadcast use vstd::string::group_string_axioms;

/// A device's public key; the private key stays in the key store.
#[derive(Debug, Clone)]
pub struct DeviceKeyPair {
    pub device_id: String,
    pub public_key: Vec<u8>,
}

/// The little-endian `u32` of the first four bytes of `d`.
pub open spec fn le_u32(d: Seq<u8>) -> nat {
    d[0] as nat + d[1] as nat * 0x100 + d[2] as nat * 0x1_0000 + d[3] as nat * 0x100_0000
}

/// The six-digit code of a digest: its first four bytes read as a
/// little-endian number, modulo one million, zero-padded.
pub open spec fn digest_code(d: Seq<u8>) -> Seq<char> {
    dec_padded(le_u32(d) % 1_000_000, 6)
}

/// The pairing code of a device: the code of the SHA-256 digest of its
/// id's UTF-8 bytes followed by its public key.
pub open spec fn pairing_code_spec(device_id: Seq<char>, public_key: Seq<u8>) -> Seq<char> {
    digest_code(sha256(vstd::utf8::encode_utf8(device_id) + public_key))
}

/// The six-digit code of a 32-byte digest; it is always six ASCII digits.
pub fn digest_pairing_code(d: &[u8; 32]) -> (code: String)
    ensures
        code@ == digest_code(d@),
        code@.len() == 6,
        all_digits(code@),
{
    let num: u64 = d[0] as u64 + d[1] as u64 * 0x100 + d[2] as u64 * 0x1_0000 + d[3] as u64 * 0x100_0000;
    let mut out: Vec<char> = Vec::new();
    push_decimal_padded(&mut out, num % 1_000_000, 6);
    proof {
        assert(pow10(6) == 1_000_000) by {
            reveal_with_fuel(pow10, 7);
        }
        lemma_dec_padded((num % 1_000_000) as nat, 6);
    }
    assert(out@ =~= digest_code(d@));
    string_of(&out)
}

/// The pairing code for a device id and public key: six ASCII digits.
pub fn generate_pairing_code(device_id: &str, public_key: &[u8]) -> (code: String)
    ensures
        code@ == pairing_code_spec(device_id@, public_key@),
        code@.len() == 6,
        all_digits(code@),
{
    let id_bytes = device_id.as_bytes();
    let mut data: Vec<u8> = Vec::new();
    let mut i: usize = 0;
    while i < id_bytes.len()
        invariant
            i <= id_bytes.len(),
            data@ == id_bytes@.take(i as int),
        decreases id_bytes.len() - i,
    {
        data.push(id_bytes[i]);
        i += 1;
        assert(data@ =~= id_bytes@.take(i as int));
    }
    let mut j: usize = 0;
    while j < public_key.len()
        invariant
            j <= public_key.len(),
            data@ == id_bytes@ + public_key@.take(j as int),
        decreases public_key.len() - j,
    {
        data.push(public_key[j]);
        j += 1;
        assert(data@ =~= id_bytes@ + public_key@.take(j as int));
    }
    assert(id_bytes@.take(id_bytes.len() as int) =~= id_bytes@);
    assert(public_key@.take(public_key.len() as int) =~= public_key@);
    let d = sha256_digest(data.as_slice());
    digest_pairing_code(&d)
}

/// A placeholder key pair for a device: its id and an all-zero 32-byte
/// public key.
pub fn generate_device_keypair(device_id: &str) -> (k: DeviceKeyPair)
    ensures
        k.device_id@ == device_id@,
        k.public_key@ == Seq::new(32, |i: int| 0u8),
{
    let mut key: Vec<u8> = Vec::new();
    let mut i: usize = 0;
    while i < 32
        invariant
            i <= 32,
            key@ == Seq::new(i as nat, |k: int| 0u8),
        decreases 32 - i,
    {
        key.push(0u8);
        i += 1;
        assert(key@ =~= Seq::new(i as nat, |k: int| 0u8));
    }
    DeviceKeyPair { device_id: String::from_str(device_id), public_key: key }
}

} // verus!
