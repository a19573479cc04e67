//! WAV encoding of 16-bit mono PCM, as uploaded to cloud speech services.

use vstd::prelude::*;

verus! {

/// The little-endian bytes of the low 16 bits of `x`.
pub open spec fn le16(x: nat) -> Seq<u8> {
    seq![(x % 256) as u8, ((x / 256) % 256) as u8]
}

/// The little-endian bytes of the low 32 bits of `x`.
pub open spec fn le32(x: nat) -> Seq<u8> {
    seq![
        (x % 256) as u8,
        ((x / 0x100) % 256) as u8,
        ((x / 0x1_0000) % 256) as u8,
        ((x / 0x100_0000) % 256) as u8,
    ]
}

/// The samples as little-endian 16-bit words.
pub open spec fn pcm_bytes(samples: Seq<i16>) -> Seq<u8>
    decreases samples.len(),
{
    if samples.len() == 0 {
        Seq::empty()
    } else {
        pcm_bytes(samples.drop_last()) + le16(
            (if samples.last() < 0 { samples.last() + 0x1_0000 } else { samples.last() as int }) as nat,
        )
    }
}

/// The 44-byte header of a 16-bit mono PCM WAV file with `n` samples at
/// `rate` Hz: RIFF (size `36 + 2n`), WAVE, a 16-byte `fmt ` chunk (PCM,
/// one channel, the rate, byte rate `2 * rate`, block align 2, 16 bits)
/// and the `data` chunk size `2n`; sizes are written modulo `2^32`.
pub open spec fn wav_header(n: nat, rate: nat) -> Seq<u8> {
    seq![0x52u8, 0x49, 0x46, 0x46] + le32(36 + 2 * n) + seq![0x57u8, 0x41, 0x56, 0x45]
        + seq![0x66u8, 0x6d, 0x74, 0x20] + le32(16) + le16(1) + le16(1) + le32(rate) + le32(2 * rate)
        + le16(2) + le16(16) + seq![0x64u8, 0x61, 0x74, 0x61] + le32(2 * n)
}

fn push_le32(out: &mut Vec<u8>, x: u64)
    ensures
        final(out)@ == old(out)@ + le32(x as nat),
{
    out.push((x % 256) as u8);
    out.push(((x / 0x100) % 256) as u8);
    out.push(((x / 0x1_0000) % 256) as u8);
    out.push(((x / 0x100_0000) % 256) as u8);
    assert(out@ =~= old(out)@ + le32(x as nat));
}

fn push_le16(out: &mut Vec<u8>, x: u64)
    ensures
        final(out)@ == old(out)@ + le16(x as nat),
{
    out.push((x % 256) as u8);
    out.push(((x / 0x100) % 256) as u8);
    assert(out@ =~= old(out)@ + le16(x as nat));
}

fn push_tag(out: &mut Vec<u8>, a: u8, b: u8, c: u8, d: u8)
    ensures
        final(out)@ == old(out)@ + seq![a, b, c, d],
{
    out.push(a);
    out.push(b);
    out.push(c);
    out.push(d);
    assert(out@ =~= old(out)@ + seq![a, b, c, d]);
}

/// A WAV file of 16-bit mono PCM samples: the header, then the samples.
pub fn pcm16_to_wav(samples: &[i16], sample_rate: u32) -> (wav: Vec<u8>)
    requires
        2 * samples@.len() + 44 <= usize::MAX,
        2 * sample_rate <= u32::MAX,
    ensures
        wav@ == wav_header(samples@.len(), sample_rate as nat) + pcm_bytes(samples@),
{
    let n = samples.len() as u64;
    let mut wav: Vec<u8> = Vec::new();
    push_tag(&mut wav, 0x52, 0x49, 0x46, 0x46);
    push_le32(&mut wav, 36 + 2 * n);
    push_tag(&mut wav, 0x57, 0x41, 0x56, 0x45);
    push_tag(&mut wav, 0x66, 0x6d, 0x74, 0x20);
    push_le32(&mut wav, 16);
    push_le16(&mut wav, 1);
    push_le16(&mut wav, 1);
    push_le32(&mut wav, sample_rate as u64);
    push_le32(&mut wav, 2 * sample_rate as u64);
    push_le16(&mut wav, 2);
    push_le16(&mut wav, 16);
    push_tag(&mut wav, 0x64, 0x61, 0x74, 0x61);
    push_le32(&mut wav, 2 * n);
    assert(wav@ =~= wav_header(samples@.len(), sample_rate as nat));
    let ghost head = wav@;
    let mut i: usize = 0;
    while i < samples.len()
        invariant
            i <= samples.len(),
            wav@ == head + pcm_bytes(samples@.take(i as int)),
        decreases samples.len() - i,
    {
        assert(samples@.take(i + 1).drop_last() =~= samples@.take(i as int));
        let s = samples[i];
        let u: u64 = if s < 0 { (s as i64 + 0x1_0000) as u64 } else { s as u64 };
        push_le16(&mut wav, u);
        i += 1;
        assert(wav@ =~= head + pcm_bytes(samples@.take(i as int)));
    }
    assert(samples@.take(samples.len() as int) =~= samples@);
    wav
}

} // verus!
