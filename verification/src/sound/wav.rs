//! Sounds as files: 16 bit samples of one channel, framed as a WAVE file.

use vstd::prelude::*;

verus! {

/// Samples a second.
pub const SAMPLE_RATE: u32 = 44100;

/// The most samples that a file can hold: the lengths in its header are
/// numbers of bytes in 32 bits.
pub const MAX_SAMPLES: usize = 0x7fffffed;

/// The number of bytes before the samples.
pub const HEADER_LEN: usize = 44;

/// `x` in two bytes, the low one first.
pub open spec fn le16(x: int) -> Seq<u8> {
    seq![(x % 256) as u8, (x / 256 % 256) as u8]
}

/// `x` in four bytes, the lowest first.
pub open spec fn le32(x: int) -> Seq<u8> {
    seq![
        (x % 256) as u8,
        (x / 256 % 256) as u8,
        (x / 65536 % 256) as u8,
        (x / 16777216 % 256) as u8,
    ]
}

/// A sample as the unsigned number with the same sixteen bits.
pub open spec fn bits_of(sample: i16) -> int {
    if sample >= 0 {
        sample as int
    } else {
        sample + 65536
    }
}

/// The samples one after the other, each in two bytes.
pub open spec fn pcm(samples: Seq<i16>) -> Seq<u8>
    decreases samples.len(),
{
    if samples.len() == 0 {
        Seq::empty()
    } else {
        pcm(samples.drop_last()) + le16(bits_of(samples.last()))
    }
}

/// What stands before `count` samples: the file is marked as RIFF and
/// WAVE; its one format chunk says plain samples of one channel, sixteen
/// bits each, and their rate; its data chunk is as long as the samples.
pub open spec fn header(count: int) -> Seq<u8> {
    seq![0x52u8, 0x49u8, 0x46u8, 0x46u8] + le32(36 + 2 * count) + seq![
        0x57u8,
        0x41u8,
        0x56u8,
        0x45u8,
    ] + seq![0x66u8, 0x6du8, 0x74u8, 0x20u8] + le32(16) + le16(1) + le16(1) + le32(
        SAMPLE_RATE as int,
    ) + le32(2 * SAMPLE_RATE) + le16(2) + le16(16) + seq![0x64u8, 0x61u8, 0x74u8, 0x61u8]
        + le32(2 * count)
}

/// The file that holds `samples`.
pub open spec fn wave_file(samples: Seq<i16>) -> Seq<u8> {
    header(samples.len() as int) + pcm(samples)
}

fn push_le16(out: &mut Vec<u8>, x: u16)
    ensures
        final(out)@ == old(out)@ + le16(x as int),
{
    out.push((x % 256) as u8);
    out.push((x / 256 % 256) as u8);
    assert(out@ == old(out)@ + le16(x as int));
}

fn push_le32(out: &mut Vec<u8>, x: u32)
    ensures
        final(out)@ == old(out)@ + le32(x as int),
{
    out.push((x % 256) as u8);
    out.push((x / 256 % 256) as u8);
    out.push((x / 65536 % 256) as u8);
    out.push((x / 16777216 % 256) as u8);
    assert(out@ == old(out)@ + le32(x as int));
}

fn push_tag(out: &mut Vec<u8>, a: u8, b: u8, c: u8, d: u8)
    ensures
        final(out)@ == old(out)@ + seq![a, b, c, d],
{
    out.push(a);
    out.push(b);
    out.push(c);
    out.push(d);
    assert(out@ == old(out)@ + seq![a, b, c, d]);
}

/// The length of what `pcm` gives.
pub proof fn lemma_pcm_len(samples: Seq<i16>)
    ensures
        pcm(samples).len() == 2 * samples.len(),
    decreases samples.len(),
{
    if samples.len() > 0 {
        lemma_pcm_len(samples.drop_last());
    }
}

/// Frames `samples` as a file.
pub fn encode(samples: &Vec<i16>) -> (file: Vec<u8>)
    requires
        samples@.len() <= MAX_SAMPLES,
    ensures
        file@ == wave_file(samples@),
        file@.len() == HEADER_LEN + 2 * samples@.len(),
{
    let n: usize = samples.len();
    let data_len: u32 = 2 * (n as u32);
    let mut out: Vec<u8> = Vec::new();
    push_tag(&mut out, 0x52, 0x49, 0x46, 0x46);
    push_le32(&mut out, 36 + data_len);
    push_tag(&mut out, 0x57, 0x41, 0x56, 0x45);
    push_tag(&mut out, 0x66, 0x6d, 0x74, 0x20);
    push_le32(&mut out, 16);
    push_le16(&mut out, 1);
    push_le16(&mut out, 1);
    push_le32(&mut out, SAMPLE_RATE);
    push_le32(&mut out, 2 * SAMPLE_RATE);
    push_le16(&mut out, 2);
    push_le16(&mut out, 16);
    push_tag(&mut out, 0x64, 0x61, 0x74, 0x61);
    push_le32(&mut out, data_len);
    assert(out@ == header(n as int));
    assert(out@.len() == HEADER_LEN);
    let mut i: usize = 0;
    while i < n
        invariant
            i <= n,
            n == samples@.len(),
            out@ == header(n as int) + pcm(samples@.take(i as int)),
        decreases n - i,
    {
        let sample: i16 = samples[i];
        let bits: u16 = if sample >= 0 {
            sample as u16
        } else {
            (sample as i32 + 65536) as u16
        };
        proof {
            let next = samples@.take(i + 1);
            assert(next.drop_last() == samples@.take(i as int));
            assert(next.last() == sample);
            assert(header(n as int) + pcm(samples@.take(i as int)) + le16(bits as int) == header(
                n as int,
            ) + pcm(next));
        }
        push_le16(&mut out, bits);
        i += 1;
    }
    proof {
        assert(samples@.take(n as int) == samples@);
        lemma_pcm_len(samples@);
    }
    out
}

} // verus!
