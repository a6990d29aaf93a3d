//! The sounds of the metronome: short clips, each a WAVE file in memory.

pub mod wav;

use std::sync::Arc;
use vstd::prelude::*;
use crate::sound::wav::{encode, wave_file};

verus! {

/// `std::io::Error`, made known to the verifier as a type. Nothing is
/// said of its values, and none is ever made here.
#[verifier::external_type_specification]
#[verifier::external_body]
pub struct ExIoError(std::io::Error);

/// A clip that can be handed out any number of times without being
/// copied.
pub struct Sound(Arc<Vec<u8>>);

impl View for Sound {
    type V = Seq<u8>;

    closed spec fn view(&self) -> Seq<u8> {
        self.0@
    }
}

impl AsRef<[u8]> for Sound {
    fn as_ref(&self) -> (bytes: &[u8])
        ensures
            bytes@ == self@,
    {
        self.0.as_slice()
    }
}

impl Sound {
    /// The clip that holds `v`.
    pub fn get(v: Vec<u8>) -> (r: std::io::Result<Sound>)
        ensures
            r matches Ok(sound) && sound@ == v@,
    {
        Ok(Sound(Arc::new(v)))
    }

    /// The clip once more; the bytes are shared.
    pub fn share(&self) -> (other: Sound)
        ensures
            other@ == self@,
    {
        Sound(self.0.clone())
    }
}

// ---------------------------------------------------------------------
// The clips
// ---------------------------------------------------------------------

/// Sample `i` of a tone of `len` samples that fades evenly from `peak`
/// to nothing and changes its sign every `half_period` samples.
pub open spec fn tone_sample(half_period: int, len: int, peak: int, i: int) -> int {
    let level = peak * (len - i) / len;
    if (i / half_period) % 2 == 0 {
        level
    } else {
        -level
    }
}

/// The samples of such a tone.
pub open spec fn tone_samples(half_period: int, len: int, peak: int) -> Seq<i16> {
    Seq::new(len as nat, |i: int| tone_sample(half_period, len, peak, i) as i16)
}

/// Sample `i` of `samples`; silence behind their end.
pub open spec fn sample_at(samples: Seq<i16>, i: int) -> int {
    if 0 <= i < samples.len() {
        samples[i] as int
    } else {
        0
    }
}

/// `x`, or the nearest value that a sample can take.
pub open spec fn clipped(x: int) -> int {
    if x > i16::MAX {
        i16::MAX as int
    } else if x < i16::MIN {
        i16::MIN as int
    } else {
        x
    }
}

/// Two clips sounding at once: as long as the longer of them, each
/// sample the sum of the two, clipped.
pub open spec fn mixed(a: Seq<i16>, b: Seq<i16>) -> Seq<i16> {
    Seq::new(
        if a.len() >= b.len() {
            a.len()
        } else {
            b.len()
        },
        |i: int| clipped(sample_at(a, i) + sample_at(b, i)) as i16,
    )
}

pub open spec fn kick_samples() -> Seq<i16> {
    tone_samples(200, 4410, 28000)
}

pub open spec fn hi_hat_samples() -> Seq<i16> {
    tone_samples(3, 1323, 12000)
}

pub open spec fn sticks_samples() -> Seq<i16> {
    tone_samples(18, 882, 20000)
}

pub open spec fn kick_hi_hat_samples() -> Seq<i16> {
    mixed(kick_samples(), hi_hat_samples())
}

/// A fading tone: see `tone_sample`.
pub fn tone(half_period: u32, len: u32, peak: u16) -> (samples: Vec<i16>)
    requires
        half_period >= 1,
        len >= 1,
        peak <= i16::MAX,
    ensures
        samples@ == tone_samples(half_period as int, len as int, peak as int),
{
    let mut samples: Vec<i16> = Vec::new();
    let mut i: u32 = 0;
    while i < len
        invariant
            i <= len,
            half_period >= 1,
            len >= 1,
            peak <= i16::MAX,
            samples@ == tone_samples(half_period as int, len as int, peak as int).take(i as int),
        decreases len - i,
    {
        let left: u64 = (len - i) as u64;
        let ghost product: int = peak as int * left as int;
        assert(0 <= product <= peak as int * len as int <= 0x7fff * 0xffffffff)
            by (nonlinear_arith)
            requires
                product == peak as int * left as int,
                0 <= left <= len,
                0 <= peak <= 0x7fff,
                len <= 0xffffffff,
        ;
        let level: u64 = peak as u64 * left / len as u64;
        assert(level <= peak) by (nonlinear_arith)
            requires
                level as int == product / (len as int),
                0 <= product <= peak as int * len as int,
                len >= 1,
        ;
        let sample: i16 = if (i / half_period) % 2 == 0 {
            level as i16
        } else {
            -(level as i16)
        };
        samples.push(sample);
        assert(samples@ == tone_samples(half_period as int, len as int, peak as int).take(
            i + 1,
        ));
        i += 1;
    }
    assert(tone_samples(half_period as int, len as int, peak as int).take(len as int)
        == tone_samples(half_period as int, len as int, peak as int));
    samples
}

/// Two clips sounding at once: see `mixed`.
pub fn mix(a: &Vec<i16>, b: &Vec<i16>) -> (samples: Vec<i16>)
    ensures
        samples@ == mixed(a@, b@),
{
    let n: usize = if a.len() >= b.len() {
        a.len()
    } else {
        b.len()
    };
    let mut samples: Vec<i16> = Vec::new();
    let mut i: usize = 0;
    while i < n
        invariant
            i <= n,
            n == mixed(a@, b@).len(),
            samples@ == mixed(a@, b@).take(i as int),
        decreases n - i,
    {
        let x: i32 = if i < a.len() {
            a[i] as i32
        } else {
            0
        };
        let y: i32 = if i < b.len() {
            b[i] as i32
        } else {
            0
        };
        let sum: i32 = x + y;
        let sample: i16 = if sum > i16::MAX as i32 {
            i16::MAX
        } else if sum < i16::MIN as i32 {
            i16::MIN
        } else {
            sum as i16
        };
        samples.push(sample);
        assert(samples@ == mixed(a@, b@).take(i + 1));
        i += 1;
    }
    assert(mixed(a@, b@).take(n as int) == mixed(a@, b@));
    samples
}

/// The kick drum: a low tone of a tenth of a second.
pub fn kick() -> (file: Vec<u8>)
    ensures
        file@ == wave_file(kick_samples()),
{
    encode(&tone(200, 4410, 28000))
}

/// The hi-hat: a high tone, short and soft.
pub fn hi_hat() -> (file: Vec<u8>)
    ensures
        file@ == wave_file(hi_hat_samples()),
{
    encode(&tone(3, 1323, 12000))
}

/// Kick drum and hi-hat at once.
pub fn kick_hi_hat() -> (file: Vec<u8>)
    ensures
        file@ == wave_file(kick_hi_hat_samples()),
{
    let low = tone(200, 4410, 28000);
    let high = tone(3, 1323, 12000);
    encode(&mix(&low, &high))
}

/// The sticks: a tone in between, shorter still.
pub fn sticks() -> (file: Vec<u8>)
    ensures
        file@ == wave_file(sticks_samples()),
{
    encode(&tone(18, 882, 20000))
}

/// The clips in the order of the numbers of their sounds: kick drum,
/// kick drum with hi-hat, hi-hat, sticks. The pause has none.
pub fn clips() -> (all: Vec<Sound>)
    ensures
        all@.len() == 4,
        all@[0]@ == wave_file(kick_samples()),
        all@[1]@ == wave_file(kick_hi_hat_samples()),
        all@[2]@ == wave_file(hi_hat_samples()),
        all@[3]@ == wave_file(sticks_samples()),
{
    let mut all: Vec<Sound> = Vec::new();
    all.push(Sound::get(kick()).unwrap());
    all.push(Sound::get(kick_hi_hat()).unwrap());
    all.push(Sound::get(hi_hat()).unwrap());
    all.push(Sound::get(sticks()).unwrap());
    all
}

} // verus!
