use vstd::prelude::*;

verus! {

/// The native sample types an audio device may negotiate.
#[derive(Clone, Copy, Debug, PartialEq, Eq, Structural)]
pub enum SampleFormat {
    Int16,
    UInt16,
    Float32,
}

/// Offset between the unsigned 16-bit encoding and the signed one.
pub const U16_EQUILIBRIUM: u16 = 32768;

/// A `u16` sample in canonical signed form: the unsigned range is shifted down so that
/// its equilibrium lands on zero.
pub open spec fn u16_to_pcm(s: u16) -> int {
    s as int - 32768
}

/// A canonical sample in the unsigned 16-bit encoding.
pub open spec fn pcm_to_u16(s: i16) -> int {
    s as int + 32768
}

/// Relies on dasp_sample::conv::u16::to_i16, the conversion behind cpal's
/// `FromSample<u16> for i16`: it subtracts the unsigned equilibrium.
#[verifier::external_body]
fn u16_sample_to_i16(s: u16) -> (r: i16)
    ensures
        r as int == u16_to_pcm(s),
{
    dasp_sample::conv::u16::to_i16(s)
}

/// Relies on dasp_sample::conv::i16::to_u16, the conversion behind cpal's
/// `FromSample<i16> for u16`: it adds the unsigned equilibrium.
#[verifier::external_body]
fn i16_sample_to_u16(s: i16) -> (r: u16)
    ensures
        r as int == pcm_to_u16(s),
{
    dasp_sample::conv::i16::to_u16(s)
}

/// Converts one unsigned device sample into canonical PCM.
pub fn pcm_from_u16(s: u16) -> (r: i16)
    ensures
        r as int == u16_to_pcm(s),
{
    u16_sample_to_i16(s)
}

/// Converts one canonical PCM sample into the unsigned device encoding.
pub fn pcm_to_u16_sample(s: i16) -> (r: u16)
    ensures
        r as int == pcm_to_u16(s),
{
    i16_sample_to_u16(s)
}

/// Converts a frame of canonical PCM into the unsigned encoding of a `u16` output device,
/// when it is enqueued for playback.
pub fn frame_to_u16(frame: &[i16]) -> (r: Vec<u16>)
    ensures
        r@.len() == frame@.len(),
        forall|i: int| 0 <= i < frame@.len() ==> #[trigger] r@[i] as int == pcm_to_u16(frame@[i]),
{
    let mut out: Vec<u16> = Vec::new();
    let mut i: usize = 0;
    while i < frame.len()
        invariant
            i <= frame@.len(),
            out@.len() == i,
            forall|j: int| 0 <= j < i ==> #[trigger] out@[j] as int == pcm_to_u16(frame@[j]),
        decreases frame@.len() - i,
    {
        out.push(pcm_to_u16_sample(frame[i]));
        i = i + 1;
    }
    out
}

/// The silence value of a device sample format's integer encodings: what an output buffer
/// holds where there is nothing to play.
pub fn silence_i16() -> (r: i16)
    ensures
        r == 0,
{
    0
}

pub fn silence_u16() -> (r: u16)
    ensures
        r == U16_EQUILIBRIUM,
        u16_to_pcm(r) == 0,
{
    U16_EQUILIBRIUM
}

} // verus!
