use vstd::prelude::*;
use vstd::arithmetic::div_mod::lemma_fundamental_div_mod;
use vstd::arithmetic::mul::lemma_mul_inequality;

use crate::channel::{offer, SendOutcome};
use crate::error::PipelineError;
use crate::sample::{pcm_from_u16, u16_to_pcm, U16_EQUILIBRIUM};

verus! {

/// Number of frames in `len` interleaved samples of `channels` channels; a trailing partial
/// frame counts as a frame.
pub open spec fn frame_count(len: nat, channels: nat) -> nat
    recommends
        channels > 0,
{
    if len % channels == 0 {
        len / channels
    } else {
        len / channels + 1
    }
}

/// The first channel of every frame of an interleaved `i16` buffer.
pub open spec fn first_channel(data: Seq<i16>, channels: nat) -> Seq<i16> {
    Seq::new(frame_count(data.len(), channels), |i: int| data[i * channels])
}

/// The first channel of every frame of an interleaved `u16` buffer, in canonical PCM.
pub open spec fn first_channel_u16(data: Seq<u16>, channels: nat) -> Seq<i16> {
    Seq::new(frame_count(data.len(), channels), |i: int| u16_to_pcm(data[i * channels]) as i16)
}

/// The start of every frame lies inside the buffer.
proof fn lemma_frame_start_in_bounds(k: int, ch: int, len: int)
    requires
        ch > 0,
        len >= 0,
        0 <= k < frame_count(len as nat, ch as nat),
    ensures
        k * ch < len,
{
    lemma_fundamental_div_mod(len, ch);
    let q = len / ch;
    if len % ch == 0 {
        lemma_mul_inequality(k + 1, q, ch);
        assert((k + 1) * ch == k * ch + ch) by (nonlinear_arith);
    } else {
        lemma_mul_inequality(k, q, ch);
        assert(q * ch == ch * q) by (nonlinear_arith);
    }
}

/// Number of frames in a buffer, computed without overflow.
fn count_frames(len: usize, ch: usize) -> (n: usize)
    requires
        ch > 0,
    ensures
        n as nat == frame_count(len as nat, ch as nat),
{
    if len % ch == 0 {
        len / ch
    } else {
        proof {
            lemma_fundamental_div_mod(len as int, ch as int);
            assert((len / ch) * ch <= len) by (nonlinear_arith)
                requires len as int == ch * (len / ch) + len % ch, len % ch >= 0;
            assert(len / ch < len) by (nonlinear_arith)
                requires ch > 0, len % ch != 0, len as int == ch * (len / ch) + len % ch, len % ch >= 0, len / ch >= 0;
        }
        len / ch + 1
    }
}

proof fn lemma_whole_frames(n: nat, ch: nat)
    requires
        ch > 0,
    ensures
        frame_count(n * ch, ch) == n,
{
    vstd::arithmetic::div_mod::lemma_mod_multiples_basic(n as int, ch as int);
    vstd::arithmetic::div_mod::lemma_div_multiples_vanish(n as int, ch as int);
    assert(n * ch == ch * n) by (nonlinear_arith);
}

/// Silence law for signed devices: `n` frames of silence, over any number of channels,
/// capture as `n` canonical samples of silence.
pub proof fn lemma_silence_i16(data: Seq<i16>, channels: nat, n: nat)
    requires
        channels > 0,
        data.len() == n * channels,
        forall|i: int| 0 <= i < data.len() ==> data[i] == 0,
    ensures
        first_channel(data, channels).len() == n,
        forall|i: int| 0 <= i < n ==> #[trigger] first_channel(data, channels)[i] == 0,
{
    lemma_whole_frames(n, channels);
    assert forall|i: int| 0 <= i < n implies #[trigger] first_channel(data, channels)[i] == 0 by {
        lemma_frame_start_in_bounds(i, channels as int, data.len() as int);
    }
}

/// Silence law for unsigned devices: `n` frames of the unsigned equilibrium, over any number
/// of channels, capture as `n` canonical samples of silence.
pub proof fn lemma_silence_u16(data: Seq<u16>, channels: nat, n: nat)
    requires
        channels > 0,
        data.len() == n * channels,
        forall|i: int| 0 <= i < data.len() ==> data[i] == U16_EQUILIBRIUM,
    ensures
        first_channel_u16(data, channels).len() == n,
        forall|i: int| 0 <= i < n ==> #[trigger] first_channel_u16(data, channels)[i] == 0,
{
    lemma_whole_frames(n, channels);
    assert forall|i: int| 0 <= i < n implies #[trigger] first_channel_u16(data, channels)[i] == 0 by {
        lemma_frame_start_in_bounds(i, channels as int, data.len() as int);
    }
}

/// Turns one delivered buffer of interleaved `i16` frames into a canonical mono chunk by
/// keeping the first channel of each frame.
pub fn capture_chunk_i16(data: &[i16], channels: u16) -> (r: Vec<i16>)
    requires
        channels > 0,
    ensures
        r@ == first_channel(data@, channels as nat),
{
    let ch = channels as usize;
    let len = data.len();
    let n = count_frames(len, ch);
    let mut out: Vec<i16> = Vec::new();
    let mut k: usize = 0;
    while k < n
        invariant
            ch == channels as usize,
            ch > 0,
            len == data@.len(),
            n as nat == frame_count(len as nat, ch as nat),
            k <= n,
            out@.len() == k,
            out@ == Seq::new(k as nat, |i: int| data@[i * ch]),
        decreases n - k,
    {
        proof {
            lemma_frame_start_in_bounds(k as int, ch as int, len as int);
        }
        let idx = k * ch;
        out.push(data[idx]);
        assert(out@ =~= Seq::new((k + 1) as nat, |i: int| data@[i * ch]));
        k = k + 1;
    }
    assert(out@ =~= first_channel(data@, channels as nat));
    out
}

/// Turns one delivered buffer of interleaved `u16` frames into a canonical mono chunk by
/// keeping the first channel of each frame, shifted into signed form.
pub fn capture_chunk_u16(data: &[u16], channels: u16) -> (r: Vec<i16>)
    requires
        channels > 0,
    ensures
        r@ == first_channel_u16(data@, channels as nat),
{
    let ch = channels as usize;
    let len = data.len();
    let n = count_frames(len, ch);
    let mut out: Vec<i16> = Vec::new();
    let mut k: usize = 0;
    while k < n
        invariant
            ch == channels as usize,
            ch > 0,
            len == data@.len(),
            n as nat == frame_count(len as nat, ch as nat),
            k <= n,
            out@.len() == k,
            out@ == Seq::new(k as nat, |i: int| u16_to_pcm(data@[i * ch]) as i16),
        decreases n - k,
    {
        proof {
            lemma_frame_start_in_bounds(k as int, ch as int, len as int);
        }
        let idx = k * ch;
        out.push(pcm_from_u16(data[idx]));
        assert(out@ =~= Seq::new((k + 1) as nat, |i: int| u16_to_pcm(data@[i * ch]) as i16));
        k = k + 1;
    }
    assert(out@ =~= first_channel_u16(data@, channels as nat));
    out
}

/// What became of one captured chunk.
#[derive(Clone, Copy, Debug, PartialEq, Eq, Structural)]
pub enum Delivery {
    /// The consumer will receive the chunk.
    Delivered,
    /// The channel was full and the chunk was dropped: capture favours fresh audio over
    /// complete audio, and never stalls the device callback.
    Dropped,
}

/// The relay's verdict on the outcome of offering a chunk to the consumer's channel.
pub fn delivery_of(outcome: SendOutcome) -> (r: Result<Delivery, PipelineError>)
    ensures
        outcome == SendOutcome::Sent ==> r == Ok::<Delivery, PipelineError>(Delivery::Delivered),
        outcome == SendOutcome::Full ==> r == Ok::<Delivery, PipelineError>(Delivery::Dropped),
        outcome == SendOutcome::Disconnected ==> r == Err::<Delivery, PipelineError>(
            PipelineError::ChannelClosed,
        ),
{
    match outcome {
        SendOutcome::Sent => Ok(Delivery::Delivered),
        SendOutcome::Full => Ok(Delivery::Dropped),
        SendOutcome::Disconnected => Err(PipelineError::ChannelClosed),
    }
}

/// Offers one chunk to the consumer without blocking. Whatever the channel does, the
/// only failure is a consumer that has gone away.
pub fn relay_chunk(tx: &crossbeam::channel::Sender<Vec<i16>>, chunk: Vec<i16>) -> (r: Result<
    Delivery,
    PipelineError,
>)
    ensures
        r is Err ==> r == Err::<Delivery, PipelineError>(PipelineError::ChannelClosed),
{
    delivery_of(offer(tx, chunk))
}

/// What the capture side's run loop does next.
#[derive(Clone, Debug, PartialEq, Eq)]
pub enum CaptureAction {
    /// Keep the input stream open.
    KeepOpen,
    /// The recognizer is done: stop the stream.
    Close,
    /// Stop the stream and report the failure to the coordinator.
    Fail(PipelineError),
}

/// The capture loop's decision. A device fault, with its detail, ends the session at
/// once. Once the recognizer has finished, the stream closes normally, even though its
/// channel is then gone. A consumer that vanished while still expected is a session
/// failure.
pub fn capture_action(stream_fault: Option<String>, consumer_gone: bool, transcribing: bool) -> (r:
    CaptureAction)
    ensures
        stream_fault matches Some(d) ==> r == CaptureAction::Fail(PipelineError::BackendError(d)),
        stream_fault is None && !transcribing ==> r == CaptureAction::Close,
        stream_fault is None && transcribing && consumer_gone ==> r == CaptureAction::Fail(
            PipelineError::ChannelClosed,
        ),
        stream_fault is None && transcribing && !consumer_gone ==> r == CaptureAction::KeepOpen,
{
    match stream_fault {
        Some(d) => CaptureAction::Fail(PipelineError::BackendError(d)),
        None => {
            if !transcribing {
                CaptureAction::Close
            } else if consumer_gone {
                CaptureAction::Fail(PipelineError::ChannelClosed)
            } else {
                CaptureAction::KeepOpen
            }
        },
    }
}

} // verus!
