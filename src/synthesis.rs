use vstd::prelude::*;

use crate::channel::{offer, SendOutcome};
use crate::error::PipelineError;

verus! {

/// The codec's output per packet and the playback frame it is cut into.
#[derive(Clone, Copy, Debug, PartialEq, Eq, Structural)]
pub struct FrameLayout {
    /// Interleaved samples that one packet decodes to.
    pub packet_samples: usize,
    /// Interleaved samples in one playback frame.
    pub frame_samples: usize,
}

impl FrameLayout {
    /// A packet is a whole, non-zero number of frames.
    pub open spec fn wf(&self) -> bool {
        &&& self.frame_samples > 0
        &&& self.packet_samples > 0
        &&& self.packet_samples % self.frame_samples == 0
    }

    /// Frames per packet.
    pub open spec fn ratio(&self) -> nat {
        (self.packet_samples / self.frame_samples) as nat
    }
}

/// What decoding one packet produced, in stream order.
#[derive(Clone, Debug)]
pub enum PacketDecode {
    /// The interleaved samples of the packet.
    Decoded(Vec<i16>),
    /// The packet could not be decoded; the stream goes on with the next one.
    Failed,
}

/// The contents of a list of frames.
pub open spec fn frames_view(v: Seq<Vec<i16>>) -> Seq<Seq<i16>> {
    v.map_values(|f: Vec<i16>| f@)
}

/// A buffer cut into consecutive frames of `size` samples; a trailing partial frame is left
/// out.
pub open spec fn split_frames(buf: Seq<i16>, size: nat) -> Seq<Seq<i16>> {
    Seq::new(buf.len() / size, |i: int| buf.subrange(i * size, i * size + size))
}

/// The frames that one decoded packet yields: none for a failed packet or one that decoded
/// to fewer or more samples than a full packet.
pub open spec fn packet_frames(d: PacketDecode, layout: FrameLayout) -> Seq<Seq<i16>> {
    match d {
        PacketDecode::Decoded(b) => if b@.len() == layout.packet_samples {
            split_frames(b@, layout.frame_samples as nat)
        } else {
            Seq::empty()
        },
        PacketDecode::Failed => Seq::empty(),
    }
}

/// The frames that a stream of decoded packets yields, in order.
pub open spec fn stream_frames(ds: Seq<PacketDecode>, layout: FrameLayout) -> Seq<Seq<i16>>
    decreases ds.len(),
{
    if ds.len() == 0 {
        Seq::empty()
    } else {
        stream_frames(ds.drop_last(), layout) + packet_frames(ds.last(), layout)
    }
}

/// The samples of a decoded packet; nothing for a failed one.
pub open spec fn decoded_samples(d: PacketDecode) -> Seq<i16> {
    match d {
        PacketDecode::Decoded(b) => b@,
        PacketDecode::Failed => Seq::empty(),
    }
}

/// A packet that decoded to exactly one full codec buffer.
pub open spec fn is_full_packet(d: PacketDecode, layout: FrameLayout) -> bool {
    d is Decoded && decoded_samples(d).len() == layout.packet_samples
}

/// The frames of two consecutive stretches of a stream are those of the first followed by
/// those of the second.
pub proof fn lemma_stream_concat(a: Seq<PacketDecode>, b: Seq<PacketDecode>, layout: FrameLayout)
    ensures
        stream_frames(a + b, layout) == stream_frames(a, layout) + stream_frames(b, layout),
    decreases b.len(),
{
    if b.len() == 0 {
        assert(a + b =~= a);
        assert(stream_frames(a, layout) + stream_frames(b, layout) =~= stream_frames(a, layout));
    } else {
        assert((a + b).drop_last() =~= a + b.drop_last());
        assert((a + b).last() == b.last());
        lemma_stream_concat(a, b.drop_last(), layout);
        assert(stream_frames(a + b, layout) =~= stream_frames(a, layout) + stream_frames(
            b,
            layout,
        ));
    }
}

/// Packet-level decode failure: a packet that fails to decode in the middle of a stream
/// contributes nothing, and every packet after it still reaches playback as if the failed
/// one had never been there.
pub proof fn lemma_failed_packet_skipped(
    before: Seq<PacketDecode>,
    after: Seq<PacketDecode>,
    layout: FrameLayout,
)
    ensures
        stream_frames(before + seq![PacketDecode::Failed] + after, layout) == stream_frames(
            before,
            layout,
        ) + stream_frames(after, layout),
{
    let failed = seq![PacketDecode::Failed];
    lemma_stream_concat(before + failed, after, layout);
    lemma_stream_concat(before, failed, layout);
    assert(failed.drop_last() =~= Seq::<PacketDecode>::empty());
    assert(stream_frames(failed.drop_last(), layout) =~= Seq::<Seq<i16>>::empty());
    assert(failed.last() == PacketDecode::Failed);
    assert(packet_frames(failed.last(), layout) =~= Seq::<Seq<i16>>::empty());
    assert(stream_frames(failed, layout) =~= Seq::<Seq<i16>>::empty());
    assert(stream_frames(before + failed, layout) =~= stream_frames(before, layout));
}

/// Re-chunking law: a stream of full packets yields exactly `ratio` frames per packet, each
/// a consecutive slice of its packet's samples, in stream order.
pub proof fn lemma_full_packets_rechunk(ds: Seq<PacketDecode>, layout: FrameLayout)
    requires
        layout.wf(),
        forall|i: int| 0 <= i < ds.len() ==> is_full_packet(#[trigger] ds[i], layout),
    ensures
        stream_frames(ds, layout).len() == ds.len() * layout.ratio(),
        forall|k: int, j: int|
            0 <= k < ds.len() && 0 <= j < layout.ratio() ==> #[trigger] stream_frames(
                ds,
                layout,
            )[k * layout.ratio() + j] == decoded_samples(ds[k]).subrange(
                j * layout.frame_samples,
                j * layout.frame_samples + layout.frame_samples,
            ),
    decreases ds.len(),
{
    let r = layout.ratio() as int;
    let f = layout.frame_samples as int;
    if ds.len() > 0 {
        let init = ds.drop_last();
        assert forall|i: int| 0 <= i < init.len() implies is_full_packet(#[trigger] init[i], layout) by {
            assert(init[i] == ds[i]);
        }
        lemma_full_packets_rechunk(init, layout);
        let n = ds.len() as int;
        assert(is_full_packet(ds[n - 1], layout));
        let prev = stream_frames(init, layout);
        let last = packet_frames(ds.last(), layout);
        assert(last.len() == r);
        assert(prev.len() == (n - 1) * r);
        assert((n - 1) * r + r == n * r) by (nonlinear_arith);
        assert forall|k: int, j: int| 0 <= k < ds.len() && 0 <= j < r implies #[trigger] stream_frames(
            ds,
            layout,
        )[k * r + j] == decoded_samples(ds[k]).subrange(j * f, j * f + f) by {
            if k < n - 1 {
                assert(k * r + j < (n - 1) * r) by (nonlinear_arith)
                    requires k < n - 1, j < r, k >= 0, j >= 0;
                assert(init[k] == ds[k]);
                assert(prev[k * r + j] == decoded_samples(init[k]).subrange(j * f, j * f + f));
            } else {
                assert(k * r + j == (n - 1) * r + j);
            }
        }
    }
}

/// Cuts a decoded buffer into consecutive frames of `size` samples.
pub fn split_into_frames(buf: &Vec<i16>, size: usize) -> (r: Vec<Vec<i16>>)
    requires
        size > 0,
    ensures
        frames_view(r@) == split_frames(buf@, size as nat),
{
    let len = buf.len();
    let n = len / size;
    let mut out: Vec<Vec<i16>> = Vec::new();
    let mut k: usize = 0;
    while k < n
        invariant
            size > 0,
            len == buf@.len(),
            n == len / size,
            k <= n,
            frames_view(out@) =~= Seq::new(
                k as nat,
                |i: int| buf@.subrange(i * size, i * size + size),
            ),
        decreases n - k,
    {
        proof {
            assert((k + 1) * size <= n * size) by (nonlinear_arith)
                requires k < n;
            vstd::arithmetic::div_mod::lemma_fundamental_div_mod(len as int, size as int);
            assert(n * size <= len) by (nonlinear_arith)
                requires n == len / size, size > 0, len == size * (len / size) + len % size, len % size >= 0;
            assert((k + 1) * size == k * size + size) by (nonlinear_arith);
        }
        let start = k * size;
        let mut frame: Vec<i16> = Vec::new();
        let mut j: usize = 0;
        while j < size
            invariant
                start == k * size,
                len == buf@.len(),
                start + size <= len,
                j <= size,
                frame@ =~= buf@.subrange(start as int, start + j),
            decreases size - j,
        {
            frame.push(buf[start + j]);
            j = j + 1;
        }
        let ghost prev = out@;
        out.push(frame);
        proof {
            assert(frames_view(out@) =~= frames_view(prev).push(frame@));
        }
        k = k + 1;
    }
    out
}

/// The frames that one decoded packet yields for playback.
pub fn frames_from_decode(d: &PacketDecode, layout: FrameLayout) -> (r: Vec<Vec<i16>>)
    requires
        layout.wf(),
    ensures
        frames_view(r@) == packet_frames(*d, layout),
{
    match d {
        PacketDecode::Decoded(b) => {
            if b.len() == layout.packet_samples {
                split_into_frames(b, layout.frame_samples)
            } else {
                let r: Vec<Vec<i16>> = Vec::new();
                assert(frames_view(r@) =~= Seq::empty());
                r
            }
        },
        PacketDecode::Failed => {
            let r: Vec<Vec<i16>> = Vec::new();
            assert(frames_view(r@) =~= Seq::empty());
            r
        },
    }
}

/// Runs the re-chunking stage over a whole stream of decoded packets, in stream order.
pub fn decode_stream(ds: &Vec<PacketDecode>, layout: FrameLayout) -> (r: Vec<Vec<i16>>)
    requires
        layout.wf(),
    ensures
        frames_view(r@) == stream_frames(ds@, layout),
{
    let mut out: Vec<Vec<i16>> = Vec::new();
    let mut i: usize = 0;
    while i < ds.len()
        invariant
            layout.wf(),
            i <= ds@.len(),
            frames_view(out@) == stream_frames(ds@.take(i as int), layout),
        decreases ds@.len() - i,
    {
        let mut frames = frames_from_decode(&ds[i], layout);
        let ghost prev = out@;
        let ghost added = frames@;
        out.append(&mut frames);
        proof {
            assert(ds@.take(i + 1).drop_last() =~= ds@.take(i as int));
            assert(ds@.take(i + 1).last() == ds@[i as int]);
            assert(frames_view(out@) =~= frames_view(prev) + frames_view(added));
        }
        i = i + 1;
    }
    assert(ds@.take(ds@.len() as int) =~= ds@);
    out
}

/// The forwarding stage's verdict on one offered frame, given how many frames were
/// dropped before it: a sent frame changes nothing, a frame that found the channel full is
/// dropped and counted, and a playback side that has gone away ends the stream.
pub fn after_offer(outcome: SendOutcome, dropped: usize) -> (r: Result<usize, PipelineError>)
    requires
        dropped < usize::MAX,
    ensures
        outcome == SendOutcome::Sent ==> r == Ok::<usize, PipelineError>(dropped),
        outcome == SendOutcome::Full ==> r == Ok::<usize, PipelineError>((dropped + 1) as usize),
        outcome == SendOutcome::Disconnected ==> r == Err::<usize, PipelineError>(
            PipelineError::ChannelClosed,
        ),
{
    match outcome {
        SendOutcome::Sent => Ok(dropped),
        SendOutcome::Full => Ok(dropped + 1),
        SendOutcome::Disconnected => Err(PipelineError::ChannelClosed),
    }
}

/// Offers each frame to the playback channel without blocking, in order, and goes on past
/// a frame that finds the channel full (that frame is dropped). The result counts the
/// dropped frames; the only failure is a playback side that has gone away, after which
/// nothing more is offered. With no frames nothing is offered and nothing fails.
pub fn forward_frames(tx: &crossbeam::channel::Sender<Vec<i16>>, frames: Vec<Vec<i16>>) -> (r:
    Result<usize, PipelineError>)
    ensures
        frames@.len() == 0 ==> r == Ok::<usize, PipelineError>(0usize),
        r is Ok ==> r->Ok_0 <= frames@.len(),
        r is Err ==> r == Err::<usize, PipelineError>(PipelineError::ChannelClosed),
{
    let n = frames.len();
    let mut dropped: usize = 0;
    let mut i: usize = 0;
    while i < n
        invariant
            n == frames@.len(),
            i <= n,
            dropped <= i,
        decreases n - i,
    {
        match after_offer(offer(tx, frames[i].clone()), dropped) {
            Ok(d) => {
                dropped = d;
            },
            Err(e) => {
                return Err(e);
            },
        }
        i = i + 1;
    }
    Ok(dropped)
}

} // verus!
