use vstd::prelude::*;
use std::collections::VecDeque;

use crate::channel::{poll, RecvOutcome};

verus! {

/// Samples waiting for the output device's real-time callback, already in the device's
/// sample format, together with that format's silence value.
pub struct PlaybackQueue<T> {
    pending: VecDeque<T>,
    silence: T,
}

/// How many samples the callback takes from a queue of `queued` samples for an output
/// buffer of `wanted` samples.
pub open spec fn taken(queued: nat, wanted: nat) -> nat {
    if queued < wanted {
        queued
    } else {
        wanted
    }
}

/// What the callback writes at position `i` of its output buffer: the next queued sample,
/// or silence once the queue has run dry.
pub open spec fn filled_at<T>(queued: Seq<T>, silence: T, i: int) -> T {
    if i < queued.len() {
        queued[i]
    } else {
        silence
    }
}

impl<T: Copy> PlaybackQueue<T> {
    /// The samples waiting, oldest first.
    pub closed spec fn contents(&self) -> Seq<T> {
        self.pending@
    }

    /// The format's equilibrium value, written wherever the queue cannot supply a sample.
    pub closed spec fn silence(&self) -> T {
        self.silence
    }

    /// An empty queue for a format whose silence value is `silence`.
    pub fn new(silence: T) -> (r: Self)
        ensures
            r.contents() == Seq::<T>::empty(),
            r.silence() == silence,
    {
        PlaybackQueue { pending: VecDeque::new(), silence }
    }

    pub fn len(&self) -> (r: usize)
        ensures
            r == self.contents().len(),
    {
        self.pending.len()
    }

    pub fn is_empty(&self) -> (r: bool)
        ensures
            r == (self.contents().len() == 0),
    {
        self.pending.len() == 0
    }

    /// Appends one frame behind the samples already waiting.
    pub fn enqueue(&mut self, frame: &[T])
        ensures
            final(self).contents() == old(self).contents() + frame@,
            final(self).silence() == old(self).silence(),
    {
        let mut i: usize = 0;
        while i < frame.len()
            invariant
                i <= frame@.len(),
                self.pending@ == old(self).pending@ + frame@.take(i as int),
                self.silence == old(self).silence,
            decreases frame@.len() - i,
        {
            self.pending.push_back(frame[i]);
            proof {
                assert(frame@.take(i + 1) =~= frame@.take(i as int).push(frame@[i as int]));
            }
            i = i + 1;
        }
        proof {
            assert(frame@.take(frame@.len() as int) =~= frame@);
        }
    }

    /// The device callback: fills the whole output buffer from the front of the queue and
    /// writes silence wherever the queue runs dry. It never blocks and never leaves a
    /// sample of the buffer unwritten.
    pub fn fill(&mut self, out: &mut [T])
        ensures
            final(out)@.len() == old(out)@.len(),
            forall|i: int|
                0 <= i < final(out)@.len() ==> #[trigger] final(out)@[i] == filled_at(
                    old(self).contents(),
                    old(self).silence(),
                    i,
                ),
            final(self).contents() == old(self).contents().skip(
                taken(old(self).contents().len(), old(out)@.len()) as int,
            ),
            final(self).silence() == old(self).silence(),
            old(self).contents().len() == 0 ==> forall|i: int|
                0 <= i < final(out)@.len() ==> #[trigger] final(out)@[i] == old(self).silence(),
    {
        let ghost queued = self.pending@;
        let n = out.len();
        let mut i: usize = 0;
        while i < n
            invariant
                n == out@.len(),
                n == old(out)@.len(),
                i <= n,
                self.silence == old(self).silence,
                queued == old(self).pending@,
                self.pending@ == queued.skip(taken(queued.len(), i as nat) as int),
                forall|j: int| 0 <= j < i ==> #[trigger] out@[j] == filled_at(queued, self.silence, j),
            decreases n - i,
        {
            let s = match self.pending.pop_front() {
                Some(x) => x,
                None => self.silence,
            };
            out[i] = s;
            proof {
                assert(self.pending@ =~= queued.skip(taken(queued.len(), (i + 1) as nat) as int));
            }
            i = i + 1;
        }
    }

    /// Handles what one read of the channel found. A frame is queued behind the samples
    /// already waiting, and reading goes on (`None`) unless the frame was empty. An empty
    /// channel ends the refill with `Some(true)`, a closed one with `Some(false)`; neither
    /// touches the queue.
    pub fn take_outcome(&mut self, outcome: RecvOutcome<Vec<T>>) -> (r: Option<bool>)
        ensures
            final(self).silence() == old(self).silence(),
            outcome matches RecvOutcome::Received(f) ==> final(self).contents() == old(
                self,
            ).contents() + f@ && r == (if f@.len() == 0 {
                Some(true)
            } else {
                None::<bool>
            }),
            outcome is Empty ==> final(self).contents() == old(self).contents() && r == Some(
                true,
            ),
            outcome is Disconnected ==> final(self).contents() == old(self).contents() && r
                == Some(false),
    {
        match outcome {
            RecvOutcome::Received(frame) => {
                self.enqueue(frame.as_slice());
                if frame.len() == 0 {
                    Some(true)
                } else {
                    None
                }
            },
            RecvOutcome::Empty => Some(true),
            RecvOutcome::Disconnected => Some(false),
        }
    }

    /// Moves frames waiting in the channel into the queue until at least `wanted` samples
    /// wait or the channel has nothing more. Returns `false` once the sending side has gone
    /// away. Samples already waiting stay in front, in order; a queue that already holds
    /// `wanted` samples is left as it is, without reading the channel.
    pub fn refill(&mut self, rx: &crossbeam::channel::Receiver<Vec<T>>, wanted: usize) -> (r: bool)
        ensures
            old(self).contents().is_prefix_of(final(self).contents()),
            final(self).silence() == old(self).silence(),
            old(self).contents().len() >= wanted ==> r && final(self).contents() == old(
                self,
            ).contents(),
    {
        if self.pending.len() >= wanted {
            return true;
        }
        loop
            invariant
                old(self).pending@.len() < wanted,
                old(self).pending@.is_prefix_of(self.pending@),
                self.silence == old(self).silence,
            decreases if self.pending@.len() < wanted {
                wanted - self.pending@.len()
            } else {
                0
            },
        {
            if self.pending.len() >= wanted {
                return true;
            }
            let ghost before = self.pending@;
            match self.take_outcome(poll(rx)) {
                Some(done) => {
                    return done;
                },
                None => {
                    proof {
                        assert(self.pending@.len() > before.len());
                        assert(self.pending@.subrange(0, before.len() as int) =~= before);
                        assert(old(self).pending@ =~= self.pending@.subrange(
                            0,
                            old(self).pending@.len() as int,
                        ));
                    }
                },
            }
        }
    }
}

/// What the playback relay's run loop does next.
#[derive(Clone, Copy, Debug, PartialEq, Eq, Structural)]
pub enum PlaybackAction {
    /// Keep the output stream open.
    KeepOpen,
    /// Close the stream and hand control back: synthesis is over and the queue is drained.
    Close,
    /// The device reported a fault: close the stream and report it.
    Fail,
}

/// The run loop's decision: a device fault ends playback at once; otherwise the stream
/// stays open while synthesis goes on or samples still wait, so that nothing in flight is
/// cut off.
pub fn playback_action(stream_fault: bool, synthesizing: bool, queue_empty: bool) -> (r:
    PlaybackAction)
    ensures
        stream_fault ==> r == PlaybackAction::Fail,
        !stream_fault && (synthesizing || !queue_empty) ==> r == PlaybackAction::KeepOpen,
        !stream_fault && !synthesizing && queue_empty ==> r == PlaybackAction::Close,
{
    if stream_fault {
        PlaybackAction::Fail
    } else if synthesizing || !queue_empty {
        PlaybackAction::KeepOpen
    } else {
        PlaybackAction::Close
    }
}

} // verus!
