use voice_core::channel::RecvOutcome;
use voice_core::playback::{playback_action, PlaybackAction, PlaybackQueue};
use voice_core::sample::silence_u16;

#[test]
fn empty_queue_fills_with_silence() {
    let mut q: PlaybackQueue<i16> = PlaybackQueue::new(0);
    let mut out = [7i16; 512];
    q.fill(&mut out);
    assert!(out.iter().all(|s| *s == 0));
    assert!(q.is_empty());
}

#[test]
fn empty_unsigned_queue_fills_with_equilibrium() {
    let mut q: PlaybackQueue<u16> = PlaybackQueue::new(silence_u16());
    let mut out = [1u16; 64];
    q.fill(&mut out);
    assert!(out.iter().all(|s| *s == 32768));
}

#[test]
fn shortfall_is_padded_with_silence() {
    let mut q: PlaybackQueue<i16> = PlaybackQueue::new(0);
    q.enqueue(&[1, 2, 3]);
    let mut out = [9i16; 5];
    q.fill(&mut out);
    assert_eq!(out, [1, 2, 3, 0, 0]);
    assert_eq!(q.len(), 0);
}

#[test]
fn surplus_stays_queued_in_order() {
    let mut q: PlaybackQueue<i16> = PlaybackQueue::new(0);
    q.enqueue(&[1, 2, 3]);
    q.enqueue(&[4, 5]);
    let mut out = [0i16; 2];
    q.fill(&mut out);
    assert_eq!(out, [1, 2]);
    assert_eq!(q.len(), 3);
    let mut out = [0i16; 3];
    q.fill(&mut out);
    assert_eq!(out, [3, 4, 5]);
}

#[test]
fn refill_pulls_frames_from_channel() {
    let (tx, rx) = crossbeam::channel::unbounded::<Vec<i16>>();
    tx.send(vec![1, 2]).unwrap();
    tx.send(vec![3, 4]).unwrap();
    tx.send(vec![5, 6]).unwrap();
    let mut q: PlaybackQueue<i16> = PlaybackQueue::new(0);
    assert!(q.refill(&rx, 3));
    assert_eq!(q.len(), 4);
    let mut out = [0i16; 4];
    q.fill(&mut out);
    assert_eq!(out, [1, 2, 3, 4]);
    drop(tx);
    assert!(!q.refill(&rx, 10));
    assert_eq!(q.len(), 2);
    assert!(q.refill(&rx, 2));
}

#[test]
fn run_loop_closes_only_when_done_and_drained() {
    assert_eq!(playback_action(false, true, true), PlaybackAction::KeepOpen);
    assert_eq!(playback_action(false, false, false), PlaybackAction::KeepOpen);
    assert_eq!(playback_action(false, true, false), PlaybackAction::KeepOpen);
    assert_eq!(playback_action(false, false, true), PlaybackAction::Close);
    assert_eq!(playback_action(true, true, false), PlaybackAction::Fail);
}

#[test]
fn each_read_outcome_is_handled() {
    let mut q: PlaybackQueue<i16> = PlaybackQueue::new(0);
    assert_eq!(q.take_outcome(RecvOutcome::Received(vec![1, 2])), None);
    assert_eq!(q.len(), 2);
    assert_eq!(q.take_outcome(RecvOutcome::Received(vec![])), Some(true));
    assert_eq!(q.take_outcome(RecvOutcome::Empty), Some(true));
    assert_eq!(q.take_outcome(RecvOutcome::Disconnected), Some(false));
    assert_eq!(q.len(), 2);
}

#[test]
fn refill_leaves_a_full_queue_alone() {
    let (tx, rx) = crossbeam::channel::unbounded::<Vec<i16>>();
    tx.send(vec![9, 9]).unwrap();
    let mut q: PlaybackQueue<i16> = PlaybackQueue::new(0);
    q.enqueue(&[1, 2, 3]);
    assert!(q.refill(&rx, 3));
    assert_eq!(q.len(), 3);
    assert_eq!(rx.len(), 1);
}
