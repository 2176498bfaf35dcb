use voice_core::device::{channel_layout, ChannelLayout};
use voice_core::error::PipelineError;
use voice_core::channel::SendOutcome;
use voice_core::synthesis::{
    after_offer, decode_stream, forward_frames, frames_from_decode, split_into_frames, FrameLayout, PacketDecode,
};

const LAYOUT: FrameLayout = FrameLayout { packet_samples: 1920, frame_samples: 960 };

fn packet(seed: i16) -> Vec<i16> {
    (0..1920).map(|i| seed.wrapping_mul(7).wrapping_add(i as i16)).collect()
}

#[test]
fn full_packets_rechunk_into_twice_as_many_frames_in_order() {
    let buffers: Vec<Vec<i16>> = (0..5).map(packet).collect();
    let ds: Vec<PacketDecode> = buffers.iter().cloned().map(PacketDecode::Decoded).collect();
    let frames = decode_stream(&ds, LAYOUT);
    assert_eq!(frames.len(), 10);
    for (k, buf) in buffers.iter().enumerate() {
        assert_eq!(frames[2 * k], buf[..960].to_vec());
        assert_eq!(frames[2 * k + 1], buf[960..].to_vec());
    }
}

#[test]
fn corrupted_packet_mid_stream_is_skipped() {
    let a = packet(1);
    let b = packet(2);
    let c = packet(3);
    let ds = vec![
        PacketDecode::Decoded(a.clone()),
        PacketDecode::Failed,
        PacketDecode::Decoded(b.clone()),
        PacketDecode::Decoded(c.clone()),
    ];
    let frames = decode_stream(&ds, LAYOUT);
    assert_eq!(frames.len(), 6);
    assert_eq!(frames[0], a[..960].to_vec());
    assert_eq!(frames[2], b[..960].to_vec());
    assert_eq!(frames[3], b[960..].to_vec());
    assert_eq!(frames[5], c[960..].to_vec());
}

#[test]
fn short_decode_yields_no_frames() {
    let d = PacketDecode::Decoded(vec![1; 1000]);
    assert!(frames_from_decode(&d, LAYOUT).is_empty());
    assert!(frames_from_decode(&PacketDecode::Failed, LAYOUT).is_empty());
    assert!(decode_stream(&vec![], LAYOUT).is_empty());
}

#[test]
fn split_drops_trailing_partial_frame() {
    let frames = split_into_frames(&vec![1, 2, 3, 4, 5, 6, 7], 3);
    assert_eq!(frames, vec![vec![1, 2, 3], vec![4, 5, 6]]);
}

#[test]
fn forwarding_counts_dropped_frames() {
    let (tx, rx) = crossbeam::channel::bounded::<Vec<i16>>(2);
    let frames = vec![vec![1], vec![2], vec![3]];
    assert_eq!(forward_frames(&tx, frames), Ok(1));
    assert_eq!(rx.try_recv().unwrap(), vec![1]);
    assert_eq!(rx.try_recv().unwrap(), vec![2]);
    assert!(rx.try_recv().is_err());
}

#[test]
fn forwarding_to_closed_playback_fails() {
    let (tx, rx) = crossbeam::channel::unbounded::<Vec<i16>>();
    drop(rx);
    assert_eq!(forward_frames(&tx, vec![vec![1]]), Err(PipelineError::ChannelClosed));
    assert_eq!(forward_frames(&tx, vec![]), Ok(0));
}

#[test]
fn codec_channel_layouts() {
    assert_eq!(channel_layout(1), Ok(ChannelLayout::Mono));
    assert_eq!(channel_layout(2), Ok(ChannelLayout::Stereo));
    assert_eq!(channel_layout(0), Err(PipelineError::ConfigUnsupported));
    assert_eq!(channel_layout(6), Err(PipelineError::ConfigUnsupported));
}

#[test]
fn each_offer_outcome_has_its_verdict() {
    assert_eq!(after_offer(SendOutcome::Sent, 3), Ok(3));
    assert_eq!(after_offer(SendOutcome::Full, 3), Ok(4));
    assert_eq!(after_offer(SendOutcome::Disconnected, 3), Err(PipelineError::ChannelClosed));
}

#[test]
fn full_channel_drops_only_that_frame() {
    let (tx, rx) = crossbeam::channel::bounded::<Vec<i16>>(1);
    assert_eq!(forward_frames(&tx, vec![vec![1], vec![2]]), Ok(1));
    assert_eq!(rx.try_recv().unwrap(), vec![1]);
    assert_eq!(forward_frames(&tx, vec![vec![3]]), Ok(0));
    assert_eq!(rx.try_recv().unwrap(), vec![3]);
}
