use iradio_bridge::decode::{
    chunk_starts, decode_step, deinterleave, interleave, keeper_step, mono_to_stereo, packet_step,
    take_period, DecodeOutcome, DecodeStep, KeeperAction, KeeperEvent, PacketOutcome, PacketStep,
};

#[test]
fn interleave_round_trip() {
    let v = vec![1, 2, 3, 4, 5, 6];
    let (l, r) = deinterleave(&v);
    assert_eq!(l, vec![1, 3, 5]);
    assert_eq!(r, vec![2, 4, 6]);
    assert_eq!(interleave(&l, &r), v);
}

#[test]
fn trailing_unpaired_sample_is_dropped() {
    let (l, r) = deinterleave(&vec![7, 8, 9]);
    assert_eq!(l, vec![7]);
    assert_eq!(r, vec![8]);
}

#[test]
fn mono_duplicates_each_sample() {
    assert_eq!(mono_to_stereo(&vec![1, 2]), vec![1, 1, 2, 2]);
    assert_eq!(mono_to_stereo::<i32>(&vec![]), Vec::<i32>::new());
}

#[test]
fn period_taken_from_front() {
    let mut acc = vec![1, 2, 3, 4, 5];
    assert_eq!(take_period(&mut acc, 2), Some(vec![1, 2]));
    assert_eq!(acc, vec![3, 4, 5]);
    assert_eq!(take_period(&mut acc, 4), None);
    assert_eq!(acc, vec![3, 4, 5]);
    assert_eq!(take_period(&mut acc, 3), Some(vec![3, 4, 5]));
    assert!(acc.is_empty());
}

#[test]
fn chunk_offsets() {
    assert_eq!(chunk_starts(10, 3), vec![0, 3, 6]);
    assert_eq!(chunk_starts(9, 3), vec![0, 3, 6]);
    assert_eq!(chunk_starts(2, 3), Vec::<usize>::new());
}

#[test]
fn packet_decisions() {
    assert_eq!(packet_step(PacketOutcome::Packet { track_id: 1 }, 1, false), PacketStep::Decode);
    assert_eq!(packet_step(PacketOutcome::Packet { track_id: 2 }, 1, false), PacketStep::Next);
    assert_eq!(packet_step(PacketOutcome::IoError, 1, true), PacketStep::Stop);
    assert_eq!(packet_step(PacketOutcome::IoError, 1, false), PacketStep::Next);
    assert_eq!(packet_step(PacketOutcome::ResetRequired, 1, false), PacketStep::Reset);
    assert_eq!(packet_step(PacketOutcome::OtherError, 1, false), PacketStep::Stop);
}

#[test]
fn decode_decisions() {
    assert_eq!(decode_step(DecodeOutcome::Audio { channels: 6 }), DecodeStep::Take { channels: 2 });
    assert_eq!(decode_step(DecodeOutcome::Audio { channels: 1 }), DecodeStep::Take { channels: 1 });
    assert_eq!(decode_step(DecodeOutcome::Audio { channels: 0 }), DecodeStep::Take { channels: 1 });
    assert_eq!(decode_step(DecodeOutcome::FrameError), DecodeStep::Skip);
    assert_eq!(decode_step(DecodeOutcome::Fatal), DecodeStep::Stop);
}

#[test]
fn keeper_decisions() {
    assert!(matches!(keeper_step(KeeperEvent::Samples(vec![1, 2])), KeeperAction::Write(v) if v == vec![1, 2]));
    assert!(matches!(keeper_step(KeeperEvent::Empty), KeeperAction::WriteSilence));
    assert!(matches!(keeper_step(KeeperEvent::Disconnected), KeeperAction::Stop));
}
