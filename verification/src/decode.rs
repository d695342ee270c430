//! Sample layout and control flow of the streaming decoder: stereo
//! interleaving, mono duplication, period chunking, resampler chunking and
//! what to do with each packet and decode result.  Decoding, resampling
//! and the floating-point sample conversion are done by the application.

use vstd::prelude::*;

verus! {

/// The left and right channels of interleaved stereo samples; a trailing
/// unpaired sample is ignored.
pub open spec fn left_of<T>(v: Seq<T>) -> Seq<T> {
    Seq::new(v.len() / 2, |i: int| v[2 * i])
}

pub open spec fn right_of<T>(v: Seq<T>) -> Seq<T> {
    Seq::new(v.len() / 2, |i: int| v[2 * i + 1])
}

/// Interleaving of two channels, as long as the shorter one.
pub open spec fn interleaved<T>(l: Seq<T>, r: Seq<T>) -> Seq<T> {
    let n = if l.len() < r.len() {
        l.len()
    } else {
        r.len()
    };
    Seq::new(2 * n, |i: int| if i % 2 == 0 {
        l[i / 2]
    } else {
        r[i / 2]
    })
}

/// Splits interleaved stereo samples into left and right channels.
pub fn deinterleave<T: Copy>(v: &Vec<T>) -> (r: (Vec<T>, Vec<T>))
    ensures
        r.0@ == left_of(v@),
        r.1@ == right_of(v@),
{
    let mut left: Vec<T> = Vec::new();
    let mut right: Vec<T> = Vec::new();
    let n = v.len();
    let frames = n / 2;
    let mut i: usize = 0;
    while i < frames
        invariant
            n == v@.len(),
            frames == n / 2,
            i <= frames,
            left@.len() == i,
            right@.len() == i,
            forall|k: int| 0 <= k < i ==> #[trigger] left@[k] == v@[2 * k],
            forall|k: int| 0 <= k < i ==> #[trigger] right@[k] == v@[2 * k + 1],
        decreases frames - i,
    {
        left.push(v[2 * i]);
        right.push(v[2 * i + 1]);
        i += 1;
    }
    assert(left@ =~= left_of(v@));
    assert(right@ =~= right_of(v@));
    (left, right)
}

/// Interleaves two channels into stereo samples.
pub fn interleave<T: Copy>(l: &Vec<T>, r: &Vec<T>) -> (v: Vec<T>)
    ensures
        v@ == interleaved(l@, r@),
{
    let n = if l.len() < r.len() {
        l.len()
    } else {
        r.len()
    };
    let mut v: Vec<T> = Vec::new();
    let mut i: usize = 0;
    while i < n
        invariant
            n <= l@.len(),
            n <= r@.len(),
            n == (if l@.len() < r@.len() { l@.len() } else { r@.len() }),
            i <= n,
            v@.len() == 2 * i,
            forall|k: int|
                0 <= k < 2 * i ==> #[trigger] v@[k] == if k % 2 == 0 {
                    l@[k / 2]
                } else {
                    r@[k / 2]
                },
        decreases n - i,
    {
        v.push(l[i]);
        v.push(r[i]);
        i += 1;
    }
    assert(v@ =~= interleaved(l@, r@));
    v
}

/// Splitting interleaved stereo into channels and interleaving them again
/// gives back the samples (of an even number of them).
pub proof fn interleave_deinterleave_law<T>(v: Seq<T>)
    requires
        v.len() % 2 == 0,
    ensures
        interleaved(left_of(v), right_of(v)) == v,
{
    let w = interleaved(left_of(v), right_of(v));
    assert forall|k: int| 0 <= k < v.len() implies #[trigger] w[k] == v[k] by {
        if k % 2 == 0 {
            assert(2 * (k / 2) == k);
        } else {
            assert(2 * (k / 2) + 1 == k);
        }
    }
    assert(w =~= v);
}

/// Mono samples played on both stereo channels.
pub open spec fn mono_to_stereo_spec<T>(v: Seq<T>) -> Seq<T> {
    Seq::new(2 * v.len(), |i: int| v[i / 2])
}

/// Duplicates each mono sample onto both stereo channels.
pub fn mono_to_stereo<T: Copy>(v: &Vec<T>) -> (r: Vec<T>)
    ensures
        r@ == mono_to_stereo_spec(v@),
{
    let mut r: Vec<T> = Vec::new();
    let mut i: usize = 0;
    while i < v.len()
        invariant
            i <= v@.len(),
            r@.len() == 2 * i,
            forall|k: int| 0 <= k < 2 * i ==> #[trigger] r@[k] == v@[k / 2],
        decreases v@.len() - i,
    {
        r.push(v[i]);
        r.push(v[i]);
        i += 1;
    }
    assert(r@ =~= mono_to_stereo_spec(v@));
    r
}

/// Takes one full period of `stride` samples from the front of the
/// accumulator, when it holds that many.
pub fn take_period<T: Copy>(acc: &mut Vec<T>, stride: usize) -> (r: Option<Vec<T>>)
    ensures
        old(acc)@.len() < stride ==> r is None && final(acc)@ == old(acc)@,
        old(acc)@.len() >= stride ==> (r matches Some(p) && p@ == old(acc)@.subrange(
            0,
            stride as int,
        ) && final(acc)@ == old(acc)@.subrange(stride as int, old(acc)@.len() as int)),
{
    if acc.len() < stride {
        return None;
    }
    let mut head: Vec<T> = Vec::new();
    let mut tail: Vec<T> = Vec::new();
    let mut i: usize = 0;
    while i < acc.len()
        invariant
            stride <= acc@.len(),
            acc@ == old(acc)@,
            i <= acc@.len(),
            i <= stride ==> head@ == acc@.subrange(0, i as int) && tail@.len() == 0,
            i > stride ==> head@ == acc@.subrange(0, stride as int) && tail@ == acc@.subrange(
                stride as int,
                i as int,
            ),
        decreases acc@.len() - i,
    {
        if i < stride {
            head.push(acc[i]);
            assert(head@ =~= acc@.subrange(0, i + 1));
        } else {
            tail.push(acc[i]);
            assert(tail@ =~= acc@.subrange(stride as int, i + 1));
        }
        i += 1;
    }
    proof {
        if acc@.len() == stride {
            assert(tail@ =~= acc@.subrange(stride as int, acc@.len() as int));
        }
    }
    *acc = tail;
    Some(head)
}

/// Start offsets of the whole chunks of `chunk` samples in `len` samples;
/// a remainder shorter than a chunk is left out.
pub fn chunk_starts(len: usize, chunk: usize) -> (r: Vec<usize>)
    requires
        chunk > 0,
    ensures
        r@.len() == len / chunk,
        forall|i: int| 0 <= i < r@.len() ==> #[trigger] r@[i] == i * chunk,
{
    let mut r: Vec<usize> = Vec::new();
    let mut off: usize = 0;
    assert(0 == r@.len() * chunk) by (nonlinear_arith)
        requires
            r@.len() == 0,
    ;
    while off <= len && chunk <= len - off
        invariant
            chunk > 0,
            off == r@.len() * chunk,
            off <= len,
            forall|i: int| 0 <= i < r@.len() ==> #[trigger] r@[i] == i * chunk,
        decreases len - off,
    {
        r.push(off);
        off = off + chunk;
        proof {
            assert(off == r@.len() * chunk) by (nonlinear_arith)
                requires
                    off == (r@.len() - 1) * chunk + chunk,
            ;
        }
    }
    proof {
        assert(len / chunk == r@.len()) by (nonlinear_arith)
            requires
                off == r@.len() * chunk,
                off <= len,
                len - off < chunk,
                chunk > 0,
        ;
    }
    r
}

/// What reading the next packet gave.
#[derive(PartialEq, Eq, Structural, Debug, Clone, Copy)]
pub enum PacketOutcome {
    /// A packet of track `track_id`.
    Packet { track_id: u32 },
    /// The byte source reported an I/O error or the end.
    IoError,
    /// The decoder must be reset.
    ResetRequired,
    /// Any other format error.
    OtherError,
}

/// What to do with the result of reading a packet.
#[derive(PartialEq, Eq, Structural, Debug, Clone, Copy)]
pub enum PacketStep {
    /// Decode the packet.
    Decode,
    /// Skip it and read the next one.
    Next,
    /// Reset the decoder and read on.
    Reset,
    /// Stop decoding.
    Stop,
}

/// The decoder loop's reaction to a packet read: packets of the chosen
/// track are decoded, others skipped; an I/O error ends decoding only when
/// a stop was requested; a required reset resets; other errors stop.
pub fn packet_step(outcome: PacketOutcome, track_id: u32, stop_requested: bool) -> (s: PacketStep)
    ensures
        s == match outcome {
            PacketOutcome::Packet { track_id: t } => if t == track_id {
                PacketStep::Decode
            } else {
                PacketStep::Next
            },
            PacketOutcome::IoError => if stop_requested {
                PacketStep::Stop
            } else {
                PacketStep::Next
            },
            PacketOutcome::ResetRequired => PacketStep::Reset,
            PacketOutcome::OtherError => PacketStep::Stop,
        },
{
    match outcome {
        PacketOutcome::Packet { track_id: t } => if t == track_id {
            PacketStep::Decode
        } else {
            PacketStep::Next
        },
        PacketOutcome::IoError => if stop_requested {
            PacketStep::Stop
        } else {
            PacketStep::Next
        },
        PacketOutcome::ResetRequired => PacketStep::Reset,
        PacketOutcome::OtherError => PacketStep::Stop,
    }
}

/// What decoding a packet gave.
#[derive(PartialEq, Eq, Structural, Debug, Clone, Copy)]
pub enum DecodeOutcome {
    /// Audio with this many channels.
    Audio { channels: usize },
    /// A damaged frame.
    FrameError,
    /// Any other decoder error.
    Fatal,
}

/// What to do with a decoded packet.
#[derive(PartialEq, Eq, Structural, Debug, Clone, Copy)]
pub enum DecodeStep {
    /// Take the first `channels` (at most two) channels of the audio.
    Take { channels: usize },
    /// Skip the frame.
    Skip,
    /// Stop decoding.
    Stop,
}

/// Audio is taken, at most its first two channels (and at least one);
/// damaged frames are skipped; other errors stop the decoder.
pub fn decode_step(outcome: DecodeOutcome) -> (s: DecodeStep)
    ensures
        s == match outcome {
            DecodeOutcome::Audio { channels } => DecodeStep::Take {
                channels: if channels < 1 {
                    1
                } else if channels > 2 {
                    2
                } else {
                    channels
                },
            },
            DecodeOutcome::FrameError => DecodeStep::Skip,
            DecodeOutcome::Fatal => DecodeStep::Stop,
        },
{
    match outcome {
        DecodeOutcome::Audio { channels } => {
            let c = if channels < 1 {
                1
            } else if channels > 2 {
                2
            } else {
                channels
            };
            DecodeStep::Take { channels: c }
        },
        DecodeOutcome::FrameError => DecodeStep::Skip,
        DecodeOutcome::Fatal => DecodeStep::Stop,
    }
}

/// What the slot keeper found in its queue.
pub enum KeeperEvent {
    /// Player audio.
    Samples(Vec<i32>),
    /// Nothing queued.
    Empty,
    /// The sending side is gone.
    Disconnected,
}

/// What the slot keeper does.
pub enum KeeperAction {
    /// Write the player audio.
    Write(Vec<i32>),
    /// Write a period of silence and yield.
    WriteSilence,
    /// Stop keeping the slot.
    Stop,
}

/// The slot keeper writes player audio when there is some, silence when
/// there is none (so the Dante channel stays announced), and stops when no
/// sender is left.
pub fn keeper_step(event: KeeperEvent) -> (a: KeeperAction)
    ensures
        match event {
            KeeperEvent::Samples(s) => a == KeeperAction::Write(s),
            KeeperEvent::Empty => a is WriteSilence,
            KeeperEvent::Disconnected => a is Stop,
        },
{
    match event {
        KeeperEvent::Samples(s) => KeeperAction::Write(s),
        KeeperEvent::Empty => KeeperAction::WriteSilence,
        KeeperEvent::Disconnected => KeeperAction::Stop,
    }
}

} // verus!
