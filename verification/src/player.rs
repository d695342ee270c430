//! Decisions of a running player: when the initial buffer fill is over,
//! and what each event of its main loop leads to.  Waiting, decoding,
//! volume and gain (floating point) are done by the application.

use vstd::prelude::*;

verus! {

/// Bytes buffered before decoding starts.
pub const PREFILL_BYTES: usize = 4096;

/// What the initial buffer fill does next.
#[derive(PartialEq, Eq, Structural, Debug, Clone, Copy)]
pub enum PrefillStep {
    /// Enough bytes are buffered: start decoding.
    Start,
    /// The fill took too long: start decoding anyway, with a warning.
    StartLate,
    /// Wait a little and look again.
    Wait,
}

/// The initial fill waits until `PREFILL_BYTES` are buffered or the
/// deadline has passed, whichever comes first.
pub fn prefill_step(buffered: usize, past_deadline: bool) -> (s: PrefillStep)
    ensures
        s == if buffered >= PREFILL_BYTES {
            PrefillStep::Start
        } else if past_deadline {
            PrefillStep::StartLate
        } else {
            PrefillStep::Wait
        },
{
    if buffered >= PREFILL_BYTES {
        PrefillStep::Start
    } else if past_deadline {
        PrefillStep::StartLate
    } else {
        PrefillStep::Wait
    }
}

/// What the player's main loop was woken by.
pub enum PlayerEvent {
    /// The API asked the player to stop.
    StopRequested,
    /// The stream title changed; `None` when it was cleared.
    TitleChanged(Option<String>),
    /// The decoder produced a period of samples.
    Samples(Vec<i32>),
    /// The decoder stopped (end of stream or error).
    DecoderClosed,
}

/// What the player does.
pub enum PlayerAction {
    /// Fade out over the next periods, then stop.
    FadeOutAndStop,
    /// Record the title on the player and announce it.
    PublishTitle(String),
    /// Apply volume and gain, then hand the samples to the slot.
    Forward(Vec<i32>),
    /// Nothing to do.
    Ignore,
    /// Stop.
    Stop,
}

/// The player's reaction to an event: a stop request fades out and stops,
/// a new title is published (a cleared one ignored), samples are forwarded
/// and a closed decoder stops the player.
pub fn player_step(event: PlayerEvent) -> (a: PlayerAction)
    ensures
        match event {
            PlayerEvent::StopRequested => a is FadeOutAndStop,
            PlayerEvent::TitleChanged(Some(t)) => a == PlayerAction::PublishTitle(t),
            PlayerEvent::TitleChanged(None) => a is Ignore,
            PlayerEvent::Samples(s) => a == PlayerAction::Forward(s),
            PlayerEvent::DecoderClosed => a is Stop,
        },
{
    match event {
        PlayerEvent::StopRequested => PlayerAction::FadeOutAndStop,
        PlayerEvent::TitleChanged(Some(t)) => PlayerAction::PublishTitle(t),
        PlayerEvent::TitleChanged(None) => PlayerAction::Ignore,
        PlayerEvent::Samples(s) => PlayerAction::Forward(s),
        PlayerEvent::DecoderClosed => PlayerAction::Stop,
    }
}

} // verus!
