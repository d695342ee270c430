//! The Inferno ALSA output of a player slot: device naming, the PCM
//! parameters, the write-with-one-recovery protocol and the silence that
//! keeps an idle Dante channel announced.  The PCM calls themselves are made
//! by the application, which reports their outcomes here.

use vstd::prelude::*;

use crate::text::{dec_chars, dec_string, push_str};

verus! {

/// The ALSA device name of a player slot: `inferno_iradio_<slot>`.
pub open spec fn device_name_spec(slot: nat) -> Seq<char> {
    "inferno_iradio_"@ + dec_chars(slot)
}

/// Build the ALSA device name for a given player slot.
pub fn device_name(slot: usize) -> (s: String)
    ensures
        s@ == device_name_spec(slot as nat),
{
    let mut s = String::new();
    push_str(&mut s, "inferno_iradio_");
    let d = dec_string(slot as u64);
    push_str(&mut s, d.as_str());
    s
}

/// The hardware parameters a slot's PCM is opened with: interleaved signed
/// 32-bit stereo at the given rate (nearest the device supports) and buffer
/// size in frames.
#[derive(PartialEq, Eq, Structural, Debug, Clone, Copy)]
pub struct PcmHwConfig {
    pub channels: u32,
    pub rate: u32,
    pub buffer_size: i64,
}

/// How opening and configuring the PCM went.
pub enum PcmSetupOutcome {
    /// The device could not be opened; the ALSA error text.
    OpenFailed(String),
    /// Setting a parameter or preparing failed; the ALSA error text.
    SetupFailed(String),
    /// The PCM is configured and prepared.
    Ready,
}

/// An opened slot output (its parameters; the PCM handle lives with the
/// caller).
#[derive(PartialEq, Eq, Structural, Debug, Clone, Copy)]
pub struct InfernoAlsaDevice {
    pub _sample_rate: u32,
    pub channels: u32,
    pub buffer_frames: u32,
}

/// Where the write protocol stands.
pub enum WriteState {
    /// The first write was issued.
    FirstAttempt,
    /// The first write failed with `first_error`; recovery was issued.
    Recovering { first_error: String },
    /// Recovery succeeded; the single retry was issued.
    RetryAttempt,
}

/// What the last ALSA call reported.
pub enum WriteEvent {
    /// A write took `n` frames.
    Wrote(usize),
    /// A write failed with `errno`; `detail` is the error text.
    WriteFailed { errno: i32, detail: String },
    /// Recovery succeeded.
    Recovered,
    /// Recovery failed; the error text.
    RecoverFailed(String),
}

/// What to do next.
pub enum WriteAction {
    /// Write the samples again.
    Write,
    /// Recover the PCM from error `errno`.
    Recover { errno: i32 },
    /// Finished: `n` frames were written.
    Done(usize),
    /// Finished with an error message.
    Fail(String),
}

/// Whether `event` is a possible report in state `state` (writes answer
/// writes, recoveries answer recoveries).
pub open spec fn write_event_fits(state: WriteState, event: WriteEvent) -> bool {
    match state {
        WriteState::Recovering { .. } => event is Recovered || event is RecoverFailed,
        _ => event is Wrote || event is WriteFailed,
    }
}

/// The message of a write whose recovery failed.
pub open spec fn recover_failed_message(first_error: Seq<char>, recover_error: Seq<char>) -> Seq<
    char,
> {
    "ALSA write+recover failed: "@ + first_error + " / "@ + recover_error
}

/// The message of a retry that failed after recovery.
pub open spec fn retry_failed_message(error: Seq<char>) -> Seq<char> {
    "ALSA write failed after recovery: "@ + error
}

/// The message of a PCM that could not be opened.
pub open spec fn open_failed_message(device: Seq<char>, error: Seq<char>) -> Seq<char> {
    "ALSA open '"@ + device + "' failed: "@ + error
}

/// The hardware parameters for a slot output.
pub fn hw_config(sample_rate: u32, buffer_frames: u32) -> (c: PcmHwConfig)
    ensures
        c == (PcmHwConfig { channels: 2, rate: sample_rate, buffer_size: buffer_frames as i64 }),
{
    PcmHwConfig { channels: 2, rate: sample_rate, buffer_size: buffer_frames as i64 }
}

impl InfernoAlsaDevice {
    /// The output opened on `device_str`, given how the PCM setup with
    /// `hw_config(sample_rate, buffer_frames)` went: stereo at
    /// `sample_rate` with `buffer_frames` frames of buffer, or the error.
    pub fn open(device_str: &str, sample_rate: u32, buffer_frames: u32, setup: PcmSetupOutcome) -> (r:
        Result<Self, String>)
        ensures
            match setup {
                PcmSetupOutcome::Ready => r == Ok::<Self, String>(
                    InfernoAlsaDevice { _sample_rate: sample_rate, channels: 2, buffer_frames },
                ),
                PcmSetupOutcome::OpenFailed(e) => r matches Err(m) && m@ == open_failed_message(
                    device_str@,
                    e@,
                ),
                PcmSetupOutcome::SetupFailed(e) => r == Err::<Self, String>(e),
            },
    {
        match setup {
            PcmSetupOutcome::Ready => Ok(
                InfernoAlsaDevice { _sample_rate: sample_rate, channels: 2, buffer_frames },
            ),
            PcmSetupOutcome::OpenFailed(e) => {
                let mut m = String::new();
                push_str(&mut m, "ALSA open '");
                push_str(&mut m, device_str);
                push_str(&mut m, "' failed: ");
                push_str(&mut m, e.as_str());
                Err(m)
            },
            PcmSetupOutcome::SetupFailed(e) => Err(e),
        }
    }

    /// One step of writing interleaved S32 samples: a write that fails is
    /// followed by a recovery of the PCM and exactly one retry.
    pub fn write_frames(&self, state: WriteState, event: WriteEvent) -> (r: (WriteState, WriteAction))
        requires
            write_event_fits(state, event),
        ensures
            match (state, event) {
                (WriteState::Recovering { first_error }, WriteEvent::RecoverFailed(re)) => r.1 matches WriteAction::Fail(m) && m@ == recover_failed_message(first_error@, re@),
                (WriteState::Recovering { .. }, _) => r.0 is RetryAttempt && r.1 is Write,
                (WriteState::FirstAttempt, WriteEvent::WriteFailed { errno, detail }) => r.0 == (
                WriteState::Recovering { first_error: detail }) && r.1 == (WriteAction::Recover {
                    errno,
                }),
                (WriteState::RetryAttempt, WriteEvent::WriteFailed { detail, .. }) => r.1 matches WriteAction::Fail(m) && m@ == retry_failed_message(detail@),
                (_, WriteEvent::Wrote(n)) => r.1 == WriteAction::Done(n),
                _ => true,
            },
    {
        match state {
            WriteState::Recovering { first_error } => match event {
                WriteEvent::RecoverFailed(re) => {
                    let mut m = String::new();
                    push_str(&mut m, "ALSA write+recover failed: ");
                    push_str(&mut m, first_error.as_str());
                    push_str(&mut m, " / ");
                    push_str(&mut m, re.as_str());
                    (WriteState::Recovering { first_error }, WriteAction::Fail(m))
                },
                _ => (WriteState::RetryAttempt, WriteAction::Write),
            },
            WriteState::FirstAttempt => match event {
                WriteEvent::Wrote(n) => (WriteState::FirstAttempt, WriteAction::Done(n)),
                WriteEvent::WriteFailed { errno, detail } => (
                    WriteState::Recovering { first_error: detail },
                    WriteAction::Recover { errno },
                ),
                _ => (WriteState::FirstAttempt, WriteAction::Write),
            },
            WriteState::RetryAttempt => match event {
                WriteEvent::Wrote(n) => (WriteState::RetryAttempt, WriteAction::Done(n)),
                WriteEvent::WriteFailed { detail, .. } => {
                    let mut m = String::new();
                    push_str(&mut m, "ALSA write failed after recovery: ");
                    push_str(&mut m, detail.as_str());
                    (WriteState::RetryAttempt, WriteAction::Fail(m))
                },
                _ => (WriteState::RetryAttempt, WriteAction::Write),
            },
        }
    }

    /// The number of samples in one period of the output buffer.
    pub open spec fn period_samples(&self) -> nat {
        (self.buffer_frames * self.channels) as nat
    }

    /// One buffer of silence (zero samples, `buffer_frames * channels` of
    /// them), written to keep the ALSA pipeline fed.
    pub fn silence_period(&self) -> (v: Vec<i32>)
        requires
            self.buffer_frames * self.channels <= u32::MAX,
        ensures
            v@.len() == self.period_samples(),
            forall|i: int| 0 <= i < v@.len() ==> #[trigger] v@[i] == 0,
    {
        let n = (self.buffer_frames * self.channels) as usize;
        let mut v: Vec<i32> = Vec::new();
        let mut i: usize = 0;
        while i < n
            invariant
                i <= n,
                v@.len() == i,
                forall|k: int| 0 <= k < i ==> #[trigger] v@[k] == 0,
            decreases n - i,
        {
            v.push(0);
            i += 1;
        }
        v
    }
}

} // verus!
