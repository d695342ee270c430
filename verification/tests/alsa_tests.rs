use iradio_bridge::alsa::{
    device_name, hw_config, InfernoAlsaDevice, PcmHwConfig, PcmSetupOutcome, WriteAction,
    WriteEvent, WriteState,
};

#[test]
fn device_names() {
    assert_eq!(device_name(1), "inferno_iradio_1");
    assert_eq!(device_name(4), "inferno_iradio_4");
    assert_eq!(device_name(12), "inferno_iradio_12");
    assert_eq!(device_name(0), "inferno_iradio_0");
}

#[test]
fn open_outcomes() {
    let d = InfernoAlsaDevice::open("inferno_iradio_1", 48000, 4096, PcmSetupOutcome::Ready).unwrap();
    assert_eq!(d, InfernoAlsaDevice { _sample_rate: 48000, channels: 2, buffer_frames: 4096 });
    let e = InfernoAlsaDevice::open("dev", 48000, 4096, PcmSetupOutcome::OpenFailed("No such device".into()))
        .unwrap_err();
    assert_eq!(e, "ALSA open 'dev' failed: No such device");
    let e = InfernoAlsaDevice::open("dev", 48000, 4096, PcmSetupOutcome::SetupFailed("EINVAL".into()))
        .unwrap_err();
    assert_eq!(e, "EINVAL");
    assert_eq!(hw_config(44100, 1024), PcmHwConfig { channels: 2, rate: 44100, buffer_size: 1024 });
}

fn dev() -> InfernoAlsaDevice {
    InfernoAlsaDevice { _sample_rate: 48000, channels: 2, buffer_frames: 4 }
}

#[test]
fn write_succeeds_first_time() {
    let (_, a) = dev().write_frames(WriteState::FirstAttempt, WriteEvent::Wrote(4));
    assert!(matches!(a, WriteAction::Done(4)));
}

#[test]
fn write_recovers_and_retries_once() {
    let d = dev();
    let (s, a) = d.write_frames(
        WriteState::FirstAttempt,
        WriteEvent::WriteFailed { errno: 32, detail: "Broken pipe".into() },
    );
    assert!(matches!(a, WriteAction::Recover { errno: 32 }));
    let (s, a) = d.write_frames(s, WriteEvent::Recovered);
    assert!(matches!(a, WriteAction::Write));
    let (_, a) = d.write_frames(s, WriteEvent::Wrote(3));
    assert!(matches!(a, WriteAction::Done(3)));
}

#[test]
fn write_failure_messages() {
    let d = dev();
    let (s, _) = d.write_frames(
        WriteState::FirstAttempt,
        WriteEvent::WriteFailed { errno: 5, detail: "I/O error".into() },
    );
    let (_, a) = d.write_frames(s, WriteEvent::RecoverFailed("bad state".into()));
    match a {
        WriteAction::Fail(m) => assert_eq!(m, "ALSA write+recover failed: I/O error / bad state"),
        _ => panic!("expected failure"),
    }
    let (_, a) = d.write_frames(
        WriteState::RetryAttempt,
        WriteEvent::WriteFailed { errno: 5, detail: "again".into() },
    );
    match a {
        WriteAction::Fail(m) => assert_eq!(m, "ALSA write failed after recovery: again"),
        _ => panic!("expected failure"),
    }
}

#[test]
fn silence_period_length() {
    let s = InfernoAlsaDevice { _sample_rate: 48000, channels: 2, buffer_frames: 4096 }.silence_period();
    assert_eq!(s.len(), 8192);
    assert!(s.iter().all(|&x| x == 0));
}
