use iradio_bridge::player::{
    player_step, prefill_step, PlayerAction, PlayerEvent, PrefillStep, PREFILL_BYTES,
};

#[test]
fn prefill_waits_for_bytes_or_deadline() {
    assert_eq!(PREFILL_BYTES, 4096);
    assert_eq!(prefill_step(4096, false), PrefillStep::Start);
    assert_eq!(prefill_step(10_000, true), PrefillStep::Start);
    assert_eq!(prefill_step(4095, false), PrefillStep::Wait);
    assert_eq!(prefill_step(0, true), PrefillStep::StartLate);
}

#[test]
fn player_event_reactions() {
    assert!(matches!(player_step(PlayerEvent::StopRequested), PlayerAction::FadeOutAndStop));
    assert!(matches!(
        player_step(PlayerEvent::TitleChanged(Some("Artist - Song".to_string()))),
        PlayerAction::PublishTitle(t) if t == "Artist - Song"
    ));
    assert!(matches!(player_step(PlayerEvent::TitleChanged(None)), PlayerAction::Ignore));
    assert!(matches!(
        player_step(PlayerEvent::Samples(vec![3, -3])),
        PlayerAction::Forward(v) if v == vec![3, -3]
    ));
    assert!(matches!(player_step(PlayerEvent::DecoderClosed), PlayerAction::Stop));
}
