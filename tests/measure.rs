use loudness::measure::{accumulator_params, DecodeProgress, MeasureError, PacketAction, PacketEvent};

#[test]
fn params_need_channels_and_rate() {
    assert_eq!(accumulator_params(Some(2), Some(44100)), Ok((2, 44100)));
    assert_eq!(accumulator_params(None, Some(44100)), Err(MeasureError::NoChannelInfo));
    assert_eq!(accumulator_params(None, None), Err(MeasureError::NoChannelInfo));
    assert_eq!(accumulator_params(Some(1), None), Err(MeasureError::NoSampleRate));
}

#[test]
fn each_event_gets_its_action() {
    let cases = [
        (PacketEvent::OtherTrack, PacketAction::Ignore),
        (PacketEvent::Decoded { frames: 1152 }, PacketAction::Feed),
        (PacketEvent::Decoded { frames: 0 }, PacketAction::SkipEmpty),
        (PacketEvent::Malformed, PacketAction::SkipMalformed),
        (PacketEvent::EndOfStream, PacketAction::Finish),
        (PacketEvent::IoFailure, PacketAction::Abandon),
        (PacketEvent::Fatal, PacketAction::Abandon),
    ];
    for (event, action) in cases {
        let mut p = DecodeProgress::new();
        assert_eq!(p.step(event), action);
        assert_eq!(p.running(), !matches!(action, PacketAction::Finish | PacketAction::Abandon));
    }
}

#[test]
fn recoverable_events_keep_the_loop_running() {
    let mut p = DecodeProgress::new();
    p.step(PacketEvent::Decoded { frames: 0 });
    p.step(PacketEvent::Malformed);
    p.step(PacketEvent::OtherTrack);
    assert!(p.running());
    assert!(!p.fed_any);
    p.step(PacketEvent::Decoded { frames: 10 });
    assert!(p.fed_any);
    assert_eq!(p.step(PacketEvent::EndOfStream), PacketAction::Finish);
    assert!(!p.running());
    assert_eq!(p.conclude(true), Ok(()));
}

#[test]
fn partial_decode_still_gives_a_result() {
    let mut p = DecodeProgress::new();
    p.step(PacketEvent::Decoded { frames: 100 });
    p.step(PacketEvent::Fatal);
    assert!(!p.running());
    assert_eq!(p.conclude(true), Ok(()));
}

#[test]
fn fatal_error_before_any_samples_is_a_decode_failure() {
    let mut p = DecodeProgress::new();
    p.step(PacketEvent::IoFailure);
    assert_eq!(p.conclude(true), Err(MeasureError::DecodeFatal));
    assert_eq!(p.conclude(false), Err(MeasureError::DecodeFatal));
}

#[test]
fn no_gated_blocks_is_no_energy_data() {
    let mut p = DecodeProgress::new();
    p.step(PacketEvent::EndOfStream);
    assert_eq!(p.conclude(false), Err(MeasureError::NoEnergyData));
    let mut q = DecodeProgress::new();
    q.step(PacketEvent::Decoded { frames: 3 });
    q.step(PacketEvent::EndOfStream);
    assert_eq!(q.conclude(false), Err(MeasureError::NoEnergyData));
}
