use arod::playback::{CapturePlan, RecorderError, RecorderState, PlaybackClock, replay_after_exit};

#[test]
fn recorder_parameters_are_bounded_and_unknown_keys_fail() {
    let mut s = RecorderState::default();
    assert!(s.parameter("audio-param-sampling-rate=44100"));
    assert_eq!(s.rate, 44100);
    assert!(!s.parameter("audio-param-number-of-channels=999999"));
    assert!(!s.parameter("audio-param-encoding-bitrate=-1"));
    assert!(!s.parameter("unrecognized=1"));
    assert_eq!(s.channels, 1);
}

#[test]
fn start_requires_prepared_output() {
    assert!(RecorderState::default().start().is_err());
}

#[test]
fn recorder_prepares_only_with_output_encoder_and_container() {
    let mut s = RecorderState::default();
    assert_eq!(s.prepare(), -22);
    assert_eq!(s.set_format(3), -22);
    assert_eq!(s.set_format(6), 0);
    assert_eq!(s.set_encoder(2), -22);
    assert_eq!(s.set_encoder(3), 0);
    assert_eq!(s.prepare(), -22); // no output yet
    assert_eq!(s.set_output(), 0);
    assert_eq!(s.prepare(), 0);
    assert_eq!(
        s.start(),
        Ok(CapturePlan { rate: 48000, channels: 1, bitrate: 128000, adts: true })
    );
    s.started();
    assert_eq!(s.start(), Err(RecorderError::NotPrepared));
    assert_eq!(s.stop(true), 0);
    assert!(!s.prepared);
    assert_eq!(s.stop(true), -38); // nothing runs any more
    assert_eq!(s.audio_source(1), 0);
    assert_eq!(s.audio_source(3), -22);
}

#[test]
fn recorder_release_drops_output() {
    let mut s = RecorderState::default();
    s.set_output();
    assert_eq!(s.release(), 0);
    assert!(!s.has_output);
}

#[test]
fn player_position_never_passes_the_end() {
    let mut c = PlaybackClock::new();
    c.set_source(1000);
    c.begin(5_000, 0);
    assert_eq!(c.position(5_400), 400);
    assert_eq!(c.position(9_000), 1000);
    c.pause(5_600);
    assert_eq!(c.paused_position_ms, 600);
    assert!(!c.playing);
    assert!(!c.seek(7_000, 250));
    assert_eq!(c.position(8_000), 250);
    assert_eq!(c.start_position(), 250);
    c.finished(false);
    assert_eq!(c.paused_position_ms, 1000);
    assert_eq!(c.start_position(), 0);
    c.stop();
    assert_eq!(c.position(1), 0);
    assert!(replay_after_exit(true, false));
    assert!(!replay_after_exit(true, true));
    assert!(!replay_after_exit(false, false));
}
