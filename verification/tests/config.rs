use aviabot::config;

#[test]
fn default_gain_is_five() {
    assert_eq!(f32::from_bits(config::default_output_gain()), 5.0);
}

#[test]
fn default_frames_are_twenty_milliseconds_at_48_khz() {
    assert_eq!(config::default_frame_ms(), 20);
    assert_eq!(config::default_sample_rate(), 48000);
    assert_eq!(aviabot::audio::FRAME_SAMPLES, 960);
    assert_eq!(aviabot::audio::SAMPLE_RATE, 48000);
    assert_eq!(aviabot::audio::FRAME_MS, 20);
}
