use audio_normalizer::audio_normalizer::{clamp, SessionPhase, DEFAULT_TARGET_LOUDNESS_BITS};
use audio_normalizer::errors::NormError;
use audio_normalizer::remap::{channel_layout, ChannelLayout};
use audio_normalizer::AudioNormalizer;

#[test]
fn default_target_loudness_is_minus_24_lufs() {
    assert_eq!(DEFAULT_TARGET_LOUDNESS_BITS, (-24.0f64).to_bits());
    let s = AudioNormalizer::new();
    assert_eq!(f64::from_bits(s.target_loudness()), -24.0);
}

#[test]
fn new_session_is_idle_with_zero_result() {
    let s = AudioNormalizer::new();
    assert_eq!(s.phase(), SessionPhase::Idle);
    assert_eq!(s.get_normalization_result(), 0);
    assert_eq!(f64::from_bits(s.get_normalization_result()), 0.0);
    assert_eq!(s.remapped_size(), 0);
    assert!(!s.used_fallback());
}

#[test]
fn set_target_loudness_only_changes_the_target() {
    let mut s = AudioNormalizer::new();
    let wanted = (-14.0f64).to_bits();
    s.set_target_loudness(wanted);
    assert_eq!(s.target_loudness(), wanted);
    assert_eq!(s.phase(), SessionPhase::Idle);
    assert_eq!(s.get_normalization_result(), 0);
}

#[test]
fn malformed_source_fails_with_decode_error_and_stays_idle() {
    let mut s = AudioNormalizer::new();
    let garbage = vec![0u8, 1, 2, 3, 4, 5, 6, 7];
    assert_eq!(s.set_target_ogg(garbage), Err(NormError::DecodeError));
    assert_eq!(s.phase(), SessionPhase::Idle);
    assert_eq!(s.get_normalization_result(), 0);
}

#[test]
fn empty_source_fails_with_decode_error() {
    let mut s = AudioNormalizer::new();
    assert_eq!(s.set_target_ogg(Vec::new()), Err(NormError::DecodeError));
    assert_eq!(s.phase(), SessionPhase::Idle);
}

#[test]
fn failed_configuration_keeps_the_target() {
    let mut s = AudioNormalizer::new();
    let wanted = (-18.5f64).to_bits();
    s.set_target_loudness(wanted);
    assert!(s.set_target_ogg(vec![0xff; 64]).is_err());
    assert_eq!(s.target_loudness(), wanted);
}

#[test]
fn channel_counts_fall_under_their_layouts() {
    assert_eq!(channel_layout(1), ChannelLayout::Mono);
    assert_eq!(channel_layout(2), ChannelLayout::Stereo);
    assert_eq!(channel_layout(0), ChannelLayout::Multi(0));
    assert_eq!(channel_layout(6), ChannelLayout::Multi(6));
}

#[test]
fn clamp_limits_to_the_range() {
    assert_eq!(clamp(5, 0, 2), 2);
    assert_eq!(clamp(1, 0, 2), 1);
    assert_eq!(clamp(0, 1, 3), 1);
    assert_eq!(clamp(7, 7, 7), 7);
}
