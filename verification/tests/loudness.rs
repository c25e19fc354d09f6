use audio_normalizer::errors::NormError;
use audio_normalizer::meter::LoudnessAccumulator;
use audio_normalizer::remap::{remap_frames, RemapPlan};

fn sine(amplitude: f64, freq: f64, rate: u32, samples: usize) -> Vec<i16> {
    let mut v = Vec::with_capacity(samples);
    for n in 0..samples {
        let t = n as f64 / rate as f64;
        v.push((amplitude * (2.0 * std::f64::consts::PI * freq * t).sin()).round() as i16);
    }
    v
}

fn lufs(bits: u64) -> f64 {
    f64::from_bits(bits)
}

#[test]
fn mono_full_scale_sine_measures_reference_loudness() {
    let mut acc = LoudnessAccumulator::new_mono(48000).unwrap();
    let signal = sine(32767.0, 997.0, 48000, 48000);
    acc.feed(&signal).unwrap();
    let l = lufs(acc.finalize(0));
    assert!((l + 3.01).abs() < 0.1, "measured {l} LUFS, expected about -3.01");
}

#[test]
fn chunked_feeding_equals_whole_feeding() {
    let rate = 48000;
    let left = sine(20000.0, 997.0, rate, 48000);
    let right = sine(12000.0, 443.0, rate, 48000);
    // Interleave to stereo.
    let mut whole: Vec<i16> = Vec::new();
    for i in 0..left.len() {
        whole.push(left[i]);
        whole.push(right[i]);
    }

    let mut one = LoudnessAccumulator::new_stereo(rate).unwrap();
    one.feed(&whole).unwrap();
    let l_whole = lufs(one.finalize(0));

    let mut two = LoudnessAccumulator::new_stereo(rate).unwrap();
    let mut at = 0;
    let mut step = 2;
    while at < whole.len() {
        let end = usize::min(at + step, whole.len());
        let chunk: Vec<i16> = whole[at..end].to_vec();
        two.feed(&chunk).unwrap();
        at = end;
        step = (step + 6) % 480 + 2;
        step -= step % 2;
    }
    let l_chunked = lufs(two.finalize(0));
    assert!((l_whole - l_chunked).abs() < 1e-6, "{l_whole} vs {l_chunked}");
}

#[test]
fn appending_gated_silence_keeps_the_result() {
    let rate = 48000;
    // 700 ms of tone followed by 300 ms of silence.
    let mut base = sine(20000.0, 997.0, rate, 33600);
    base.resize(48000, 0);

    let mut short = LoudnessAccumulator::new_mono(rate).unwrap();
    short.feed(&base).unwrap();
    let l_short = lufs(short.finalize(0));

    let mut long = LoudnessAccumulator::new_mono(rate).unwrap();
    long.feed(&base).unwrap();
    let silence = vec![0i16; 48000];
    long.feed(&silence).unwrap();
    let l_long = lufs(long.finalize(0));

    assert!((l_short - l_long).abs() < 1e-6, "{l_short} vs {l_long}");
}

#[test]
fn six_channel_fallback_equals_leading_stereo() {
    let rate = 48000;
    let frames = 48000;
    let mut wide: Vec<i16> = Vec::new();
    let mut stereo: Vec<i16> = Vec::new();
    // A deterministic pattern; channels 0 and 1 are shared.
    let mut state: u32 = 0x2545_0123;
    for _ in 0..frames {
        let mut frame = [0i16; 6];
        for ch in 0..6 {
            state = state.wrapping_mul(1664525).wrapping_add(1013904223);
            frame[ch] = (state >> 16) as i16 / 2;
        }
        wide.extend_from_slice(&frame);
        stereo.push(frame[0]);
        stereo.push(frame[1]);
    }

    let wide_plan = RemapPlan::select(6);
    assert!(wide_plan.fallback);
    assert_eq!(wide_plan.target_channels, 2);
    let stereo_plan = RemapPlan::select(2);
    assert!(!stereo_plan.fallback);

    let wide_remapped = remap_frames(&wide, &wide_plan);
    let stereo_remapped = remap_frames(&stereo, &stereo_plan);
    assert_eq!(wide_remapped, stereo_remapped);

    let mut a = LoudnessAccumulator::new_stereo(rate).unwrap();
    a.feed(&wide_remapped).unwrap();
    let mut b = LoudnessAccumulator::new_stereo(rate).unwrap();
    b.feed(&stereo_remapped).unwrap();
    let la = lufs(a.finalize(0));
    let lb = lufs(b.finalize(0));
    assert!((la - lb).abs() < 1e-6, "{la} vs {lb}");
}

#[test]
fn finalize_with_nothing_fed_returns_the_default() {
    let acc = LoudnessAccumulator::new_mono(44100).unwrap();
    let target = (-24.0f64).to_bits();
    let r = acc.finalize(target);
    assert_eq!(r, target);
    let v = lufs(r);
    assert!(v.is_finite());
    assert_eq!(v, -24.0);
}

#[test]
fn meter_rejects_out_of_range_rates() {
    assert!(matches!(LoudnessAccumulator::new_mono(8), Err(NormError::ConfigError)));
    assert!(matches!(LoudnessAccumulator::new_stereo(3_000_000), Err(NormError::ConfigError)));
    assert!(LoudnessAccumulator::new_stereo(44100).is_ok());
}

#[test]
fn feed_rejects_ragged_chunks() {
    let mut acc = LoudnessAccumulator::new_stereo(48000).unwrap();
    let odd = vec![1i16, 2, 3];
    assert!(matches!(acc.feed(&odd), Err(NormError::ConfigError)));
    assert_eq!(acc.channel_width(), 2);
}

#[test]
fn remap_extracts_leading_channels_in_frame_order() {
    let four = vec![1i16, 2, 3, 4, 5, 6, 7, 8, 9, 10, 11, 12];
    let plan = RemapPlan::select(4);
    assert_eq!(remap_frames(&four, &plan), vec![1, 2, 5, 6, 9, 10]);

    let mono = vec![9i16, 8, 7];
    let mono_plan = RemapPlan::select(1);
    assert_eq!(mono_plan.target_channels, 1);
    assert_eq!(remap_frames(&mono, &mono_plan), vec![9, 8, 7]);

    // A trailing partial frame is dropped.
    let ragged = vec![1i16, 2, 3, 4, 5];
    assert_eq!(remap_frames(&ragged, &RemapPlan::select(3)), vec![1, 2]);

    // A zero-channel source yields nothing but still has a fallback plan.
    let zero_plan = RemapPlan::select(0);
    assert!(zero_plan.fallback);
    assert_eq!(zero_plan.target_channels, 2);
    assert_eq!(remap_frames(&Vec::new(), &zero_plan), Vec::<i16>::new());
}
