use audio_normalizer::errors::NormError;
use audio_normalizer::splitter::{split_frames, split_source, SplitBuffers};

fn four_channel_sines(frames: usize, rate: u32) -> Vec<i16> {
    let mut v = Vec::with_capacity(frames * 4);
    for n in 0..frames {
        let t = n as f64 / rate as f64;
        for ch in 0..4 {
            let freq = 200.0 * (ch + 1) as f64;
            let amp = 1000.0 * (ch + 1) as f64;
            v.push((amp * (2.0 * std::f64::consts::PI * freq * t).sin()).round() as i16);
        }
    }
    v
}

fn u32_at(bytes: &[u8], at: usize) -> u32 {
    bytes[at] as u32
        | (bytes[at + 1] as u32) << 8
        | (bytes[at + 2] as u32) << 16
        | (bytes[at + 3] as u32) << 24
}

fn u16_at(bytes: &[u8], at: usize) -> u16 {
    bytes[at] as u16 | (bytes[at + 1] as u16) << 8
}

fn i16_at(bytes: &[u8], at: usize) -> i16 {
    u16_at(bytes, at) as i16
}

#[test]
fn splitting_two_channels_fails_and_leaves_buffers_empty() {
    let mut out = SplitBuffers::new();
    let stereo = vec![1i16, 2, 3, 4, 5, 6];
    let r = split_frames(&stereo, 2, 48000, &mut out);
    assert_eq!(r, Err(NormError::UnsupportedChannelLayout));
    assert_eq!(out.instrumental.len(), 0);
    assert_eq!(out.vocal.len(), 0);
}

#[test]
fn splitting_overwrites_previous_outputs() {
    let mut out = SplitBuffers::new();
    let four = four_channel_sines(10, 48000);
    assert_eq!(split_frames(&four, 4, 48000, &mut out), Ok(()));
    assert!(out.instrumental.len() > 0);
    let stereo = vec![1i16, 2, 3, 4];
    assert_eq!(split_frames(&stereo, 2, 48000, &mut out), Err(NormError::UnsupportedChannelLayout));
    assert_eq!(out.instrumental.len(), 0);
    assert_eq!(out.vocal.len(), 0);
}

#[test]
fn four_channel_split_produces_exact_stereo_wav_streams() {
    let frames = 480;
    let rate = 48000;
    let samples = four_channel_sines(frames, rate);
    let mut out = SplitBuffers::new();
    assert_eq!(split_frames(&samples, 4, rate, &mut out), Ok(()));

    let data_len = (frames * 4) as u32;
    for (which, stream) in [&mut out.instrumental, &mut out.vocal].into_iter().enumerate() {
        let bytes = stream.read(usize::MAX);
        assert_eq!(bytes.len(), 44 + data_len as usize);
        // RIFF/WAVE framing with a length-prefixed data chunk.
        assert_eq!(&bytes[0..4], b"RIFF");
        assert_eq!(u32_at(&bytes, 4), 36 + data_len);
        assert_eq!(&bytes[8..12], b"WAVE");
        assert_eq!(&bytes[12..16], b"fmt ");
        assert_eq!(u32_at(&bytes, 16), 16);
        assert_eq!(u16_at(&bytes, 20), 1); // PCM
        assert_eq!(u16_at(&bytes, 22), 2); // stereo
        assert_eq!(u32_at(&bytes, 24), rate);
        assert_eq!(u32_at(&bytes, 28), rate * 4);
        assert_eq!(u16_at(&bytes, 32), 4); // block align
        assert_eq!(u16_at(&bytes, 34), 16); // bits per sample
        assert_eq!(&bytes[36..40], b"data");
        // The declared sample-frame count equals the decoded frame count.
        assert_eq!(u32_at(&bytes, 40), data_len);
        assert_eq!(u32_at(&bytes, 40) / 4, frames as u32);
        // The payload equals source channels {0,1} or {2,3} exactly.
        let base = 2 * which;
        for n in 0..frames {
            assert_eq!(i16_at(&bytes, 44 + 4 * n), samples[4 * n + base]);
            assert_eq!(i16_at(&bytes, 44 + 4 * n + 2), samples[4 * n + base + 1]);
        }
    }
}

#[test]
fn split_source_rejects_malformed_input() {
    let mut out = SplitBuffers::new();
    let garbage = vec![0x4fu8, 0x67, 0x67, 0x53, 1, 2, 3, 4, 5, 6, 7, 8];
    let r = split_source(garbage, &mut out);
    assert_eq!(r, Err(NormError::DecodeError));
    assert_eq!(out.instrumental.len(), 0);
    assert_eq!(out.vocal.len(), 0);

    let empty = Vec::new();
    assert_eq!(split_source(empty, &mut out), Err(NormError::DecodeError));
    assert_eq!(out.instrumental.len(), 0);
    assert_eq!(out.vocal.len(), 0);
}
