use murmure::audio::{downmix, resample_linear, prepare_for_transcription};

#[test]
fn resample_same_rate_is_identity() {
    let input: Vec<i16> = vec![3, -7, 10000, -32768, 32767];
    let out = resample_linear(&input, 16000, 16000);
    assert_eq!(out, input);
}

#[test]
fn resample_empty_or_zero_rate_is_empty() {
    let empty: Vec<i16> = Vec::new();
    assert!(resample_linear(&empty, 8000, 16000).is_empty());
    let input: Vec<i16> = vec![1, 2, 3];
    assert!(resample_linear(&input, 0, 16000).is_empty());
    assert!(resample_linear(&input, 8000, 0).is_empty());
}

#[test]
fn resample_doubling_rate_doubles_length() {
    let input: Vec<i16> = vec![0, 1000, 2000, 3000, 4000, 5000, 6000, 7000];
    let out = resample_linear(&input, 8000, 16000);
    assert_eq!(out.len(), 16);
}

#[test]
fn resample_upsampling_interpolates_midpoints() {
    let input: Vec<i16> = vec![0, 1000];
    let out = resample_linear(&input, 8000, 16000);
    // positions 0, 1/2, 1, 3/2 (clamped to the last sample)
    assert_eq!(out, vec![0, 500, 1000, 1000]);
}

#[test]
fn resample_values_lie_between_neighbours() {
    let input: Vec<i16> = vec![-300, 700, 200, -100, 900];
    let out = resample_linear(&input, 7000, 16000);
    for (i, v) in out.iter().enumerate() {
        let pos = i * 7000 / 16000;
        let next = if pos + 1 < input.len() { pos + 1 } else { input.len() - 1 };
        let lo = input[pos].min(input[next]);
        let hi = input[pos].max(input[next]);
        assert!(lo <= *v && *v <= hi);
    }
}

#[test]
fn resample_downsampling_halves_length() {
    let input: Vec<i16> = vec![0, 100, 200, 300, 400, 500];
    let out = resample_linear(&input, 16000, 8000);
    assert_eq!(out.len(), 3);
    assert_eq!(out, vec![0, 200, 400]);
}

#[test]
fn downmix_stereo_frame_averages_both_channels() {
    let samples: Vec<i16> = vec![100, 200];
    let mono = downmix(&samples, 2);
    assert_eq!(mono, vec![150]);
}

#[test]
fn downmix_averages_with_truncation_toward_zero() {
    let samples: Vec<i16> = vec![1, 2, -1, -2];
    let mono = downmix(&samples, 2);
    // (1+2)/2 truncates to 1, (-1-2)/2 truncates to -1
    assert_eq!(mono, vec![1, -1]);
}

#[test]
fn downmix_mono_is_identity_and_drops_partial_frames() {
    let samples: Vec<i16> = vec![5, -6, 7];
    assert_eq!(downmix(&samples, 1), samples);
    assert_eq!(downmix(&samples, 2), vec![0]);
}

#[test]
fn downmix_extreme_values_stay_in_range() {
    let samples: Vec<i16> = vec![-32768, -32768, 32767, 32767];
    let mono = downmix(&samples, 2);
    assert_eq!(mono, vec![-32768, 32767]);
}

#[test]
fn prepare_resamples_to_sixteen_khz() {
    let samples: Vec<i16> = vec![0, 0, 1000, 1000, 2000, 2000, 3000, 3000];
    // stereo at 8 kHz: downmix to 4 mono samples, then upsample to 8
    let out = prepare_for_transcription(&samples, 2, 8000);
    assert_eq!(out.len(), 8);
    assert_eq!(out[0], 0);
    assert_eq!(out[1], 500);
    // already at 16 kHz: only the downmix happens
    let out16 = prepare_for_transcription(&samples, 2, 16000);
    assert_eq!(out16, vec![0, 1000, 2000, 3000]);
}
