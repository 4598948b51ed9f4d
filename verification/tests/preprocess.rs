use gettype::preprocess::{trim_silence, MIN_SAMPLES, TRIM_CHUNK, TRIM_THRESHOLD};

const RATE: f32 = 16_000.0;

/// Sine of the given frequency and normalized amplitude at 16 kHz.
fn sine(freq_hz: f32, amp_norm: f32, secs: f32) -> Vec<i16> {
    let n = (secs * RATE) as usize;
    (0..n)
        .map(|i| {
            let t = i as f32 / RATE;
            let v = (2.0 * std::f32::consts::PI * freq_hz * t).sin() * amp_norm;
            (v.clamp(-1.0, 1.0) * i16::MAX as f32).round() as i16
        })
        .collect()
}

#[test]
fn trims_leading_and_trailing_silence() {
    let mut input = vec![0i16; RATE as usize];
    input.extend(sine(440.0, 0.5, 0.5));
    input.extend(vec![0i16; RATE as usize]);
    let out = trim_silence(&input).expect("tone must survive trim");
    assert!(out.len() < input.len());
    assert!(out.len() >= MIN_SAMPLES);
    assert!(out.len() <= 8000 + 2 * TRIM_CHUNK);
    assert!(out.len() >= 8000 - 2 * TRIM_CHUNK);
}

#[test]
fn pure_silence_is_error() {
    let silence = vec![0i16; RATE as usize];
    assert_eq!(trim_silence(&silence), Err("Recording too short".to_string()));
    assert_eq!(trim_silence(&[]), Err("Recording too short".to_string()));
    let hiss = vec![TRIM_THRESHOLD - 1; 10_000];
    assert!(trim_silence(&hiss).is_err());
}

#[test]
fn trim_cuts_at_chunk_boundaries() {
    // Loud samples at 170 and 5000: kept from chunk 1 (160) to the end of chunk 31 (5120).
    let mut input = vec![0i16; 6000];
    input[170] = TRIM_THRESHOLD;
    input[5000] = -TRIM_THRESHOLD;
    let out = trim_silence(&input).unwrap();
    assert_eq!(out.len(), 5120 - 160);
    assert_eq!(out[10], TRIM_THRESHOLD);
    assert_eq!(out[5000 - 160], -TRIM_THRESHOLD);
}

#[test]
fn trim_refuses_too_short_speech() {
    let mut input = vec![0i16; 16_000];
    for s in input.iter_mut().skip(1600).take(3000) {
        *s = 5000;
    }
    assert!(trim_silence(&input).is_err());
}

#[test]
fn trim_keeps_short_last_chunk() {
    let mut input = vec![0i16; 4900];
    input[0] = 2000;
    input[4899] = 2000;
    assert_eq!(trim_silence(&input).unwrap().len(), 4900);
}

#[test]
fn trim_twice_is_trim_once() {
    let mut input = vec![0i16; 9000];
    input[333] = TRIM_THRESHOLD;
    input[7001] = -2 * TRIM_THRESHOLD;
    let once = trim_silence(&input).unwrap();
    assert_eq!(once.len(), 7040 - 320);
    let twice = trim_silence(&once).unwrap();
    assert_eq!(twice, once);
}

#[test]
fn full_scale_negative_samples_are_loud() {
    let input = vec![i16::MIN; MIN_SAMPLES];
    assert_eq!(trim_silence(&input), Ok(vec![i16::MIN; MIN_SAMPLES]));
}
