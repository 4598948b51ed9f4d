use gettype::resample::{first_channel, resample_linear, TARGET_SAMPLE_RATE};

#[test]
fn equal_rates_and_empty_input_pass_through() {
    let s = vec![1i16, -2, 3];
    assert_eq!(resample_linear(&s, 16_000, 16_000), s);
    assert_eq!(resample_linear(&[], 48_000, TARGET_SAMPLE_RATE), Vec::<i16>::new());
}

#[test]
fn downsample_by_three_picks_every_third() {
    let s: Vec<i16> = (0..9).map(|i| (i * 10) as i16).collect();
    assert_eq!(resample_linear(&s, 48_000, 16_000), vec![0, 30, 60]);
}

#[test]
fn upsample_interpolates_and_rounds_half_away_from_zero() {
    assert_eq!(resample_linear(&[0, 1], 8_000, 16_000), vec![0, 1, 1, 1]);
    assert_eq!(resample_linear(&[0, -1], 8_000, 16_000), vec![0, -1, -1, -1]);
    assert_eq!(resample_linear(&[0, 10, 20], 1, 2), vec![0, 5, 10, 15, 20, 20]);
}

#[test]
fn output_length_follows_the_rate_ratio() {
    let s = vec![100i16; 44_100];
    let out = resample_linear(&s, 44_100, 16_000);
    assert_eq!(out.len(), 16_000);
    assert!(out.iter().all(|&v| v == 100));
}

#[test]
fn extremes_stay_in_range() {
    let out = resample_linear(&[i16::MIN, i16::MAX], 1, 4);
    assert_eq!(out, vec![-32768, -16384, -1, 16383, 32767, 32767, 32767, 32767]);
}

#[test]
fn too_few_samples_for_one_output() {
    assert_eq!(resample_linear(&[5, 6], 48_000, 16_000), Vec::<i16>::new());
}

#[test]
fn first_channel_of_frames() {
    assert_eq!(first_channel(&[1, 2, 3, 4, 5, 6], 2), vec![1, 3, 5]);
    assert_eq!(first_channel(&[1, 2, 3, 4, 5], 2), vec![1, 3, 5]);
    assert_eq!(first_channel(&[7, 8, 9], 1), vec![7, 8, 9]);
    assert_eq!(first_channel(&[], 3), Vec::<i16>::new());
}
