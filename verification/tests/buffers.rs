use rs_pedalboard::buffers::{deinterleave, delay_index, keep_newest, split_half_band_taps};

#[test]
fn interleaved_frames_split_into_channels() {
    let samples = vec![1.0f32, -1.0, 2.0, -2.0, 3.0, -3.0, 4.0];
    let channels = deinterleave(&samples, 2);
    assert_eq!(channels, vec![vec![1.0, 2.0, 3.0], vec![-1.0, -2.0, -3.0]]);

    let mono = deinterleave(&samples, 1);
    assert_eq!(mono, vec![samples.clone()]);

    let too_few = deinterleave(&vec![1, 2], 3);
    assert_eq!(too_few, vec![Vec::<i32>::new(), Vec::new(), Vec::new()]);
}

#[test]
fn only_the_newest_samples_are_kept() {
    let mut window: Vec<f32> = Vec::new();
    keep_newest(&mut window, &[1.0, 2.0], 4);
    assert_eq!(window, vec![1.0, 2.0]);
    keep_newest(&mut window, &[3.0, 4.0, 5.0], 4);
    assert_eq!(window, vec![2.0, 3.0, 4.0, 5.0]);
    keep_newest(&mut window, &[6.0, 7.0, 8.0, 9.0, 10.0], 4);
    assert_eq!(window, vec![7.0, 8.0, 9.0, 10.0]);
    keep_newest(&mut window, &[], 2);
    assert_eq!(window, vec![9.0, 10.0]);
}

#[test]
fn half_band_taps_keep_the_even_ones_and_the_centre() {
    // Seven taps: the centre is at 3, so the even taps are 0, 2, 4 and 6
    let taps = vec![10, 11, 12, 13, 14, 15, 16];
    assert_eq!(split_half_band_taps(&taps), (vec![10, 12, 14, 16], 13));

    // Five taps: the centre is at 2, an even position, which is left out of the even taps
    let taps = vec![0.1f32, 0.0, 0.5, 0.0, 0.1];
    assert_eq!(split_half_band_taps(&taps), (vec![0.1, 0.1], 0.5));

    assert_eq!(split_half_band_taps(&vec![7]), (vec![], 7));
}

#[test]
fn delay_slots_wrap_around() {
    assert_eq!(delay_index(5, 2, 8), 3);
    assert_eq!(delay_index(1, 2, 8), 7);
    assert_eq!(delay_index(0, 8, 8), 0);
    assert_eq!(delay_index(3, 0, 8), 3);
}
