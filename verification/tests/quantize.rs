use ascii_art::quantize::quantize;

#[test]
fn black_is_first_and_white_is_last() {
    for len in [1usize, 2, 3, 10, 52, 255, 256, 1000, usize::MAX] {
        assert_eq!(quantize(0, len), 0);
        assert_eq!(quantize(255, len), len - 1);
    }
}

#[test]
fn quantize_never_decreases_with_the_sample() {
    for len in [1usize, 2, 3, 10, 52, 70, 256, 4096] {
        let mut last = 0usize;
        for sample in 0..=255u8 {
            let index = quantize(sample, len);
            assert!(index >= last);
            last = index;
        }
    }
}

#[test]
fn quantize_stays_inside_the_ramp() {
    for len in [1usize, 2, 3, 10, 52, 70, 256, 4096, usize::MAX] {
        for sample in 0..=255u8 {
            assert!(quantize(sample, len) < len);
        }
    }
}

#[test]
fn quantize_truncates() {
    // 128 / 255 * 9 = 4.51..., 254 / 255 * 9 = 8.96...
    assert_eq!(quantize(128, 10), 4);
    assert_eq!(quantize(254, 10), 8);
    assert_eq!(quantize(127, 3), 0);
    assert_eq!(quantize(128, 3), 1);
    assert_eq!(quantize(254, 3), 1);
    assert_eq!(quantize(28, 10), 0);
    assert_eq!(quantize(29, 10), 1);
}

#[test]
fn quantize_is_exact_on_whole_quotients() {
    // 155 * 51 = 7905 = 31 * 255
    assert_eq!(quantize(155, 52), 31);
    assert_eq!(quantize(154, 52), 30);
    // 85 * 3 = 255
    assert_eq!(quantize(85, 4), 1);
    assert_eq!(quantize(170, 4), 2);
}

#[test]
fn quantize_with_one_character() {
    for sample in 0..=255u8 {
        assert_eq!(quantize(sample, 1), 0);
    }
}

#[test]
fn quantize_on_the_longest_ramp() {
    assert_eq!(quantize(1, usize::MAX), (usize::MAX - 1) / 255);
    assert_eq!(quantize(255, usize::MAX), usize::MAX - 1);
}
