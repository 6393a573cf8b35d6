use agentdictate::ui::wav::{pcm_samples, recent_window, RECENT_SAMPLE_COUNT};

#[test]
fn a_file_with_only_a_header_has_no_samples() {
    assert_eq!(recent_window(44, RECENT_SAMPLE_COUNT), None);
    assert_eq!(recent_window(0, RECENT_SAMPLE_COUNT), None);
}

#[test]
fn the_tail_is_read_whole_and_never_inside_the_header() {
    assert_eq!(recent_window(100, RECENT_SAMPLE_COUNT), Some((44, 56)));
    assert_eq!(recent_window(44 + 10_000, 10), Some((10_024, 20)));
    assert_eq!(recent_window(44 + 10_001, 10), Some((10_026, 20)));
}

#[test]
fn samples_are_little_endian_and_signed() {
    assert_eq!(pcm_samples(&[0x01, 0x00, 0xff, 0xff, 0x00, 0x80, 0x07]), vec![1, -1, i16::MIN]);
    assert!(pcm_samples(&[0x05]).is_empty());
    let expected: Vec<i16> = [300i16, -300, 32767].iter().copied().collect();
    let bytes: Vec<u8> = expected.iter().flat_map(|s| s.to_le_bytes()).collect();
    assert_eq!(pcm_samples(&bytes), expected);
}
