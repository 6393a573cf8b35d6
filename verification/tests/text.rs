use agentdictate::text::is_blank_str;

#[test]
fn white_space_is_what_std_calls_white_space() {
    let mut buffer = [0u8; 4];
    for c in (0u32..=0x10FFFF).filter_map(char::from_u32) {
        assert_eq!(is_blank_str(c.encode_utf8(&mut buffer)), c.is_whitespace(), "U+{:04X}", c as u32);
    }
}
