use sol_wallet::digits::parse_u8;
use sol_wallet::text::chars_of;

#[test]
fn parse_u8_reads_what_the_standard_library_reads() {
    let samples = [
        "0", "7", "007", "255", "256", "+5", "+", "", "-1", "1 ", " 1", "1a", "++1", "+255", "+256",
        "99999999999999999999999", "0000000000000000000000255", "٣",
    ];
    for sample in samples {
        let chars = chars_of(sample);
        assert_eq!(parse_u8(&chars, 0, chars.len()), sample.parse::<u8>().ok(), "{:?}", sample);
    }
}

#[test]
fn parse_u8_reads_a_part_of_the_characters() {
    let chars = chars_of("ab12cd");
    assert_eq!(parse_u8(&chars, 2, 4), Some(12));
    assert_eq!(parse_u8(&chars, 2, 2), None);
    assert_eq!(parse_u8(&chars, 1, 4), None);
}
