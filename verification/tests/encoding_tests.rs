//! The UTF-8 validity check must agree with the standard library's
//! decoder, including on overlong forms, surrogates and truncated tails.

use sanitizer::encoding::validate_utf8;

#[test]
fn utf8_agrees_with_std() {
    let cases: Vec<Vec<u8>> = vec![
        b"".to_vec(),
        b"plain ascii".to_vec(),
        "h\u{e9}llo w\u{f6}rld".as_bytes().to_vec(),
        "\u{7ff}\u{800}\u{ffff}".as_bytes().to_vec(),
        "\u{10000}\u{10ffff}".as_bytes().to_vec(),
        vec![0xff],
        vec![0x80],
        vec![0xc0, 0x80],
        vec![0xc1, 0xbf],
        vec![0xc2],
        vec![0xc2, 0x20],
        vec![0xe0, 0x80, 0x80],
        vec![0xe0, 0xa0, 0x80],
        vec![0xe0, 0x9f, 0xbf],
        vec![0xed, 0x9f, 0xbf],
        vec![0xed, 0xa0, 0x80],
        vec![0xee, 0x80, 0x80],
        vec![0xf0, 0x80, 0x80, 0x80],
        vec![0xf0, 0x90, 0x80, 0x80],
        vec![0xf0, 0x8f, 0xbf, 0xbf],
        vec![0xf4, 0x8f, 0xbf, 0xbf],
        vec![0xf4, 0x90, 0x80, 0x80],
        vec![0xf5, 0x80, 0x80, 0x80],
        vec![0xf1, 0x80, 0x80],
        vec![0x41, 0xc3],
        vec![0xc3, 0xa9, 0xe2, 0x82],
    ];
    for case in cases {
        assert_eq!(
            validate_utf8(&case),
            std::str::from_utf8(&case).is_ok(),
            "disagreement on bytes: {:?}",
            case
        );
    }
}
