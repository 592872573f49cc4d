use zifu::filename_decoder::{parse_u16, ASCIIDecoder, IDecoder, OEMCPDecoder, UTF8NFCDecoder};

fn oem_codepage(d: &IDecoder) -> Option<u16> {
    match d {
        IDecoder::OEMCP(o) => Some(o.codepage),
        _ => None,
    }
}

#[test]
fn encoding_labels_map_to_encoding_rs() {
    let sjis = IDecoder::from_encoding_name("sjis").unwrap();
    assert!(matches!(sjis, IDecoder::Legacy(_)));
    assert_eq!(sjis.encoding_name(), "Shift_JIS");
    let gbk = IDecoder::from_encoding_name("gbk").unwrap();
    assert_eq!(gbk.encoding_name(), "GBK");
}

#[test]
fn code_page_names_map_to_oem_tables() {
    assert_eq!(oem_codepage(&IDecoder::from_encoding_name("cp850").unwrap()), Some(850));
    assert_eq!(oem_codepage(&IDecoder::from_encoding_name("OEM 737").unwrap()), Some(737));
    assert_eq!(oem_codepage(&IDecoder::from_encoding_name("DOS-Latin-US").unwrap()), Some(437));
    assert_eq!(oem_codepage(&IDecoder::from_encoding_name("PC-8").unwrap()), Some(437));
    assert!(IDecoder::from_encoding_name("cp9999").is_none());
    assert!(IDecoder::from_encoding_name("no such encoding").is_none());
    assert_eq!(IDecoder::from_encoding_name("cp850").unwrap().encoding_name(), "CP850");
}

#[test]
fn locales_pick_their_oem_code_page() {
    assert_eq!(IDecoder::from_locale_name("ja-JP").encoding_name(), "Shift_JIS");
    assert_eq!(oem_codepage(&IDecoder::from_locale_name("en-US")), Some(437));
    assert_eq!(oem_codepage(&IDecoder::from_locale_name("en-GB")), Some(850));
    assert_eq!(oem_codepage(&IDecoder::from_locale_name("invalid_locale")), Some(437));
}

#[test]
fn oem_decoding() {
    let cp437 = OEMCPDecoder::from_codepage(437).unwrap();
    assert_eq!(cp437.to_string_lossless(&[0xFB, 0xAC, 0x3D, 0xAB]).as_deref(), Some("√¼=½"));
    let cp874 = OEMCPDecoder::from_codepage(874).unwrap();
    assert_eq!(cp874.to_string_lossless(&[0x30, 0xDB]), None);
    assert_eq!(cp874.to_string_lossy(&[0x30, 0xDB]), "0\u{FFFD}");
    assert!(!cp874.can_decode(&[0xDB]));
    assert!(OEMCPDecoder::from_codepage(932).is_none());
    assert_eq!(OEMCPDecoder::fallback().codepage, 437);
}

#[test]
fn legacy_decoding() {
    let sjis = IDecoder::from_encoding_name("sjis").unwrap();
    let bytes = [0x83, 0x65, 0x83, 0x58, 0x83, 0x67, 0x2E, 0x74, 0x78, 0x74];
    assert_eq!(sjis.to_string_lossless(&bytes).as_deref(), Some("テスト.txt"));
    assert_eq!(sjis.to_string_lossy(&bytes), "テスト.txt");
    assert!(sjis.can_decode(&bytes));
    assert!(!sjis.can_decode(&[0xE9]));
    assert_eq!(sjis.to_string_lossless(&[0xE9]), None);
}

#[test]
fn utf8_decoder_composes_nfc() {
    let d = UTF8NFCDecoder {};
    assert_eq!(d.to_string_lossless("Poke\u{0301}mon".as_bytes()).as_deref(), Some("Pok\u{00E9}mon"));
    assert_eq!(d.to_string_lossy(&[0x61, 0xFF, 0x62]), "a\u{FFFD}b");
    assert!(d.can_decode("テスト".as_bytes()));
    assert!(!d.can_decode(&[0x83, 0x65]));
    assert_eq!(d.to_string_lossless(&[0x83, 0x65]), None);
    assert_eq!(d.encoding_name(), "UTF-8");
}

#[test]
fn ascii_decoder() {
    let d = ASCIIDecoder {};
    assert_eq!(d.to_string_lossless(b"abc").as_deref(), Some("abc"));
    assert_eq!(d.to_string_lossless(&[0x61, 0x80]), None);
    assert_eq!(d.to_string_lossy(&[0x61, 0x80]), "a\u{FFFD}");
    assert_eq!(d.to_string_lossy(&[]), "");
    assert!(d.can_decode(&[]));
    assert_eq!(d.encoding_name(), "ASCII");
}

#[test]
fn decimal_code_pages() {
    assert_eq!(parse_u16("437"), Some(437));
    assert_eq!(parse_u16("65535"), Some(65535));
    assert_eq!(parse_u16("65536"), None);
    assert_eq!(parse_u16("99999999999"), None);
    assert_eq!(parse_u16(""), None);
    assert_eq!(parse_u16("4a"), None);
}
