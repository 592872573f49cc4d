use zifu::filename_decoder::{decide_decoder, IDecoder, UTF8NFCDecoder};
use zifu::{FileNameEncodingType, InputZIPArchive, ZipFileEncodingType, ZipReadErrorKind};

const SJIS_TEST_TXT: [u8; 10] = [0x83, 0x65, 0x83, 0x58, 0x83, 0x67, 0x2E, 0x74, 0x78, 0x74];
const UTF8_FLAG: u16 = 0x0800;

fn le16(out: &mut Vec<u8>, v: u16) {
    out.extend_from_slice(&v.to_le_bytes());
}

fn le32(out: &mut Vec<u8>, v: u32) {
    out.extend_from_slice(&v.to_le_bytes());
}

/// A stored (uncompressed) entry: name bytes, general purpose flags, content.
struct Entry {
    name: Vec<u8>,
    flags: u16,
    content: Vec<u8>,
}

fn entry(name: &[u8], flags: u16, content: &[u8]) -> Entry {
    Entry { name: name.to_vec(), flags, content: content.to_vec() }
}

/// Lays out local headers, central directory and end record back to back.
fn build_zip(entries: &[Entry], comment: &[u8]) -> Vec<u8> {
    let mut out = Vec::new();
    let mut cd = Vec::new();
    for e in entries {
        let offset = out.len() as u32;
        out.extend_from_slice(&[0x50, 0x4b, 0x03, 0x04]);
        le16(&mut out, 20);
        le16(&mut out, e.flags);
        le16(&mut out, 0);
        le16(&mut out, 0x6000);
        le16(&mut out, 0x5521);
        le32(&mut out, 0x1234_5678);
        le32(&mut out, e.content.len() as u32);
        le32(&mut out, e.content.len() as u32);
        le16(&mut out, e.name.len() as u16);
        le16(&mut out, 0);
        out.extend_from_slice(&e.name);
        out.extend_from_slice(&e.content);

        cd.extend_from_slice(&[0x50, 0x4b, 0x01, 0x02]);
        le16(&mut cd, 0x031e);
        le16(&mut cd, 20);
        le16(&mut cd, e.flags);
        le16(&mut cd, 0);
        le16(&mut cd, 0x6000);
        le16(&mut cd, 0x5521);
        le32(&mut cd, 0x1234_5678);
        le32(&mut cd, e.content.len() as u32);
        le32(&mut cd, e.content.len() as u32);
        le16(&mut cd, e.name.len() as u16);
        le16(&mut cd, 0);
        le16(&mut cd, 0);
        le16(&mut cd, 0);
        le16(&mut cd, 0);
        le32(&mut cd, 0o100644 << 16);
        le32(&mut cd, offset);
        cd.extend_from_slice(&e.name);
    }
    let cd_start = out.len() as u32;
    let cd_size = cd.len() as u32;
    out.extend_from_slice(&cd);
    out.extend_from_slice(&[0x50, 0x4b, 0x05, 0x06]);
    le16(&mut out, 0);
    le16(&mut out, 0);
    le16(&mut out, entries.len() as u16);
    le16(&mut out, entries.len() as u16);
    le32(&mut out, cd_size);
    le32(&mut out, cd_start);
    le16(&mut out, comment.len() as u16);
    out.extend_from_slice(comment);
    out
}

fn sjis_archive() -> Vec<u8> {
    build_zip(&[entry(&SJIS_TEST_TXT, 0, b"test\n")], b"")
}

fn utf8_archive() -> Vec<u8> {
    build_zip(&[entry("テスト.txt".as_bytes(), UTF8_FLAG, b"test\n")], b"")
}

fn output(zip: &mut InputZIPArchive) -> Vec<u8> {
    let mut dump = Vec::new();
    zip.output_archive_with_central_directory_file_names(&mut dump).unwrap();
    dump
}

#[test]
fn zip_file_test_convert_and_compare_content_test() {
    let mut before = InputZIPArchive::new(sjis_archive()).unwrap();
    before.check_unsupported_zip_type().unwrap();
    assert!(before.diagnose_file_name_encoding().has_implicit_non_ascii_names, "has non-ASCII file names");
    let sjis_decoder = IDecoder::from_encoding_name("sjis")
        .expect("`sjis` is not suitable encoding name for `IDecoder::from_encoding_name`");
    assert!(matches!(before.get_filename_decoder_index(&[sjis_decoder]), Some(_)), "sjis decoder is matched");
    let names_list = before.get_file_names_list(&sjis_decoder);
    let name_entry = names_list.get(0).expect("`names_list` has at least one entry");
    assert_eq!(name_entry.name, "テスト.txt", "file name is `テスト.txt`");
    assert!(
        matches!(name_entry.encoding_type, FileNameEncodingType::ImplicitNonASCII),
        "file name is implicit non-ASCII"
    );

    before.convert_central_directory_file_names(&sjis_decoder).unwrap();

    assert!(before.diagnose_file_name_encoding().is_universal_archive(), "archive is universal after application");
    let names_list = before.get_file_names_list(&sjis_decoder);
    let name_entry = names_list.get(0).expect("`names_list` still has at least one entry");
    assert_eq!(name_entry.name, "テスト.txt", "file name is still `テスト.txt`");
    assert!(
        matches!(name_entry.encoding_type, FileNameEncodingType::ExplicitRegularUTF8),
        "file name turned to be explicitly regular UTF-8"
    );

    assert_eq!(output(&mut before), utf8_archive(), "Dumped content is the same as what is expected");
}

#[test]
fn zip_file_test_utf8_unencrypted_archive_test() {
    let mut zip = InputZIPArchive::new(utf8_archive()).unwrap();
    zip.check_unsupported_zip_type().unwrap();
    assert!(zip.diagnose_file_name_encoding().is_universal_archive(), "universal archive");
    let decoder = IDecoder::utf8();
    let names_list = zip.get_file_names_list(&decoder);
    let name_entry = names_list.get(0).expect("`names_list` has at least one entry");
    assert_eq!(name_entry.name, "テスト.txt", "file name is `テスト.txt`");
    assert!(
        matches!(name_entry.encoding_type, FileNameEncodingType::ExplicitRegularUTF8),
        "file name is explicitly regular UTF-8"
    );

    let dump1 = output(&mut zip);
    zip.convert_central_directory_file_names(&decoder).unwrap();
    let dump2 = output(&mut zip);
    assert_eq!(dump1, dump2, "content not changed");
}

#[test]
fn macos_finder_emulate_test() {
    const FILE_NAME: &str = "ほげふがぴよ.txt";
    let decomposed = hfs_nfd::decompose_into_hfs_nfd(FILE_NAME);
    assert_ne!(decomposed, FILE_NAME);
    let mut before =
        InputZIPArchive::new(build_zip(&[entry(decomposed.as_bytes(), UTF8_FLAG, b"hoge")], b"")).unwrap();
    before.check_unsupported_zip_type().unwrap();
    assert!(
        !before.diagnose_file_name_encoding().has_implicit_non_ascii_names,
        "does not have implicit non-ASCII file names"
    );
    assert!(
        before.diagnose_file_name_encoding().has_non_nfc_explicit_utf8_names,
        "has irregular UTF-8 encoded file names"
    );
    assert!(!before.diagnose_file_name_encoding().is_universal_archive(), "not universal archive");
    let decoder = IDecoder::utf8();
    let names_list = before.get_file_names_list(&decoder);
    let name_entry = names_list.get(0).expect("`names_list` has at least one entry");
    assert_eq!(name_entry.name, FILE_NAME, "file name is `ほげふがぴよ.txt` (NFC)");
    assert!(
        matches!(name_entry.encoding_type, FileNameEncodingType::ExplicitIrregularUTF8),
        "file name is explicitly irregular UTF-8"
    );

    before.convert_central_directory_file_names(&decoder).unwrap();
    let dump = output(&mut before);
    let after = InputZIPArchive::new(dump).unwrap();
    assert!(after.diagnose_file_name_encoding().is_universal_archive(), "archive turned to be universal");
    let names_list = before.get_file_names_list(&decoder);
    let name_entry = names_list.get(0).expect("`names_list` has at least one entry");
    assert_eq!(name_entry.name, FILE_NAME, "file name is `ほげふがぴよ.txt` (NFC)");
    assert!(
        matches!(name_entry.encoding_type, FileNameEncodingType::ExplicitRegularUTF8),
        "file name turned to be regular UTF-8"
    );
    assert_eq!(after.cd_entries()[0].file_name_raw, FILE_NAME.as_bytes());
}

#[test]
fn implicit_utf8_test() {
    let mut before =
        InputZIPArchive::new(build_zip(&[entry("テスト.txt".as_bytes(), 0, b"test\n")], b"")).unwrap();
    before.check_unsupported_zip_type().unwrap();
    assert!(before.diagnose_file_name_encoding().has_implicit_non_ascii_names, "has non-ASCII file names");
    let utf8_decoder = IDecoder::UTF8NFC(UTF8NFCDecoder {});
    assert!(matches!(before.get_filename_decoder_index(&[utf8_decoder]), Some(_)), "utf-8 decoder is matched");
    let names_list = before.get_file_names_list(&utf8_decoder);
    let name_entry = names_list.get(0).expect("`names_list` has at least one entry");
    assert_eq!(name_entry.name, "テスト.txt", "file name is `テスト.txt`");
    assert!(
        matches!(name_entry.encoding_type, FileNameEncodingType::ImplicitNonASCII),
        "file name is implicit non-ASCII"
    );

    before.convert_central_directory_file_names(&utf8_decoder).unwrap();

    assert!(before.diagnose_file_name_encoding().is_universal_archive(), "archive is universal after application");
    let names_list = before.get_file_names_list(&utf8_decoder);
    let name_entry = names_list.get(0).expect("`names_list` still has at least one entry");
    assert_eq!(name_entry.name, "テスト.txt", "file name is still `テスト.txt`");
    assert!(
        matches!(name_entry.encoding_type, FileNameEncodingType::ExplicitRegularUTF8),
        "file name turned to be explicitly regular UTF-8"
    );
    assert_eq!(output(&mut before), utf8_archive(), "Dumped content is the same as what is expected");
}

#[test]
fn sjis_scenario_end_to_end() {
    let mut zip = InputZIPArchive::new(sjis_archive()).unwrap();
    assert!(zip.diagnose_file_name_encoding().has_implicit_non_ascii_names);
    let sjis = IDecoder::from_encoding_name("sjis").unwrap();
    let candidates = [IDecoder::ascii(), sjis, IDecoder::utf8()];
    assert_eq!(zip.get_filename_decoder_index(&candidates), Some(1));
    zip.convert_central_directory_file_names(&sjis).unwrap();
    let cd = &zip.cd_entries()[0];
    assert_eq!(cd.file_name_raw, "テスト.txt".as_bytes());
    assert_eq!(cd.file_name_length, 13);
    assert!(cd.is_encoded_in_utf8());
    let dump = output(&mut zip);
    let local_header_length = 30 + 13 + 5;
    assert_eq!(zip.eocd().cd_starting_position, local_header_length);
    let reloaded = InputZIPArchive::new(dump).unwrap();
    assert_eq!(reloaded.eocd().cd_starting_position, local_header_length);
    assert_eq!(reloaded.cd_entries()[0].local_header_position, 0);
}

#[test]
fn round_trip_without_conversion() {
    let original = build_zip(
        &[
            entry(b"a.txt", 0, b"alpha"),
            entry("テスト.txt".as_bytes(), UTF8_FLAG, b"beta"),
            entry(b"dir/c.bin", 0, &[0, 1, 2, 3, 0x50, 0x4b, 5, 6]),
        ],
        b"archive comment",
    );
    let mut zip = InputZIPArchive::new(original.clone()).unwrap();
    assert_eq!(output(&mut zip), original);
}

#[test]
fn convert_twice_is_idempotent() {
    let mut zip = InputZIPArchive::new(build_zip(
        &[entry(&SJIS_TEST_TXT, 0, b"x"), entry(b"plain.txt", 0, b"y")],
        b"",
    ))
    .unwrap();
    let sjis = IDecoder::from_encoding_name("shift_jis").unwrap();
    zip.convert_central_directory_file_names(&sjis).unwrap();
    let once = output(&mut zip);
    let mut reloaded = InputZIPArchive::new(once.clone()).unwrap();
    reloaded.convert_central_directory_file_names(&sjis).unwrap();
    assert_eq!(reloaded.cd_entries()[0].file_name_raw, "テスト.txt".as_bytes());
    let twice = output(&mut reloaded);
    assert_eq!(once, twice);
}

#[test]
fn eocd_magic_inside_comment() {
    let comment = [b'x', 0x50, 0x4b, 0x05, 0x06, 1, 2, 3, 4, 5, 6, 7];
    let data = build_zip(&[entry(b"a.txt", 0, b"alpha")], &comment);
    let zip = InputZIPArchive::new(data.clone()).unwrap();
    let expected_position = (data.len() - 22 - comment.len()) as u64;
    assert_eq!(zip.eocd().starting_position_with_signature, expected_position);
    assert_eq!(zip.eocd().comment, comment.to_vec());
    assert_eq!(zip.cd_entries().len(), 1);
}

#[test]
fn eocd_magic_before_true_record() {
    let content = [0x50, 0x4b, 0x05, 0x06, 0, 0, 0, 0];
    let data = build_zip(&[entry(b"a.bin", 0, &content)], b"");
    let zip = InputZIPArchive::new(data.clone()).unwrap();
    assert_eq!(zip.eocd().starting_position_with_signature, (data.len() - 22) as u64);
}

#[test]
fn encrypted_entry_is_unsupported() {
    let data = build_zip(&[entry(b"a.txt", 0, b"x"), entry(b"secret.txt", 0x0001, b"y")], b"");
    let err = InputZIPArchive::new(data).err().unwrap();
    assert_eq!(err.kind(), ZipReadErrorKind::UnsupportedZipArchive);
}

#[test]
fn missing_eocd_is_invalid() {
    let err = InputZIPArchive::new(b"not a zip archive at all".to_vec()).err().unwrap();
    assert_eq!(err.kind(), ZipReadErrorKind::InvalidZipArchive);
}

#[test]
fn central_directory_past_the_end_is_an_io_error() {
    let mut data = build_zip(&[entry(b"a.txt", 0, b"x")], b"");
    let eocd_at = data.len() - 22;
    let past = (data.len() - 2) as u32;
    data[eocd_at + 16..eocd_at + 20].copy_from_slice(&past.to_le_bytes());
    let err = InputZIPArchive::new(data).err().unwrap();
    assert_eq!(err.kind(), ZipReadErrorKind::IOError);
}

#[test]
fn wrong_central_directory_signature_is_invalid() {
    let mut data = build_zip(&[entry(b"a.txt", 0, b"x")], b"");
    let eocd_at = data.len() - 22;
    data[eocd_at + 16..eocd_at + 20].copy_from_slice(&0u32.to_le_bytes());
    let err = InputZIPArchive::new(data).err().unwrap();
    assert_eq!(err.kind(), ZipReadErrorKind::InvalidZipArchive);
}

#[test]
fn extra_bytes_before_eocd_are_unsupported() {
    let mut data = build_zip(&[entry(b"a.txt", 0, b"x")], b"");
    let eocd_at = data.len() - 22;
    data.insert(eocd_at, 0);
    let err = InputZIPArchive::new(data).err().unwrap();
    assert_eq!(err.kind(), ZipReadErrorKind::UnsupportedZipArchive);
}

#[test]
fn split_archive_is_rejected() {
    let mut data = build_zip(&[entry(b"a.txt", 0, b"x")], b"");
    let eocd_at = data.len() - 22;
    data[eocd_at + 4] = 1;
    let zip = InputZIPArchive::new(data).unwrap();
    let err = zip.check_unsupported_zip_type().err().unwrap();
    assert_eq!(err.kind(), ZipReadErrorKind::UnsupportedZipArchive);
}

#[test]
fn encoding_statistics() {
    let zip = InputZIPArchive::new(utf8_archive()).unwrap();
    assert_eq!(zip.check_file_name_encoding(), ZipFileEncodingType::AllExplicitUTF8);
    let zip = InputZIPArchive::new(build_zip(&[entry(b"a", 0, b""), entry("é".as_bytes(), UTF8_FLAG, b"")], b"")).unwrap();
    let stats = zip.check_file_name_encoding();
    assert_eq!(stats, ZipFileEncodingType::ExplicitUTF8AndLegacy { n_utf8: 1, n_legacy: 1 });
    assert_eq!(
        stats.get_status_primary_message(),
        "Some file names are not explicitly encoded in UTF-8. (1 / 2)"
    );
    let zip = InputZIPArchive::new(build_zip(&[entry(b"a", 0, b""), entry(b"b", UTF8_FLAG, b"")], b"")).unwrap();
    let stats = zip.check_file_name_encoding();
    assert_eq!(stats, ZipFileEncodingType::ExplicitUTF8AndASCII { n_utf8: 1, n_ascii: 1 });
    assert_eq!(
        stats.get_status_primary_message(),
        "1 file names are explicitly encoded in UTF-8, and 1 file names are implicitly ASCII."
    );
    assert!(stats.is_universal_archive());
    let zip = InputZIPArchive::new(sjis_archive()).unwrap();
    assert_eq!(zip.check_file_name_encoding(), ZipFileEncodingType::AllLegacy);
}

#[test]
fn selector_prefers_earlier_decoders() {
    let sjis = IDecoder::from_encoding_name("sjis").unwrap();
    let candidates = [IDecoder::ascii(), sjis, IDecoder::utf8()];
    assert_eq!(decide_decoder(&candidates, &[SJIS_TEST_TXT.to_vec()]), Some(1));
    assert_eq!(decide_decoder(&candidates, &[b"plain.txt".to_vec()]), Some(0));
    assert_eq!(decide_decoder(&candidates, &[SJIS_TEST_TXT.to_vec(), vec![0xE9]]), None);
    assert_eq!(decide_decoder(&candidates, &[]), Some(0));
}
