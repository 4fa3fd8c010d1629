use structuredmerge_core::source::{lower_hex_text, sha256_hex, LineEndings};
use structuredmerge_core::{
    source_input, ByteRange, SourceDocument, SourceEncoding, SourceErrorCode, SourceMap, SourceRole,
};

#[test]
fn describing_bytes_computes_digest_length_and_layout() {
    let input = source_input("s".into(), SourceRole::Source, SourceEncoding::Utf8, b"abc".to_vec()).unwrap();
    assert_eq!(
        input.descriptor.sha256,
        "ba7816bf8f01cfea414140de5dae2223b00361a396177a9cb410ff61f20015ad"
    );
    assert_eq!(input.descriptor.byte_length, 3);
    assert_eq!(input.descriptor.line_endings, LineEndings::Absent);
    assert!(!input.descriptor.final_newline);
    assert!(!input.descriptor.bom);
    let crlf = source_input("t".into(), SourceRole::Base, SourceEncoding::Utf8, b"x\r\n".to_vec()).unwrap();
    assert_eq!(crlf.descriptor.line_endings, LineEndings::Crlf);
    assert!(crlf.descriptor.final_newline);
    let mixed = source_input("m".into(), SourceRole::Base, SourceEncoding::Utf8, b"a\nb\r\n".to_vec()).unwrap();
    assert_eq!(mixed.descriptor.line_endings, LineEndings::Mixed);
    let bom = source_input("b".into(), SourceRole::Base, SourceEncoding::Utf8, b"\xEF\xBB\xBFx".to_vec()).unwrap();
    assert!(bom.descriptor.bom);
}

#[test]
fn describing_refuses_empty_identity_and_malformed_utf8() {
    let error = source_input(String::new(), SourceRole::Source, SourceEncoding::Utf8, b"x".to_vec()).unwrap_err();
    assert_eq!(error.code, SourceErrorCode::EmptySourceId);
    let error = source_input("s".into(), SourceRole::Source, SourceEncoding::Utf8, vec![0xff, 0xfe]).unwrap_err();
    assert_eq!(error.code, SourceErrorCode::InvalidUtf8);
    assert_eq!(error.source_id, "s");
    assert!(source_input("s".into(), SourceRole::Source, SourceEncoding::Binary, vec![0xff, 0xfe]).is_ok());
}

#[test]
fn described_input_validates_and_keeps_its_bytes() {
    let input = source_input("s".into(), SourceRole::Source, SourceEncoding::Utf8, "héllo\n".as_bytes().to_vec())
        .unwrap();
    let document = SourceDocument::validate(input.clone(), 7).unwrap();
    assert_eq!(document.bytes(), "héllo\n".as_bytes());
    assert_eq!(document.descriptor(), &input.descriptor);
    assert_eq!(SourceDocument::validate(input, 6).unwrap_err().code, SourceErrorCode::LimitExceeded);
}

#[test]
fn validation_detects_descriptor_mismatch() {
    let mut input = source_input("s".into(), SourceRole::Source, SourceEncoding::Utf8, b"abc".to_vec()).unwrap();
    input.bytes[1] = b'x';
    assert_eq!(SourceDocument::validate(input, 10).unwrap_err().code, SourceErrorCode::DescriptorMismatch);
}

#[test]
fn points_count_rows_and_byte_columns() {
    let input = source_input("s".into(), SourceRole::Source, SourceEncoding::Utf8, "é\nab".as_bytes().to_vec())
        .unwrap();
    let document = SourceDocument::validate(input, 100).unwrap();
    let end_of_e = document.point(2).unwrap();
    assert_eq!((end_of_e.row, end_of_e.column), (0, 2));
    let b = document.point(4).unwrap();
    assert_eq!((b.row, b.column), (1, 1));
    assert_eq!(document.point(6).unwrap_err().code, SourceErrorCode::InvalidRange);
}

#[test]
fn slices_and_range_digests_require_valid_ranges() {
    let input = source_input("s".into(), SourceRole::Source, SourceEncoding::Utf8, b"xabcx".to_vec()).unwrap();
    let document = SourceDocument::validate(input, 100).unwrap();
    assert_eq!(document.slice(ByteRange { start_byte: 1, end_byte: 4 }).unwrap(), b"abc");
    assert_eq!(
        document.range_digest(ByteRange { start_byte: 1, end_byte: 4 }).unwrap(),
        "ba7816bf8f01cfea414140de5dae2223b00361a396177a9cb410ff61f20015ad"
    );
    assert_eq!(
        document.slice(ByteRange { start_byte: 4, end_byte: 1 }).unwrap_err().code,
        SourceErrorCode::InvalidRange
    );
    assert!(document.range_digest(ByteRange { start_byte: 0, end_byte: 6 }).is_err());
}

#[test]
fn hex_text_and_digest_text() {
    assert_eq!(lower_hex_text(&[0x00, 0x0f, 0xa5, 0xff]), "000fa5ff");
    assert_eq!(
        sha256_hex(b""),
        "e3b0c44298fc1c149afbf4c8996fb92427ae41e4649b934ca495991b7852b855"
    );
}

#[test]
fn maps_bind_each_input_under_one_budget() {
    let a = source_input("a".into(), SourceRole::Base, SourceEncoding::Utf8, b"aa".to_vec()).unwrap();
    let b = source_input("b".into(), SourceRole::Ours, SourceEncoding::Utf8, b"bbb".to_vec()).unwrap();
    let map = SourceMap::validate(vec![a.clone(), b.clone()], 5).unwrap();
    assert_eq!(map.len(), 2);
    assert_eq!(map.get("b").unwrap().bytes(), b"bbb");
    assert_eq!(map.get("a").unwrap().descriptor(), &a.descriptor);
    assert_eq!(map.get("c").unwrap_err().code, SourceErrorCode::UnknownSource);
    let error = SourceMap::validate(vec![a.clone(), b.clone()], 4).unwrap_err();
    assert_eq!((error.code, error.source_id.as_str()), (SourceErrorCode::LimitExceeded, "b"));
    let error = SourceMap::validate(vec![a.clone(), a], 10).unwrap_err();
    assert_eq!(error.code, SourceErrorCode::DuplicateSourceId);
}
