use structuredmerge_core::metadata::Metadata;
use structuredmerge_core::native_operation::{diff_span, DiffSourceRegion};
use structuredmerge_core::operation::{
    DiffPolicy, MergeProviderSelection, OperationParserSelection, OperationPolicy, OperationSource,
};
use structuredmerge_core::role_map::RoleMap;
use structuredmerge_core::{
    source_input, ByteRange, OperationRequest, SourceEncoding, SourceRole, OPERATION_SCHEMA,
};

fn source(id: &str, role: SourceRole, text: &str, sha256: &str) -> OperationSource {
    OperationSource {
        source_id: id.into(),
        role,
        byte_length: text.len() as u64,
        sha256: sha256.into(),
        encoding: "utf-8".into(),
        content: Some(text.into()),
        bytes: None,
        reference: None,
        bom: None,
        line_endings: None,
        final_newline: None,
        extra: Metadata::new(),
    }
}

#[test]
fn diff_projection_rejects_wrong_identity_digest_and_out_of_bounds_regions() {
    let text = "a: été\r\n";
    let digest = source_input("before".into(), SourceRole::Before, SourceEncoding::Utf8, text.as_bytes().to_vec())
        .unwrap()
        .descriptor
        .sha256;
    let mut sources = RoleMap::new();
    sources.insert(SourceRole::Before, source("before", SourceRole::Before, text, &digest));
    sources.insert(SourceRole::After, source("after", SourceRole::After, text, &digest));
    let request = OperationRequest {
        schema: OPERATION_SCHEMA.into(),
        request_id: "span-test".into(),
        operation: OperationPolicy::Diff2(DiffPolicy {
            comparison_profile: None,
            equivalence: None,
            source_preservation_evidence: None,
            extra: Metadata::new(),
        }),
        provider_selection: MergeProviderSelection {
            provider_id: None,
            family: Some("yaml".into()),
            dialect: None,
            profile_id: None,
            required_capabilities: vec![],
            extra: Metadata::new(),
        },
        parser_selection: OperationParserSelection {
            backend: None,
            preference: vec![],
            required_capabilities: vec![],
            profile_id: None,
            language_version: None,
            extra: Metadata::new(),
        },
        sources,
        path_name: None,
        extensions: vec![],
        metadata: Metadata::new(),
        extra: Metadata::new(),
    };
    let request = request.validate(1024, |_, _| panic!()).unwrap();
    let region = DiffSourceRegion {
        source_id: "before".into(),
        source_role: SourceRole::Before,
        range: ByteRange { start_byte: 0, end_byte: text.len() },
        sha256: digest,
    };
    let span = diff_span(&region, &request).unwrap();
    assert_eq!((span.end_point.row, span.end_point.column), (1, 0));
    let mut invalid = region.clone();
    invalid.source_id = "after".into();
    assert!(diff_span(&invalid, &request).is_err());
    invalid = region.clone();
    invalid.source_role = SourceRole::After;
    assert!(diff_span(&invalid, &request).is_err());
    invalid = region.clone();
    invalid.sha256 = "0".repeat(64);
    assert!(diff_span(&invalid, &request).is_err());
    invalid = region;
    invalid.range.end_byte += 1;
    let error = diff_span(&invalid, &request).unwrap_err();
    assert_eq!(error.code, "operation.invalid_evidence");
    assert_eq!(error.message, "diff source region does not match the validated request");
}

#[test]
fn spans_count_rows_and_byte_columns() {
    let text = "a: été\r\nb: 2\n";
    let digest = source_input("before".into(), SourceRole::Before, SourceEncoding::Utf8, text.as_bytes().to_vec())
        .unwrap()
        .descriptor
        .sha256;
    let mut sources = RoleMap::new();
    sources.insert(SourceRole::Before, source("before", SourceRole::Before, text, &digest));
    sources.insert(SourceRole::After, source("after", SourceRole::After, text, &digest));
    let mut request = OperationRequest {
        schema: OPERATION_SCHEMA.into(),
        request_id: "span-rows".into(),
        operation: OperationPolicy::Diff2(DiffPolicy {
            comparison_profile: None,
            equivalence: None,
            source_preservation_evidence: None,
            extra: Metadata::new(),
        }),
        provider_selection: MergeProviderSelection {
            provider_id: None,
            family: Some("yaml".into()),
            dialect: None,
            profile_id: None,
            required_capabilities: vec![],
            extra: Metadata::new(),
        },
        parser_selection: OperationParserSelection {
            backend: None,
            preference: vec![],
            required_capabilities: vec![],
            profile_id: None,
            language_version: None,
            extra: Metadata::new(),
        },
        sources,
        path_name: None,
        extensions: vec![],
        metadata: Metadata::new(),
        extra: Metadata::new(),
    };
    request.request_id = "span-rows".into();
    let request = request.validate(1024, |_, _| panic!()).unwrap();
    // "b: 2" starts after the 10-byte first line ("a: été\r\n" is 10 bytes).
    let line = "b: 2";
    let start = text.find(line).unwrap();
    let sha = source_input("x".into(), SourceRole::Before, SourceEncoding::Utf8, line.as_bytes().to_vec())
        .unwrap()
        .descriptor
        .sha256;
    let span = diff_span(
        &DiffSourceRegion {
            source_id: "before".into(),
            source_role: SourceRole::Before,
            range: ByteRange { start_byte: start, end_byte: start + line.len() },
            sha256: sha,
        },
        &request,
    )
    .unwrap();
    assert_eq!((span.range.start_byte, span.range.end_byte), (10, 14));
    assert_eq!((span.start_point.row, span.start_point.column), (1, 0));
    assert_eq!((span.end_point.row, span.end_point.column), (1, 4));
}
