use structuredmerge_core::edits::{finish_source_edits, prepare_source_edits, SourceEditError};
use structuredmerge_core::source::SourceErrorCode;
use structuredmerge_core::{
    source_input, ExplicitSourceEdit, SourceEditLimits, SourceEditRequest, SourceEncoding, SourceRole,
};

const TEXT: &str = "\u{feff}é: one\r\nlast";

fn request(edits: Vec<ExplicitSourceEdit>) -> SourceEditRequest {
    SourceEditRequest {
        request_id: "edit-1".into(),
        source: source_input("source-1".into(), SourceRole::Source, SourceEncoding::Utf8, TEXT.as_bytes().to_vec())
            .unwrap(),
        edits,
    }
}

fn edit(start_byte: usize, end_byte: usize, replacement: &str) -> ExplicitSourceEdit {
    ExplicitSourceEdit { start_byte, end_byte, replacement: replacement.into() }
}

fn limits() -> SourceEditLimits {
    SourceEditLimits { max_input_bytes: 100, max_output_bytes: 100, max_edits: 10 }
}

fn code(request: SourceEditRequest, limits: SourceEditLimits) -> &'static str {
    prepare_source_edits(request, limits).err().expect("expected a refusal").code()
}

#[test]
fn prepared_edits_keep_identity_text_and_exact_projected_length() {
    let input = request(vec![edit(12, 16, "tail"), edit(7, 10, "two")]);
    let descriptor = input.source.descriptor.clone();
    let prepared = prepare_source_edits(input, limits()).unwrap();
    assert_eq!(prepared.request_id, "edit-1");
    assert_eq!(prepared.text, TEXT);
    assert_eq!(prepared.source.descriptor(), &descriptor);
    assert_eq!(prepared.projected_length, 16 - 4 - 3 + 4 + 3);
    assert_eq!(prepared.edits.len(), 2);
    let result = finish_source_edits(prepared, Ok("\u{feff}é: two\r\ntail".into())).unwrap();
    assert_eq!(result.request_id, "edit-1");
    assert_eq!(result.source, descriptor);
    assert_eq!(result.output, "\u{feff}é: two\r\ntail");
    assert_eq!(result.edit_count, 2);
}

#[test]
fn renderer_refusals_fail_without_output() {
    let prepared = prepare_source_edits(request(vec![edit(7, 10, "x"), edit(8, 9, "y")]), limits()).unwrap();
    let error = finish_source_edits(prepared, Err("overlapping source edits".into())).unwrap_err();
    assert_eq!(error, SourceEditError::Rejected("overlapping source edits".into()));
    assert_eq!(error.code(), "source_edit.rejected");
    assert_eq!(error.message().as_deref(), Some("overlapping source edits"));
}

#[test]
fn reversed_ranges_and_overlong_removals_are_rejected_before_rendering() {
    let error = prepare_source_edits(request(vec![edit(8, 7, "x")]), limits()).err().unwrap();
    assert_eq!(error, SourceEditError::ReversedRange);
    assert_eq!(error.code(), "source_edit.rejected");
    assert_eq!(error.message().as_deref(), Some("reversed source edit range"));
    let error = prepare_source_edits(request(vec![edit(0, 10, ""), edit(0, 10, "")]), limits()).err().unwrap();
    assert_eq!(error, SourceEditError::RemovalExceedsSource);
    assert_eq!(error.message().as_deref(), Some("source edit removal exceeds source length"));
}

#[test]
fn identity_source_and_resource_budgets_are_checked_before_rendering() {
    let mut input = request(vec![]);
    input.source.bytes[7] = b'z';
    assert_eq!(code(input, limits()), "source.invalid");
    let mut input = request(vec![]);
    input.request_id.clear();
    assert_eq!(code(input, limits()), "request.invalid");
    let mut input = request(vec![]);
    input.source.descriptor.role = SourceRole::Current;
    assert_eq!(code(input, limits()), "request.invalid");
    for budget in [
        SourceEditLimits { max_input_bytes: 15, ..limits() },
        SourceEditLimits { max_output_bytes: 15, ..limits() },
        SourceEditLimits { max_edits: 0, ..limits() },
    ] {
        assert_eq!(code(request(vec![edit(16, 16, "!")]), budget), "resource.limit");
    }
    let error = prepare_source_edits(request(vec![]), SourceEditLimits { max_input_bytes: 15, ..limits() })
        .err()
        .unwrap();
    assert!(matches!(&error, SourceEditError::Source(e) if e.code == SourceErrorCode::LimitExceeded));
    assert_eq!(error.message(), None);
    // The output budget counts the edited output, not the source plus all replacements.
    let prepared =
        prepare_source_edits(request(vec![edit(0, 16, "")]), SourceEditLimits { max_output_bytes: 0, ..limits() })
            .unwrap();
    assert_eq!(prepared.projected_length, 0);
}
