use structuredmerge_core::diff::{diff_language, project_diff_result, DiffExecutionReport};
use structuredmerge_core::merge::{NativeMergeError, ParseEvidence};
use structuredmerge_core::profiles::{PYTHON_DECLARATIONS, YAML_MAPPING};
use structuredmerge_core::{source_input, ServiceError, SourceDescriptor, SourceEncoding, SourceRole};

fn descriptor(role: SourceRole) -> SourceDescriptor {
    source_input(format!("{role:?}"), role, SourceEncoding::Utf8, b"a: one\n".to_vec()).unwrap().descriptor
}

#[test]
fn diff_requires_identity_and_a_diffing_profile() {
    assert_eq!(diff_language("diff-request", YAML_MAPPING).unwrap(), "yaml");
    assert_eq!(diff_language("diff-request", PYTHON_DECLARATIONS).unwrap(), "python");
    let error = diff_language("diff-request", "unimplemented").unwrap_err();
    assert_eq!(error.code, "unsupported_native_profile");
    assert_eq!(error.message, "no diff implementation for requested profile");
    let error = diff_language("", "unimplemented").unwrap_err();
    assert_eq!(error.code, "request.invalid");
    assert_eq!(error.message, "diff requires request identity");
}

#[test]
fn a_missing_parser_keeps_identity_and_sources_without_a_diff() {
    let sources = vec![descriptor(SourceRole::Before), descriptor(SourceRole::After)];
    let result = project_diff_result(
        "diff-request".into(),
        YAML_MAPPING.into(),
        Err(NativeMergeError::InputParseFailed {
            error: ServiceError::Selection { requested_backend: Some("missing.diff.test".into()), report: "{}".into() },
            sources: sources.clone(),
        }),
    )
    .unwrap();
    assert!(!result.ok);
    assert_eq!(result.request_id, "diff-request");
    assert_eq!(result.profile_id, YAML_MAPPING);
    assert_eq!(result.sources.iter().map(|s| s.role).collect::<Vec<_>>(), vec![SourceRole::Before, SourceRole::After]);
    assert!(result.diff.is_none());
    assert!(result.input_parses.is_empty());
    assert_eq!(result.input_failure.unwrap().code, "selection.no_parser");
}

#[test]
fn incompatible_inputs_controls_and_limits_remain_errors() {
    let error = project_diff_result("d".into(), YAML_MAPPING.into(), Err(NativeMergeError::InvalidInputs)).unwrap_err();
    assert_eq!(error.code, "invalid_diff_inputs");
    assert_eq!(error.message, "diff requires compatible before/after parse inputs");
    for (error, code) in [
        (ServiceError::Cancelled, "execution.cancelled"),
        (ServiceError::DeadlineExceeded, "execution.deadline_exceeded"),
        (ServiceError::LimitExceeded, "resource.limit"),
    ] {
        let failure = NativeMergeError::InputParseFailed { error, sources: vec![] };
        assert_eq!(project_diff_result("d".into(), YAML_MAPPING.into(), Err(failure)).unwrap_err().code, code);
    }
}

#[test]
fn completed_diffs_carry_the_diff_sources_and_parses() {
    let result = project_diff_result(
        "d".into(),
        PYTHON_DECLARATIONS.into(),
        Ok(DiffExecutionReport {
            diff: "{\"changes\":[]}".into(),
            sources: vec![descriptor(SourceRole::Before), descriptor(SourceRole::After)],
            input_parses: vec![ParseEvidence { source_id: "before".into(), source_role: SourceRole::Before, ok: true, record: "{}".into() }],
        }),
    )
    .unwrap();
    assert!(result.ok);
    assert_eq!(result.diff.as_deref(), Some("{\"changes\":[]}"));
    assert_eq!(result.sources.len(), 2);
    assert_eq!(result.input_parses.len(), 1);
    assert!(result.diagnostics.is_empty() && result.input_failure.is_none());
}
