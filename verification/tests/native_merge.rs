use structuredmerge_core::merge::{
    project_merge_result, AnalysisFailure, MergeExecutionReport, NativeMergeError, ParseEvidence, RenderedSegment,
};
use structuredmerge_core::native_conflict_projection::{MergeOutcome, SourceRevision};
use structuredmerge_core::{source_input, ByteRange, ServiceError, SourceDescriptor, SourceEncoding, SourceRole};

fn descriptor(id: &str, role: SourceRole) -> SourceDescriptor {
    source_input(id.into(), role, SourceEncoding::Utf8, b"a: 1\n".to_vec()).unwrap().descriptor
}

fn evidence(ok: bool, record: &str) -> ParseEvidence {
    ParseEvidence { source_id: format!("source-{record}"), source_role: SourceRole::Base, ok, record: record.into() }
}

#[test]
fn controls_remain_errors_while_provider_faults_become_evidence() {
    for (error, code) in [
        (ServiceError::InvalidRequest, "request.invalid"),
        (ServiceError::LimitExceeded, "resource.limit"),
        (ServiceError::Cancelled, "execution.cancelled"),
        (ServiceError::DeadlineExceeded, "execution.deadline_exceeded"),
        (ServiceError::InvalidResult { backend_id: "native".into(), error: "LimitExceeded".into() }, "resource.limit"),
    ] {
        for failure in [
            NativeMergeError::Parse(error.clone()),
            NativeMergeError::InputParseFailed { error, sources: vec![] },
        ] {
            assert_eq!(project_merge_result("test", Err(failure)).unwrap_err().code, code);
        }
    }
    for (error, code) in [
        (ServiceError::ProviderPanic { backend_id: "native".into() }, "parser.provider_panic"),
        (
            ServiceError::InvalidResult { backend_id: "native".into(), error: "IdentityMismatch".into() },
            "parser.invalid_result",
        ),
    ] {
        let result =
            project_merge_result("test", Err(NativeMergeError::InputParseFailed { error, sources: vec![] })).unwrap();
        assert_eq!(result.outcome, MergeOutcome::Error);
        assert_eq!(result.input_failure.unwrap().code, code);
        assert!(result.output.is_none());
        assert!(result.sources.is_empty());
        assert!(result.input_parses.is_empty());
    }
}

#[test]
fn native_rejections_keep_every_input_parse_and_the_first_rejected_one() {
    let sources = vec![descriptor("b", SourceRole::Base), descriptor("o", SourceRole::Ours)];
    let parses = vec![evidence(true, "{\"base\":1}"), evidence(false, "{\"ours\":1}"), evidence(false, "{\"theirs\":1}")];
    let result = project_merge_result(
        "kernel.yaml.native_mapping.v1",
        Err(NativeMergeError::NativeParseRejected { parses: parses.clone(), sources: sources.clone() }),
    )
    .unwrap();
    assert_eq!(result.profile_id, "kernel.yaml.native_mapping.v1");
    assert_eq!(result.outcome, MergeOutcome::Error);
    assert_eq!(result.rejected_parse, Some(evidence(false, "{\"ours\":1}")));
    assert_eq!(result.input_parses, parses);
    assert_eq!(result.sources, sources);
    assert!(result.input_failure.is_none() && result.analysis_rejections.is_empty());
}

#[test]
fn analysis_rejections_name_the_rejected_source() {
    let failures = vec![AnalysisFailure {
        source_id: "ours".into(),
        source_role: SourceRole::Ours,
        message: "duplicate key".into(),
    }];
    let result = project_merge_result(
        "test",
        Err(NativeMergeError::AnalysisRejected { failures, parses: vec![evidence(true, "{}")], sources: vec![] }),
    )
    .unwrap();
    assert_eq!(result.analysis_rejections.len(), 1);
    assert_eq!(result.analysis_rejections[0].code, "analysis.unsupported_profile");
    assert_eq!(result.analysis_rejections[0].source_id, "ours");
    assert_eq!(result.analysis_rejections[0].source_role, SourceRole::Ours);
    assert_eq!(result.analysis_rejections[0].message, "duplicate key");
    assert_eq!(result.input_parses.len(), 1);
    assert!(result.rejected_parse.is_none());
}

#[test]
fn invalid_and_unsupported_inputs_are_errors() {
    let error = project_merge_result("test", Err(NativeMergeError::InvalidInputs)).unwrap_err();
    assert_eq!((error.code.as_str(), error.message.as_str()), ("invalid_merge_inputs", "InvalidInputs"));
    let error = project_merge_result("test", Err(NativeMergeError::Unsupported("no owners".into()))).unwrap_err();
    assert_eq!((error.code.as_str(), error.message.as_str()), ("unsupported_native_profile", "no owners"));
    let error = project_merge_result(
        "test",
        Err(NativeMergeError::InputParseFailed {
            error: ServiceError::Selection { requested_backend: None, report: "{}".into() },
            sources: vec![descriptor("b", SourceRole::Base)],
        }),
    )
    .unwrap();
    assert_eq!(error.input_failure.as_ref().unwrap().code, "selection.no_parser");
    assert_eq!(error.input_failure.unwrap().selection.as_deref(), Some("{}"));
    assert_eq!(error.sources.len(), 1);
}

fn execution(segments: Vec<RenderedSegment>) -> MergeExecutionReport {
    MergeExecutionReport {
        sources: vec![
            descriptor("base-1", SourceRole::Base),
            descriptor("ours-1", SourceRole::Ours),
            descriptor("theirs-1", SourceRole::Theirs),
        ],
        output_source: Some(descriptor("out", SourceRole::Output)),
        outcome: MergeOutcome::Merged,
        diagnostics: vec![],
        conflicts: vec![],
        policies: vec!["{\"policy\":\"p\"}".into()],
        output: Some("a: 1\n".into()),
        segments,
        input_parses: vec![evidence(true, "{}")],
        output_parse: Some(evidence(true, "{\"output\":true}")),
        verification_error: Some(ServiceError::ProviderPanic { backend_id: "native".into() }),
    }
}

fn segment(id: &str, revision: SourceRevision) -> RenderedSegment {
    RenderedSegment {
        id: id.into(),
        revision,
        source_range: ByteRange { start_byte: 0, end_byte: 5 },
        output_range: ByteRange { start_byte: 0, end_byte: 5 },
        sha256: "digest".into(),
        owner_id: Some("a".into()),
    }
}

#[test]
fn completed_executions_attribute_segments_to_their_revision_sources() {
    let result = project_merge_result(
        "test",
        Ok(execution(vec![segment("s0", SourceRevision::Theirs), segment("s1", SourceRevision::Base)])),
    )
    .unwrap();
    assert_eq!(result.outcome, MergeOutcome::Merged);
    assert_eq!(result.output.as_deref(), Some("a: 1\n"));
    assert_eq!(result.policies, vec!["{\"policy\":\"p\"}".to_string()]);
    assert_eq!(result.source_segments.len(), 2);
    assert_eq!(result.source_segments[0].id, "s0");
    assert_eq!(result.source_segments[0].source_id, "theirs-1");
    assert_eq!(result.source_segments[0].source_role, SourceRole::Theirs);
    assert_eq!(result.source_segments[1].source_id, "base-1");
    assert_eq!(result.source_segments[1].owner_id.as_deref(), Some("a"));
    assert_eq!(result.verification_failure.unwrap().code, "parser.provider_panic");
    assert_eq!(result.output_parse, Some(evidence(true, "{\"output\":true}")));
    assert!(result.input_failure.is_none() && result.rejected_parse.is_none());
}

#[test]
fn a_segment_without_its_source_is_invalid_byte_evidence() {
    let mut report = execution(vec![segment("s0", SourceRevision::Ours)]);
    report.sources.retain(|source| source.role != SourceRole::Ours);
    let error = project_merge_result("test", Ok(report)).unwrap_err();
    assert_eq!(error.code, "invalid_byte_evidence");
    assert_eq!(error.message, "missing source descriptor");
}
