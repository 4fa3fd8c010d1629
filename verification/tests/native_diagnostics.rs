use structuredmerge_core::merge::{AnalysisFailure, NativeMergeError, ParseEvidence};
use structuredmerge_core::metadata::Metadata;
use structuredmerge_core::native_operation::{
    execution_failure_diagnostics, native_diagnostic, service_failure_diagnostic, SERVICE_FAILURE_MESSAGE,
};
use structuredmerge_core::operation_result::{
    ResultDiagnostic, ResultProfile, ResultProvider, ResultVerification, OPERATION_RESULT_SCHEMA,
};
use structuredmerge_core::portable_diagnostic::{
    DiagnosticLayer, DiagnosticSourceRef, PortableCategory, DIAGNOSTIC_SCHEMA,
};
use structuredmerge_core::{DiagnosticSeverity, OperationKind, OperationResult, ServiceError, SourceRole};

fn result(diagnostics: usize) -> OperationResult {
    OperationResult {
        schema: OPERATION_RESULT_SCHEMA.into(),
        request_id: "req-7".into(),
        operation: OperationKind::Merge3,
        ok: false,
        provider: ResultProvider {
            provider_id: Some("kernel.go".into()),
            family: Some("go".into()),
            delegation: None,
            extra: Metadata::new(),
        },
        profile: ResultProfile { profile_id: None, parser: None, extra: Metadata::new() },
        diagnostics: (0..diagnostics)
            .map(|k| ResultDiagnostic {
                id: format!("earlier.{k}"),
                severity: "error".into(),
                category: "parse_error".into(),
                code: "earlier".into(),
                message: "earlier".into(),
                blocking: true,
                source_role: None,
                span: None,
                metadata: Metadata::new(),
                extra: Metadata::new(),
            })
            .collect(),
        changes: vec![],
        conflicts: vec![],
        fallbacks: vec![],
        render_report: Metadata::new(),
        verification: ResultVerification {
            consumed_source_roles: None,
            directional_roles_preserved: None,
            base_participated: None,
            classification_reached: Some(false),
            output_reparsed: None,
            structural_equivalence: None,
            preservation: None,
            retained_source_regions: None,
            extra: Metadata::new(),
        },
        analysis: None,
        diff: None,
        output: None,
        conflicted_output: None,
        extensions: vec![],
        metadata: Metadata::new(),
        extra: Metadata::new(),
    }
}

fn parse(id: &str, role: SourceRole, ok: bool) -> ParseEvidence {
    ParseEvidence { source_id: id.into(), source_role: role, ok, record: "{}".into() }
}

#[test]
fn native_diagnostics_are_numbered_blocking_errors_of_the_result() {
    let refs = vec![DiagnosticSourceRef {
        source_id: "ours".into(),
        role: SourceRole::Ours,
        span: None,
        extra: Metadata::new(),
    }];
    let d = native_diagnostic(
        &result(2),
        PortableCategory::UnsupportedFeature,
        "selection.unsupported_profile",
        "an explicit implemented native profile is required".into(),
        DiagnosticLayer::Registry,
        refs.clone(),
    );
    assert_eq!(d.schema, DIAGNOSTIC_SCHEMA);
    assert_eq!(d.id, "diagnostic.2");
    assert_eq!(d.sequence, 2);
    assert_eq!(d.severity, DiagnosticSeverity::Error);
    assert!(d.blocking);
    assert_eq!(d.category, PortableCategory::UnsupportedFeature);
    assert_eq!(d.code, "selection.unsupported_profile");
    assert_eq!(d.operation, Some(OperationKind::Merge3));
    assert_eq!(d.request_id.as_deref(), Some("req-7"));
    assert_eq!(d.source_refs, refs);
    assert_eq!(d.origin.layer, DiagnosticLayer::Registry);
    assert_eq!(d.origin.provider_id.as_deref(), Some("kernel.go"));
    assert_eq!(d.origin.backend_id, None);
    assert!(d.data.is_empty());
    assert_eq!(native_diagnostic(&result(0), PortableCategory::ParseError, "c", "m".into(), DiagnosticLayer::Parser, vec![]).id, "diagnostic.0");
}

#[test]
fn service_failures_keep_native_evidence_out_of_the_message() {
    let error = ServiceError::Provider {
        backend_id: "tree-sitter-go".into(),
        fault_code: "E42".into(),
        fault_message: "native stack trace".into(),
    };
    let d = service_failure_diagnostic(&result(1), &error);
    assert_eq!(d.id, "diagnostic.1");
    assert_eq!(d.category, PortableCategory::InternalError);
    assert_eq!(d.code, "parser.provider_fault");
    assert_eq!(d.message, SERVICE_FAILURE_MESSAGE);
    assert!(!d.message.contains("native stack trace"));
    assert_eq!(d.origin.layer, DiagnosticLayer::Runner);
    assert_eq!(d.origin.backend_id.as_deref(), Some("tree-sitter-go"));
    assert_eq!(d.origin.native_code.as_deref(), Some("E42"));
    assert!(d.data.is_empty());
    let selection = ServiceError::Selection { requested_backend: None, report: "{\"candidates\":[]}".into() };
    let d = service_failure_diagnostic(&result(0), &selection);
    assert_eq!(d.category, PortableCategory::SelectionError);
    assert_eq!(d.code, "selection.no_parser");
    assert_eq!(d.data.entries[0].key, "selection");
    assert_eq!(d.data.entries[0].value, "{\"candidates\":[]}");
    let cancelled = service_failure_diagnostic(&result(0), &ServiceError::Cancelled);
    assert_eq!((cancelled.category, cancelled.code.as_str()), (PortableCategory::Cancelled, "execution.cancelled"));
}

#[test]
fn rejected_parses_become_one_diagnostic_per_rejected_source() {
    let error = NativeMergeError::NativeParseRejected {
        parses: vec![
            parse("base", SourceRole::Base, true),
            parse("ours", SourceRole::Ours, false),
            parse("theirs", SourceRole::Theirs, false),
        ],
        sources: vec![],
    };
    let ds = execution_failure_diagnostics(&result(1), &error);
    assert_eq!(ds.len(), 2);
    assert_eq!((ds[0].id.as_str(), ds[1].id.as_str()), ("diagnostic.1", "diagnostic.2"));
    for (d, (id, role)) in ds.iter().zip([("ours", SourceRole::Ours), ("theirs", SourceRole::Theirs)]) {
        assert_eq!(d.category, PortableCategory::ParseError);
        assert_eq!(d.code, "parse.rejected");
        assert_eq!(d.message, "native parser rejected input");
        assert_eq!(d.origin.layer, DiagnosticLayer::Parser);
        assert_eq!(d.source_refs.len(), 1);
        assert_eq!((d.source_refs[0].source_id.as_str(), d.source_refs[0].role), (id, role));
        assert_eq!(d.source_refs[0].span, None);
    }
}

#[test]
fn analysis_rejections_carry_the_analysis_message_per_source() {
    let error = NativeMergeError::AnalysisRejected {
        failures: vec![AnalysisFailure {
            source_id: "theirs".into(),
            source_role: SourceRole::Theirs,
            message: "duplicate owner".into(),
        }],
        parses: vec![],
        sources: vec![],
    };
    let ds = execution_failure_diagnostics(&result(0), &error);
    assert_eq!(ds.len(), 1);
    assert_eq!(ds[0].category, PortableCategory::UnsupportedFeature);
    assert_eq!(ds[0].code, "analysis.unsupported");
    assert_eq!(ds[0].message, "duplicate owner");
    assert_eq!(ds[0].origin.layer, DiagnosticLayer::Analysis);
    assert_eq!(ds[0].source_refs[0].role, SourceRole::Theirs);
}

#[test]
fn other_execution_failures_have_fixed_diagnostics() {
    let invalid = execution_failure_diagnostics(&result(0), &NativeMergeError::InvalidInputs);
    assert_eq!(invalid.len(), 1);
    assert_eq!(
        (invalid[0].category, invalid[0].code.as_str(), invalid[0].message.as_str(), invalid[0].origin.layer),
        (PortableCategory::InvalidRequest, "request.invalid", "invalid native operation inputs", DiagnosticLayer::Transport)
    );
    let unsupported = execution_failure_diagnostics(&result(0), &NativeMergeError::Unsupported("no tokens".into()));
    assert_eq!(
        (unsupported[0].category, unsupported[0].code.as_str(), unsupported[0].message.as_str()),
        (PortableCategory::UnsupportedFeature, "operation.unsupported", "no tokens")
    );
    assert_eq!(unsupported[0].origin.layer, DiagnosticLayer::Provider);
    let parse = execution_failure_diagnostics(&result(3), &NativeMergeError::Parse(ServiceError::DeadlineExceeded));
    assert_eq!(parse.len(), 1);
    assert_eq!(parse[0].id, "diagnostic.3");
    assert_eq!(parse[0].code, "execution.deadline_exceeded");
    let input = execution_failure_diagnostics(
        &result(0),
        &NativeMergeError::InputParseFailed { error: ServiceError::LimitExceeded, sources: vec![] },
    );
    assert_eq!((input[0].category, input[0].code.as_str()), (PortableCategory::ResourceLimit, "resource.limit"));
}
