use structuredmerge_core::metadata::Metadata;
use structuredmerge_core::native_output_validation::validate_property;
use structuredmerge_core::operation::{
    AnalyzePolicy, DirectionalMergePolicy, MergeProviderSelection, OperationParserSelection, OperationPolicy,
    OperationSource, ThreeWayMergePolicy,
};
use structuredmerge_core::operation_result::{
    PreservationProperty, ResultAnalysis, ResultConflict, ResultDiagnostic, ResultPoint, ResultProfile,
    ResultProvider, ResultRange, ResultSourceRegion, ResultSpan, ResultVerification, OPERATION_RESULT_SCHEMA,
};
use structuredmerge_core::role_map::RoleMap;
use structuredmerge_core::source::sha256_hex;
use structuredmerge_core::{
    validate_operation_results, OperationKind, OperationRequest, OperationResult, ResultContractError as E,
    SourceRole, ValidatedOperationRequest, OPERATION_SCHEMA,
};

const TEXT: &str = "a: 1\nb: 2\n";

fn refuse(_: &OperationSource, _: u64) -> Result<Vec<u8>, String> {
    Err("no store".into())
}

fn validated(id: &str, kind: OperationKind, fallback: Option<&str>) -> ValidatedOperationRequest {
    let mut sources = RoleMap::new();
    for role in kind.source_roles() {
        sources.insert(
            role,
            OperationSource {
                source_id: format!("{id}.{role:?}"),
                role,
                byte_length: TEXT.len() as u64,
                sha256: sha256_hex(TEXT.as_bytes()),
                encoding: "utf-8".into(),
                content: Some(TEXT.into()),
                bytes: None,
                reference: None,
                bom: None,
                line_endings: None,
                final_newline: None,
                extra: Metadata::new(),
            },
        );
    }
    let operation = match kind {
        OperationKind::Merge3 => OperationPolicy::Merge3(ThreeWayMergePolicy {
            render_policy: "source-plan".into(),
            fallback_policy: fallback.map(String::from),
            conflict_marker_size: None,
            labels: None,
            extra: Metadata::new(),
        }),
        OperationKind::Merge2 => OperationPolicy::Merge2(DirectionalMergePolicy {
            directional_merge: "template-into-current".into(),
            render_policy: "source-plan".into(),
            fallback_policy: fallback.map(String::from),
            extra: Metadata::new(),
        }),
        _ => OperationPolicy::Analyze(AnalyzePolicy {
            analysis_depth: None,
            comments: None,
            tokens: None,
            ownership: None,
            native_extensions: None,
            extra: Metadata::new(),
        }),
    };
    OperationRequest {
        schema: OPERATION_SCHEMA.into(),
        request_id: id.into(),
        operation,
        provider_selection: MergeProviderSelection {
            provider_id: Some("kernel.yaml".into()),
            family: Some("yaml".into()),
            dialect: None,
            profile_id: None,
            required_capabilities: vec![],
            extra: Metadata::new(),
        },
        parser_selection: OperationParserSelection {
            backend: None,
            preference: vec![],
            required_capabilities: vec![],
            profile_id: None,
            language_version: None,
            extra: Metadata::new(),
        },
        sources,
        path_name: None,
        extensions: vec![],
        metadata: Metadata::new(),
        extra: Metadata::new(),
    }
    .validate(1000, refuse)
    .unwrap()
}

fn merged(id: &str, kind: OperationKind) -> OperationResult {
    OperationResult {
        schema: OPERATION_RESULT_SCHEMA.into(),
        request_id: id.into(),
        operation: kind,
        ok: true,
        provider: ResultProvider {
            provider_id: Some("kernel.yaml".into()),
            family: Some("yaml".into()),
            delegation: None,
            extra: Metadata::new(),
        },
        profile: ResultProfile { profile_id: None, parser: None, extra: Metadata::new() },
        diagnostics: vec![],
        changes: vec![],
        conflicts: vec![],
        fallbacks: vec![],
        render_report: Metadata::new(),
        verification: ResultVerification {
            consumed_source_roles: Some(kind.source_roles()),
            directional_roles_preserved: Some(true),
            base_participated: if kind == OperationKind::Merge3 { Some(true) } else { None },
            classification_reached: Some(true),
            output_reparsed: Some(true),
            structural_equivalence: Some(true),
            preservation: Some(vec![]),
            retained_source_regions: None,
            extra: Metadata::new(),
        },
        analysis: None,
        diff: None,
        output: Some(TEXT.into()),
        conflicted_output: None,
        extensions: vec![],
        metadata: Metadata::new(),
        extra: Metadata::new(),
    }
}

fn point(row: usize, column: usize) -> ResultPoint {
    ResultPoint { row, column, extra: Metadata::new() }
}

fn span(start: usize, end: usize, start_point: ResultPoint, end_point: ResultPoint) -> ResultSpan {
    ResultSpan {
        range: ResultRange { start_byte: start, end_byte: end, extra: Metadata::new() },
        start_point,
        end_point,
        extra: Metadata::new(),
    }
}

fn diagnostic(id: &str, blocking: bool) -> ResultDiagnostic {
    ResultDiagnostic {
        id: id.into(),
        severity: "error".into(),
        category: "merge-conflict".into(),
        code: "edit-edit".into(),
        message: "both sides changed a".into(),
        blocking,
        source_role: None,
        span: None,
        metadata: Metadata::new(),
        extra: Metadata::new(),
    }
}

fn conflict(id: &str, resolution: &str) -> ResultConflict {
    ResultConflict {
        id: id.into(),
        category: "content".into(),
        subject_ref: None,
        path: Some("a".into()),
        roles: vec![SourceRole::Ours, SourceRole::Theirs],
        source_regions: vec![],
        localized: false,
        resolution: resolution.into(),
        metadata: Metadata::new(),
        extra: Metadata::new(),
    }
}

#[test]
fn a_verified_successful_merge_is_accepted() {
    let request = validated("r", OperationKind::Merge3, None);
    assert_eq!(merged("r", OperationKind::Merge3).validate_against(&request), Ok(()));
    let request = validated("r", OperationKind::Merge2, None);
    assert_eq!(merged("r", OperationKind::Merge2).validate_against(&request), Ok(()));
}

#[test]
fn envelope_violations_have_their_own_errors() {
    let request = validated("r", OperationKind::Merge3, None);
    let mut r = merged("r", OperationKind::Merge3);
    r.schema = "v2".into();
    assert_eq!(r.validate_against(&request), Err(E::UnsupportedSchema));
    assert_eq!(merged("other", OperationKind::Merge3).validate_against(&request), Err(E::IdentityMismatch));
    let mut r = merged("r", OperationKind::Merge3);
    r.conflicted_output = Some("x".into());
    assert_eq!(r.validate_against(&request), Err(E::ContradictoryOutput));
    let mut r = merged("r", OperationKind::Merge3);
    r.fallbacks.push(Metadata::new());
    assert_eq!(r.validate_against(&request), Err(E::UndeclaredFallback));
    let with_fallback = validated("r", OperationKind::Merge3, Some("explicit-text"));
    assert_eq!(r.validate_against(&with_fallback), Err(E::UnverifiedFallback));
    let mut r = merged("r", OperationKind::Merge3);
    r.output = None;
    assert_eq!(r.validate_against(&request), Err(E::MissingPayload));
    let mut r = merged("r", OperationKind::Merge3);
    r.verification.output_reparsed = None;
    assert_eq!(r.validate_against(&request), Err(E::VerificationContractViolation));
    let mut r = merged("r", OperationKind::Merge3);
    r.verification.preservation = None;
    assert_eq!(r.validate_against(&request), Err(E::PreservationContractViolation));
    let mut r = merged("r", OperationKind::Merge3);
    r.verification.base_participated = Some(false);
    assert_eq!(r.validate_against(&request), Err(E::BaseParticipationContractViolation));
    let mut r = merged("r", OperationKind::Merge3);
    r.verification.consumed_source_roles = Some(vec![SourceRole::Ours, SourceRole::Theirs]);
    assert_eq!(r.validate_against(&request), Err(E::InvalidSourceRoles));
    let mut r = merged("r", OperationKind::Merge3);
    r.provider.family = Some("json".into());
    assert_eq!(r.validate_against(&request), Err(E::SelectionMismatch));
    let merge2 = validated("r", OperationKind::Merge2, None);
    let mut r = merged("r", OperationKind::Merge2);
    r.verification.directional_roles_preserved = None;
    assert_eq!(r.validate_against(&merge2), Err(E::DirectionalRoleContractViolation));
    let analyze = validated("r", OperationKind::Analyze, None);
    let mut r = merged("r", OperationKind::Analyze);
    r.output = None;
    r.verification.preservation = None;
    assert_eq!(r.validate_against(&analyze), Err(E::MissingPayload));
    r.analysis = Some(ResultAnalysis { schema: "structuredmerge.analysis-result/v1".into(), extra: Metadata::new() });
    assert_eq!(r.validate_against(&analyze), Ok(()));
    r.analysis = Some(ResultAnalysis { schema: "other".into(), extra: Metadata::new() });
    assert_eq!(r.validate_against(&analyze), Err(E::UnsupportedSchema));
}

#[test]
fn outcome_must_agree_with_blocking_records() {
    let request = validated("r", OperationKind::Merge3, None);
    let mut r = merged("r", OperationKind::Merge3);
    r.diagnostics.push(diagnostic("d1", true));
    assert_eq!(r.validate_against(&request), Err(E::ContradictoryOutcome));
    let mut failed = merged("r", OperationKind::Merge3);
    failed.ok = false;
    failed.output = None;
    assert_eq!(failed.validate_against(&request), Err(E::ContradictoryOutcome));
    failed.conflicts.push(conflict("c1", "unresolved"));
    failed.conflicted_output = Some("<<<".into());
    assert_eq!(failed.validate_against(&request), Ok(()));
    failed.conflicts[0].resolution = "resolved".into();
    assert_eq!(failed.validate_against(&request), Err(E::ContradictoryOutcome));
}

#[test]
fn records_need_identities_roles_and_exact_evidence() {
    let request = validated("r", OperationKind::Merge3, None);
    let mut r = merged("r", OperationKind::Merge3);
    r.diagnostics = vec![diagnostic("d", false), diagnostic("d", false)];
    assert_eq!(r.validate_against(&request), Err(E::InvalidRecord));
    let mut r = merged("r", OperationKind::Merge3);
    let mut d = diagnostic("d", false);
    d.category = "parse-error".into();
    r.diagnostics = vec![d];
    assert_eq!(r.validate_against(&request), Err(E::InvalidSourceEvidence));
    let mut r = merged("r", OperationKind::Merge3);
    let mut d = diagnostic("d", false);
    d.source_role = Some(SourceRole::Ours);
    d.span = Some(span(5, 9, point(1, 0), point(1, 4)));
    r.diagnostics = vec![d.clone()];
    assert_eq!(r.validate_against(&request), Ok(()));
    d.span = Some(span(5, 9, point(1, 0), point(1, 3)));
    r.diagnostics = vec![d.clone()];
    assert_eq!(r.validate_against(&request), Err(E::InvalidSourceEvidence));
    d.span = Some(span(5, 99, point(1, 0), point(1, 4)));
    r.diagnostics = vec![d.clone()];
    assert_eq!(r.validate_against(&request), Err(E::InvalidSourceEvidence));
    d.source_role = Some(SourceRole::Output);
    d.span = None;
    r.diagnostics = vec![d];
    assert_eq!(r.validate_against(&request), Err(E::InvalidRecord));
}

#[test]
fn conflict_regions_are_checked_against_request_bytes() {
    let request = validated("r", OperationKind::Merge3, None);
    let mut r = merged("r", OperationKind::Merge3);
    r.ok = false;
    r.output = None;
    let mut c = conflict("c", "unresolved");
    c.source_regions.push(ResultSourceRegion {
        source_id: "r.Ours".into(),
        source_role: SourceRole::Ours,
        range: ResultRange { start_byte: 0, end_byte: 4, extra: Metadata::new() },
        sha256: Some(sha256_hex(b"a: 1")),
        extra: Metadata::new(),
    });
    r.conflicts = vec![c.clone()];
    assert_eq!(r.validate_against(&request), Ok(()));
    c.source_regions[0].sha256 = Some(sha256_hex(b"a: 2"));
    r.conflicts = vec![c.clone()];
    assert_eq!(r.validate_against(&request), Err(E::InvalidSourceEvidence));
    c.source_regions[0].sha256 = None;
    c.source_regions[0].source_id = "r.Theirs".into();
    r.conflicts = vec![c.clone()];
    assert_eq!(r.validate_against(&request), Err(E::InvalidSourceEvidence));
    c.source_regions[0].source_role = SourceRole::Base;
    r.conflicts = vec![c.clone()];
    assert_eq!(r.validate_against(&request), Err(E::InvalidSourceEvidence));
    c.source_regions.clear();
    c.resolution = "pending".into();
    r.conflicts = vec![c];
    assert_eq!(r.validate_against(&request), Err(E::ContradictoryOutcome));
    r.diagnostics = vec![diagnostic("d", true)];
    assert_eq!(r.validate_against(&request), Err(E::InvalidRecord));
}

#[test]
fn preservation_claims_must_be_known_and_passed_on_success() {
    let request = validated("r", OperationKind::Merge3, None);
    let mut r = merged("r", OperationKind::Merge3);
    r.verification.preservation = Some(vec![PreservationProperty {
        property: "exact-source-partition".into(),
        required: true,
        status: "failed".into(),
        extra: Metadata::new(),
    }]);
    assert_eq!(r.validate_against(&request), Err(E::PreservationContractViolation));
    r.verification.preservation.as_mut().unwrap()[0].status = "passed".into();
    assert_eq!(r.validate_against(&request), Ok(()));
    assert_eq!(validate_property(&r, "exact-source-partition"), Ok(()));
    assert_eq!(validate_property(&r, "all-current-bytes-retained"), Err(E::InvalidSourceEvidence));
    let twice = r.verification.preservation.as_ref().unwrap()[0].clone();
    r.verification.preservation.as_mut().unwrap().push(twice);
    assert_eq!(validate_property(&r, "exact-source-partition"), Err(E::InvalidSourceEvidence));
    assert_eq!(r.validate_against(&request), Err(E::InvalidRecord));
}

#[test]
fn batches_are_correlated_by_identity_and_returned_in_request_order() {
    let requests = vec![validated("a", OperationKind::Merge3, None), validated("b", OperationKind::Merge3, None)];
    let ordered =
        validate_operation_results(&requests, vec![merged("b", OperationKind::Merge3), merged("a", OperationKind::Merge3)])
            .unwrap();
    assert_eq!(ordered[0].request_id, "a");
    assert_eq!(ordered[1].request_id, "b");
    assert_eq!(
        validate_operation_results(&requests, vec![merged("a", OperationKind::Merge3)]).unwrap_err(),
        E::IdentityMismatch
    );
    assert_eq!(
        validate_operation_results(
            &requests,
            vec![merged("a", OperationKind::Merge3), merged("a", OperationKind::Merge3)]
        )
        .unwrap_err(),
        E::IdentityMismatch
    );
    assert_eq!(
        validate_operation_results(
            &requests,
            vec![merged("a", OperationKind::Merge3), merged("c", OperationKind::Merge3)]
        )
        .unwrap_err(),
        E::IdentityMismatch
    );
    let mut bad = merged("b", OperationKind::Merge3);
    bad.output = None;
    assert_eq!(
        validate_operation_results(&requests, vec![bad, merged("a", OperationKind::Merge3)]).unwrap_err(),
        E::MissingPayload
    );
}
