use structuredmerge_core::metadata::Metadata;
use structuredmerge_core::native_conflict_projection::{
    project_native_merge_conflicts, ConflictAlternativeState, ConflictProjectionError as E, MergeAlternative,
    MergeOutcome, NativeMergeExecution, OwnerClassification, OwnerDecision, OwnerDecisionKind, RenderedConflict,
    SourceRevision,
};
use structuredmerge_core::operation::{
    MergeProviderSelection, OperationParserSelection, OperationPolicy, OperationSource, ThreeWayMergePolicy,
};
use structuredmerge_core::portable_conflict::{ConflictCategory, ConflictValidationContext, ResolutionStatus};
use structuredmerge_core::portable_diagnostic::{DiagnosticSubjectRef, PortableCategory};
use structuredmerge_core::role_map::RoleMap;
use structuredmerge_core::source::sha256_hex;
use structuredmerge_core::{
    source_input, validate_conflicts, validate_diagnostics, ByteRange, OperationKind, OperationRequest,
    SourceEncoding, SourceRole, ValidatedOperationRequest, OPERATION_SCHEMA,
};

const TEXT: &str = "a: 1\nb: 2\n";
const IDS: [(&str, SourceRole); 3] =
    [("source.base", SourceRole::Base), ("source.ours", SourceRole::Ours), ("source.theirs", SourceRole::Theirs)];

fn refuse(_: &OperationSource, _: u64) -> Result<Vec<u8>, String> {
    Err("no store".into())
}

fn request(kind: OperationKind) -> ValidatedOperationRequest {
    let mut sources = RoleMap::new();
    for (index, role) in kind.source_roles().into_iter().enumerate() {
        sources.insert(
            role,
            OperationSource {
                source_id: IDS[index].0.into(),
                role,
                byte_length: TEXT.len() as u64,
                sha256: sha256_hex(TEXT.as_bytes()),
                encoding: "utf-8".into(),
                content: Some(TEXT.into()),
                bytes: None,
                reference: None,
                bom: None,
                line_endings: None,
                final_newline: None,
                extra: Metadata::new(),
            },
        );
    }
    let operation = match kind {
        OperationKind::Merge3 => OperationPolicy::Merge3(ThreeWayMergePolicy {
            render_policy: "source-plan".into(),
            fallback_policy: None,
            conflict_marker_size: None,
            labels: None,
            extra: Metadata::new(),
        }),
        _ => OperationPolicy::Merge2(structuredmerge_core::operation::DirectionalMergePolicy {
            directional_merge: "template-into-current".into(),
            render_policy: "source-plan".into(),
            fallback_policy: None,
            extra: Metadata::new(),
        }),
    };
    OperationRequest {
        schema: OPERATION_SCHEMA.into(),
        request_id: "r".into(),
        operation,
        provider_selection: MergeProviderSelection {
            provider_id: Some("kernel.yaml".into()),
            family: Some("yaml".into()),
            dialect: None,
            profile_id: None,
            required_capabilities: vec![],
            extra: Metadata::new(),
        },
        parser_selection: OperationParserSelection {
            backend: None,
            preference: vec![],
            required_capabilities: vec![],
            profile_id: None,
            language_version: None,
            extra: Metadata::new(),
        },
        sources,
        path_name: None,
        extensions: vec![],
        metadata: Metadata::new(),
        extra: Metadata::new(),
    }
    .validate(4096, refuse)
    .unwrap()
}

fn alternatives() -> Vec<MergeAlternative> {
    vec![
        MergeAlternative {
            revision: SourceRevision::Base,
            state: ConflictAlternativeState::Present,
            regions: vec![ByteRange { start_byte: 0, end_byte: 4 }],
        },
        MergeAlternative {
            revision: SourceRevision::Ours,
            state: ConflictAlternativeState::Present,
            regions: vec![ByteRange { start_byte: 5, end_byte: 9 }],
        },
        MergeAlternative { revision: SourceRevision::Theirs, state: ConflictAlternativeState::Absent, regions: vec![] },
    ]
}

fn execution() -> NativeMergeExecution {
    NativeMergeExecution {
        sources: IDS
            .iter()
            .map(|(id, role)| {
                source_input((*id).into(), *role, SourceEncoding::Utf8, TEXT.as_bytes().to_vec()).unwrap().descriptor
            })
            .collect(),
        outcome: MergeOutcome::Conflict,
        conflicts: vec![RenderedConflict {
            conflict_id: "c.a".into(),
            alternatives: alternatives(),
            path: "a".into(),
            message: "theirs deleted what ours changed".into(),
        }],
        classification: Some(OwnerClassification {
            whole_source_selection: false,
            base_equals_ours: true,
            base_equals_theirs: true,
            ours_equals_theirs: true,
            decisions: vec![
                OwnerDecision {
                    id: "decision.keep".into(),
                    kind: OwnerDecisionKind::Settled,
                    conflict_id: None,
                    alternatives: vec![],
                    path: "b".into(),
                    owner_id: "owner.b".into(),
                    record: "{\"id\":\"decision.keep\"}".into(),
                },
                OwnerDecision {
                    id: "decision.a".into(),
                    kind: OwnerDecisionKind::ConflictDeleteModify,
                    conflict_id: Some("c.a".into()),
                    alternatives: alternatives(),
                    path: "a".into(),
                    owner_id: "owner.a".into(),
                    record: "{\"id\":\"decision.a\"}".into(),
                },
            ],
        }),
    }
}

#[test]
fn conflict_decisions_project_to_valid_conflicts_and_diagnostics() {
    let request = request(OperationKind::Merge3);
    let projected = project_native_merge_conflicts(&execution(), &request, "kernel.yaml").unwrap();
    assert_eq!(projected.conflicts.len(), 1);
    assert_eq!(projected.diagnostics.len(), 1);
    let conflict = &projected.conflicts[0];
    assert_eq!(conflict.id, "c.a");
    assert_eq!((conflict.category, conflict.code.as_str()), (ConflictCategory::DeleteModify, "merge.delete_edit"));
    assert_eq!(conflict.resolution.status, ResolutionStatus::Unresolved);
    assert_eq!(conflict.diagnostic_ids, ["diagnostic.decision.a"]);
    assert_eq!(conflict.alternatives[1].regions[0].sha256, sha256_hex(b"b: 2"));
    assert_eq!(conflict.alternatives[2].source_id, None);
    assert_eq!(conflict.classification.extra.entries[0].value, "{\"id\":\"decision.a\"}");
    assert_eq!(
        conflict.classification.extra.entries[1].value,
        "{\"base_equals_ours\":true,\"base_equals_theirs\":true,\"ours_equals_theirs\":true}"
    );
    let diagnostic = &projected.diagnostics[0];
    assert_eq!(diagnostic.id, "diagnostic.decision.a");
    assert_eq!(diagnostic.category, PortableCategory::MergeConflict);
    assert_eq!(diagnostic.source_refs.len(), 2);
    let span = diagnostic.source_refs[1].span.as_ref().unwrap();
    assert_eq!((span.start_point.row, span.start_point.column, span.end_point.column), (1, 0, 4));
    assert_eq!(projected.evidence.decisions, ["decision.keep", "decision.a"]);

    let diagnostic_ids: Vec<String> = projected.diagnostics.iter().map(|d| d.id.clone()).collect();
    let none: Vec<String> = vec![];
    let context = ConflictValidationContext {
        operation: OperationKind::Merge3,
        result_ok: false,
        sources: request.sources(),
        output: None,
        diagnostic_ids: &diagnostic_ids,
        change_ids: &none,
        evidence: &projected.evidence,
    };
    let conflicts: Vec<_> = projected.conflicts.iter().collect();
    assert_eq!(validate_conflicts(&conflicts, &context), Ok(()));
    let diagnostics: Vec<_> = projected.diagnostics.iter().collect();
    let known = |s: &DiagnosticSubjectRef| s.kind == "conflict" && s.id == "c.a";
    assert_eq!(validate_diagnostics(&diagnostics, "r", OperationKind::Merge3, request.sources(), known), Ok(()));
}

#[test]
fn operation_and_provider_are_checked_first() {
    let request3 = request(OperationKind::Merge3);
    let mut merged = execution();
    merged.outcome = MergeOutcome::Merged;
    assert_eq!(project_native_merge_conflicts(&merged, &request3, "kernel.yaml").unwrap_err(), E::Operation);
    let request2 = request(OperationKind::Merge2);
    assert_eq!(project_native_merge_conflicts(&execution(), &request2, "kernel.yaml").unwrap_err(), E::Operation);
    assert_eq!(project_native_merge_conflicts(&execution(), &request3, "").unwrap_err(), E::Provider);
    assert_eq!(project_native_merge_conflicts(&execution(), &request3, "kernel.json").unwrap_err(), E::Provider);
}

#[test]
fn sources_must_be_the_requests_sources() {
    let request = request(OperationKind::Merge3);
    let mut e = execution();
    e.sources.pop();
    assert_eq!(project_native_merge_conflicts(&e, &request, "kernel.yaml").unwrap_err(), E::Source);
    let mut e = execution();
    e.sources.swap(0, 1);
    assert_eq!(project_native_merge_conflicts(&e, &request, "kernel.yaml").unwrap_err(), E::Source);
    let mut e = execution();
    let classification = e.classification.as_mut().unwrap();
    classification.decisions[1].alternatives[1].regions[0].end_byte = 99;
    e.conflicts[0].alternatives[1].regions[0].end_byte = 99;
    assert_eq!(project_native_merge_conflicts(&e, &request, "kernel.yaml").unwrap_err(), E::Source);
}

#[test]
fn classification_must_match_what_was_executed() {
    let request = request(OperationKind::Merge3);
    let project = |e: &NativeMergeExecution| project_native_merge_conflicts(e, &request, "kernel.yaml");
    let mut e = execution();
    e.classification = None;
    assert_eq!(project(&e).unwrap_err(), E::Classification);
    let mut e = execution();
    e.classification.as_mut().unwrap().whole_source_selection = true;
    assert_eq!(project(&e).unwrap_err(), E::Classification);
    let mut e = execution();
    e.classification.as_mut().unwrap().ours_equals_theirs = false;
    assert_eq!(project(&e).unwrap_err(), E::Classification);
    let mut e = execution();
    e.classification.as_mut().unwrap().decisions[1].id = "decision.keep".into();
    assert_eq!(project(&e).unwrap_err(), E::Classification);
    let mut e = execution();
    e.classification.as_mut().unwrap().decisions[0].conflict_id = Some("c.z".into());
    assert_eq!(project(&e).unwrap_err(), E::Classification);
    let mut e = execution();
    e.classification.as_mut().unwrap().decisions[1].conflict_id = None;
    assert_eq!(project(&e).unwrap_err(), E::Classification);
    let mut e = execution();
    e.conflicts[0].path = "z".into();
    assert_eq!(project(&e).unwrap_err(), E::Classification);
    let mut e = execution();
    e.conflicts[0].conflict_id = "c.z".into();
    assert_eq!(project(&e).unwrap_err(), E::Classification);
    let mut e = execution();
    e.classification.as_mut().unwrap().decisions[1].alternatives.swap(0, 1);
    e.conflicts[0].alternatives.swap(0, 1);
    assert_eq!(project(&e).unwrap_err(), E::Classification);
    let mut e = execution();
    e.classification.as_mut().unwrap().decisions[1].alternatives[2].state = ConflictAlternativeState::Present;
    e.conflicts[0].alternatives[2].state = ConflictAlternativeState::Present;
    assert_eq!(project(&e).unwrap_err(), E::Classification);
    let mut e = execution();
    let extra = e.conflicts[0].clone();
    e.conflicts.push(extra);
    assert_eq!(project(&e).unwrap_err(), E::Classification);
    let mut e = execution();
    e.classification.as_mut().unwrap().decisions.pop();
    e.conflicts.clear();
    assert_eq!(project(&e).unwrap_err(), E::Classification);
}
