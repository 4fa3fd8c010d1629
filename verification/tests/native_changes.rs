use structuredmerge_core::metadata::Metadata;
use structuredmerge_core::native_operation::{
    diff_record, directional_failure, document_change_owed, empty_result, finalize_native_result, project_document_change,
    project_incoming_additions, retained_parser_selection, directional_success, refused_native_result, NativeRefusal,
    DirectionalRendering,
    DirectionalSegment,
    project_owner_change, whole_source_region, DiffSide, DiffSourceRegion, DirectionalDecision,
    DirectionalFailureStage, OwnerChange, OwnerChangeKind, DIRECTIONAL_FAILURE_MESSAGE,
};
use structuredmerge_core::operation::{
    DiffPolicy, DirectionalMergePolicy, MergeProviderSelection, OperationParserSelection, OperationPolicy,
    OperationSource,
};
use structuredmerge_core::operation_result::{
    PreservationProperty, ResultChange, ResultProfile, ResultProvider, ResultVerification, OPERATION_RESULT_SCHEMA,
};
use structuredmerge_core::portable_diagnostic::{DiagnosticLayer, PortableCategory};
use structuredmerge_core::role_map::RoleMap;
use structuredmerge_core::source::sha256_hex;
use structuredmerge_core::{
    ByteRange, OperationKind, OperationRequest, OperationResult, SourceRole, ValidatedOperationRequest, OPERATION_SCHEMA,
};

const BEFORE: &str = "a: 1\nb: 2\n";
const AFTER: &str = "a: 1\nb: 3\nc: 4\n";

fn refuse(_: &OperationSource, _: u64) -> Result<Vec<u8>, String> {
    Err("no store".into())
}

fn source(id: &str, role: SourceRole, text: &str) -> OperationSource {
    OperationSource {
        source_id: id.into(),
        role,
        byte_length: text.len() as u64,
        sha256: sha256_hex(text.as_bytes()),
        encoding: "utf-8".into(),
        content: Some(text.into()),
        bytes: None,
        reference: None,
        bom: None,
        line_endings: None,
        final_newline: None,
        extra: Metadata::new(),
    }
}

fn request(operation: OperationPolicy, sources: RoleMap<OperationSource>) -> ValidatedOperationRequest {
    OperationRequest {
        schema: OPERATION_SCHEMA.into(),
        request_id: "changes".into(),
        operation,
        provider_selection: MergeProviderSelection {
            provider_id: None,
            family: Some("go".into()),
            dialect: None,
            profile_id: None,
            required_capabilities: vec![],
            extra: Metadata::new(),
        },
        parser_selection: OperationParserSelection {
            backend: None,
            preference: vec![],
            required_capabilities: vec![],
            profile_id: None,
            language_version: None,
            extra: Metadata::new(),
        },
        sources,
        path_name: None,
        extensions: vec![],
        metadata: Metadata::new(),
        extra: Metadata::new(),
    }
    .validate(1000, refuse)
    .unwrap()
}

fn diff_request(after: &str) -> ValidatedOperationRequest {
    let mut sources = RoleMap::new();
    sources.insert(SourceRole::Before, source("old", SourceRole::Before, BEFORE));
    sources.insert(SourceRole::After, source("new", SourceRole::After, after));
    request(
        OperationPolicy::Diff2(DiffPolicy {
            comparison_profile: None,
            equivalence: None,
            source_preservation_evidence: None,
            extra: Metadata::new(),
        }),
        sources,
    )
}

fn merge_request() -> ValidatedOperationRequest {
    let mut sources = RoleMap::new();
    sources.insert(SourceRole::Incoming, source("template", SourceRole::Incoming, AFTER));
    sources.insert(SourceRole::Current, source("current", SourceRole::Current, BEFORE));
    request(
        OperationPolicy::Merge2(DirectionalMergePolicy {
            directional_merge: "template-into-current".into(),
            render_policy: "source-preserving".into(),
            fallback_policy: None,
            extra: Metadata::new(),
        }),
        sources,
    )
}

fn side(id: &str, role: SourceRole, text: &str, start: usize, end: usize) -> DiffSide {
    DiffSide {
        region: DiffSourceRegion {
            source_id: id.into(),
            source_role: role,
            range: ByteRange { start_byte: start, end_byte: end },
            sha256: sha256_hex(&text.as_bytes()[start..end]),
        },
        state: format!("{{\"source_id\":\"{id}\",\"start\":{start}}}"),
    }
}

fn change(kind: OwnerChangeKind, before: Option<DiffSide>, after: Option<DiffSide>) -> OwnerChange {
    OwnerChange {
        id: "change:b".into(),
        kind,
        owner_id: "/b".into(),
        before_path: Some("/b-old".into()),
        after_path: None,
        before,
        after,
    }
}

#[test]
fn edited_owners_report_both_sides_with_exact_spans() {
    let request = diff_request(AFTER);
    let mut edited = change(
        OwnerChangeKind::Edited,
        Some(side("old", SourceRole::Before, BEFORE, 5, 9)),
        Some(side("new", SourceRole::After, AFTER, 5, 9)),
    );
    edited.after_path = Some("/b".into());
    let projected = project_owner_change(&edited, &request).unwrap();
    assert_eq!(projected.id, "change:b");
    assert_eq!(projected.classification, "edited");
    assert_eq!(projected.subject_ref.as_deref(), Some("/b"));
    assert_eq!(projected.path.as_deref(), Some("/b"));
    assert_eq!(projected.role_states.entries[0].key, "before");
    assert_eq!(projected.role_states.entries[0].value, "{\"source_id\":\"old\",\"start\":5}");
    assert_eq!(projected.role_states.entries[1].key, "after");
    assert_eq!(projected.source_spans.len(), 2);
    let after = projected.source_spans.get(SourceRole::After).unwrap();
    assert_eq!((after.range.start_byte, after.range.end_byte), (5, 9));
    assert_eq!((after.start_point.row, after.start_point.column), (1, 0));
    assert_eq!((after.end_point.row, after.end_point.column), (1, 4));
    assert!(projected.metadata.is_empty());
}

#[test]
fn one_sided_changes_have_one_span_and_a_null_state() {
    let request = diff_request(AFTER);
    let deleted = project_owner_change(
        &change(OwnerChangeKind::Deleted, Some(side("old", SourceRole::Before, BEFORE, 5, 9)), None),
        &request,
    )
    .unwrap();
    assert_eq!(deleted.classification, "deleted");
    assert_eq!(deleted.path.as_deref(), Some("/b-old"));
    assert_eq!(deleted.role_states.entries[1].value, "null");
    assert!(deleted.source_spans.contains_key(SourceRole::Before));
    assert!(!deleted.source_spans.contains_key(SourceRole::After));
    let added = project_owner_change(
        &change(OwnerChangeKind::Added, None, Some(side("new", SourceRole::After, AFTER, 10, 14))),
        &request,
    )
    .unwrap();
    assert_eq!(added.classification, "added");
    assert_eq!(added.role_states.entries[0].value, "null");
    assert!(!added.source_spans.contains_key(SourceRole::Before));
    let span = added.source_spans.get(SourceRole::After).unwrap();
    assert_eq!((span.start_point.row, span.end_point.row, span.end_point.column), (2, 2, 4));
}

#[test]
fn regions_that_contradict_the_request_are_evidence_errors() {
    let request = diff_request(AFTER);
    let mut forged = side("new", SourceRole::After, AFTER, 5, 9);
    forged.region.sha256 = sha256_hex(b"b: 2");
    let error = project_owner_change(&change(OwnerChangeKind::Edited, None, Some(forged)), &request).unwrap_err();
    assert_eq!(error.code, "operation.invalid_evidence");
    let misplaced = side("old", SourceRole::After, BEFORE, 5, 9);
    assert!(project_owner_change(&change(OwnerChangeKind::Edited, None, Some(misplaced)), &request).is_err());
    let beyond = DiffSide {
        region: DiffSourceRegion {
            source_id: "old".into(),
            source_role: SourceRole::Before,
            range: ByteRange { start_byte: 5, end_byte: 99 },
            sha256: sha256_hex(b""),
        },
        state: "{}".into(),
    };
    assert!(project_owner_change(&change(OwnerChangeKind::Deleted, Some(beyond), None), &request).is_err());
}

#[test]
fn named_declaration_families_summarize_changed_documents() {
    let changed = diff_request(AFTER);
    let before = changed.sources().get("old").unwrap();
    let after = changed.sources().get("new").unwrap();
    for family in ["bash", "go", "rust", "typescript"] {
        assert!(document_change_owed(family, before, after));
    }
    for family in ["yaml", "python", "json"] {
        assert!(!document_change_owed(family, before, after));
    }
    let same = diff_request(BEFORE);
    assert!(!document_change_owed("go", same.sources().get("old").unwrap(), same.sources().get("new").unwrap()));
    let whole = whole_source_region(after);
    assert_eq!(whole.source_id, "new");
    assert_eq!(whole.source_role, SourceRole::After);
    assert_eq!((whole.range.start_byte, whole.range.end_byte), (0, AFTER.len()));
    assert_eq!(whole.sha256, sha256_hex(AFTER.as_bytes()));
}

#[test]
fn the_document_summary_spans_both_whole_sources() {
    let request = diff_request(AFTER);
    let before = DiffSide {
        region: whole_source_region(request.sources().get("old").unwrap()),
        state: "{\"side\":\"before\"}".into(),
    };
    let after = DiffSide {
        region: whole_source_region(request.sources().get("new").unwrap()),
        state: "{\"side\":\"after\"}".into(),
    };
    let summary = project_document_change(&before, &after, &request).unwrap();
    assert_eq!(summary.id, "document-change");
    assert_eq!(summary.classification, "edited");
    assert_eq!(summary.subject_ref.as_deref(), Some("document"));
    assert_eq!(summary.path, None);
    assert_eq!(summary.metadata.entries[0].key, "scope");
    assert_eq!(summary.metadata.entries[0].value, "\"complete-source-summary\"");
    let end = summary.source_spans.get(SourceRole::After).unwrap().end_point.clone();
    assert_eq!((end.row, end.column), (3, 0));
    let mut stale = after.clone();
    stale.region.sha256 = sha256_hex(BEFORE.as_bytes());
    assert!(project_document_change(&before, &stale, &request).is_err());
}

#[test]
fn diff_records_list_change_identities_in_order() {
    let request = diff_request(AFTER);
    let changes = vec![
        project_owner_change(&change(OwnerChangeKind::Deleted, Some(side("old", SourceRole::Before, BEFORE, 5, 9)), None), &request)
            .unwrap(),
        project_document_change(
            &side("old", SourceRole::Before, BEFORE, 0, BEFORE.len()),
            &side("new", SourceRole::After, AFTER, 0, AFTER.len()),
            &request,
        )
        .unwrap(),
    ];
    let record = diff_record(&changes, "{\"changes\":[]}".into());
    assert_eq!(record.change_ids, vec!["change:b".to_string(), "document-change".to_string()]);
    assert_eq!(record.extra.entries[0].key, "owner_diff");
    assert_eq!(record.extra.entries[0].value, "{\"changes\":[]}");
}

#[test]
fn incoming_only_additions_become_numbered_added_changes() {
    let request = merge_request();
    let decision = |owner: &str, adds: bool, start: usize, end: usize| DirectionalDecision {
        owner_id: owner.into(),
        path: format!("/{owner}"),
        adds_incoming_only: adds,
        incoming: Some(side("template", SourceRole::Incoming, AFTER, start, end)),
    };
    let decisions = vec![
        decision("a", false, 0, 4),
        decision("b", true, 5, 9),
        DirectionalDecision { owner_id: "x".into(), path: "/x".into(), adds_incoming_only: false, incoming: None },
        decision("c", true, 10, 14),
    ];
    let changes = project_incoming_additions(&decisions, &request).unwrap();
    assert_eq!(changes.len(), 2);
    assert_eq!(changes[0].id, "change-0");
    assert_eq!(changes[1].id, "change-1");
    assert_eq!(changes[1].subject_ref.as_deref(), Some("c"));
    assert_eq!(changes[1].path.as_deref(), Some("/c"));
    assert_eq!(changes[1].classification, "added");
    assert_eq!(changes[1].role_states.entries[0].key, "incoming");
    assert_eq!(changes[1].role_states.entries[1].key, "current");
    assert_eq!(changes[1].role_states.entries[1].value, "null");
    assert_eq!(changes[1].source_spans.len(), 1);
    assert_eq!(changes[1].source_spans.get(SourceRole::Incoming).unwrap().start_point.row, 2);
    let mut forged = decisions.clone();
    forged[3].incoming.as_mut().unwrap().region.sha256 = sha256_hex(b"c: 5");
    assert_eq!(project_incoming_additions(&forged, &request).unwrap_err().code, "operation.invalid_evidence");
    assert_eq!(project_incoming_additions(&vec![], &request).unwrap(), vec![]);
}

#[test]
fn many_additions_are_numbered_in_decimal() {
    let request = merge_request();
    let decisions: Vec<DirectionalDecision> = (0..12)
        .map(|k| DirectionalDecision {
            owner_id: format!("o{k}"),
            path: "/o".into(),
            adds_incoming_only: true,
            incoming: Some(side("template", SourceRole::Incoming, AFTER, 0, 4)),
        })
        .collect();
    let changes = project_incoming_additions(&decisions, &request).unwrap();
    assert_eq!(changes.iter().map(|c| c.id.as_str()).collect::<Vec<_>>()[9..], ["change-9", "change-10", "change-11"]);
}

#[test]
fn directional_failures_name_their_stage() {
    assert_eq!(
        directional_failure(Some(DirectionalFailureStage::Planning)),
        (PortableCategory::UnsupportedFeature, "merge2.plan_unsupported", DiagnosticLayer::Analysis)
    );
    assert_eq!(
        directional_failure(Some(DirectionalFailureStage::Rendering)),
        (PortableCategory::RenderError, "merge2.render_rejected", DiagnosticLayer::Renderer)
    );
    for stage in [Some(DirectionalFailureStage::Verification), None] {
        assert_eq!(
            directional_failure(stage),
            (PortableCategory::VerificationError, "merge2.verification_rejected", DiagnosticLayer::Verifier)
        );
    }
    assert_eq!(DIRECTIONAL_FAILURE_MESSAGE, "directional merge could not prove an accepted output");
}

fn diff_result(changes: Vec<ResultChange>) -> OperationResult {
    let diff = diff_record(&changes, "{}".into());
    OperationResult {
        schema: OPERATION_RESULT_SCHEMA.into(),
        request_id: "changes".into(),
        operation: OperationKind::Diff2,
        ok: true,
        provider: ResultProvider {
            provider_id: Some("kernel.go".into()),
            family: Some("go".into()),
            delegation: None,
            extra: Metadata::new(),
        },
        profile: ResultProfile { profile_id: None, parser: None, extra: Metadata::new() },
        diagnostics: vec![],
        changes,
        conflicts: vec![],
        fallbacks: vec![],
        render_report: Metadata::new(),
        verification: ResultVerification {
            consumed_source_roles: Some(vec![SourceRole::Before, SourceRole::After]),
            directional_roles_preserved: None,
            base_participated: None,
            classification_reached: Some(true),
            output_reparsed: None,
            structural_equivalence: None,
            preservation: None,
            retained_source_regions: None,
            extra: Metadata::new(),
        },
        analysis: None,
        diff: Some(diff),
        output: None,
        conflicted_output: None,
        extensions: vec![],
        metadata: Metadata::new(),
        extra: Metadata::new(),
    }
}

#[test]
fn projected_owner_changes_and_summary_pass_result_validation() {
    let request = diff_request(AFTER);
    let mut edited = change(
        OwnerChangeKind::Edited,
        Some(side("old", SourceRole::Before, BEFORE, 5, 9)),
        Some(side("new", SourceRole::After, AFTER, 5, 9)),
    );
    edited.id = "change:b".into();
    let mut added = change(OwnerChangeKind::Added, None, Some(side("new", SourceRole::After, AFTER, 10, 14)));
    added.id = "change:c".into();
    added.owner_id = "/c".into();
    let summary = project_document_change(
        &DiffSide { region: whole_source_region(request.sources().get("old").unwrap()), state: "{}".into() },
        &DiffSide { region: whole_source_region(request.sources().get("new").unwrap()), state: "{}".into() },
        &request,
    )
    .unwrap();
    let changes = vec![
        project_owner_change(&edited, &request).unwrap(),
        project_owner_change(&added, &request).unwrap(),
        summary,
    ];
    assert_eq!(diff_result(changes).validate_against(&request), Ok(()));
}

#[test]
fn projected_incoming_additions_pass_result_validation() {
    let request = merge_request();
    let decisions: Vec<DirectionalDecision> = [("b", 5, 9), ("c", 10, 14)]
        .into_iter()
        .map(|(owner, start, end)| DirectionalDecision {
            owner_id: owner.into(),
            path: format!("/{owner}"),
            adds_incoming_only: true,
            incoming: Some(side("template", SourceRole::Incoming, AFTER, start, end)),
        })
        .collect();
    let changes = project_incoming_additions(&decisions, &request).unwrap();
    let result = OperationResult {
        schema: OPERATION_RESULT_SCHEMA.into(),
        request_id: "changes".into(),
        operation: OperationKind::Merge2,
        ok: true,
        provider: ResultProvider {
            provider_id: Some("kernel.go".into()),
            family: Some("go".into()),
            delegation: None,
            extra: Metadata::new(),
        },
        profile: ResultProfile { profile_id: None, parser: None, extra: Metadata::new() },
        diagnostics: vec![],
        changes,
        conflicts: vec![],
        fallbacks: vec![],
        render_report: Metadata::new(),
        verification: ResultVerification {
            consumed_source_roles: Some(vec![SourceRole::Incoming, SourceRole::Current]),
            directional_roles_preserved: Some(true),
            base_participated: None,
            classification_reached: Some(true),
            output_reparsed: Some(true),
            structural_equivalence: Some(true),
            preservation: Some(vec![PreservationProperty {
                property: "exact-source-partition".into(),
                required: true,
                status: "passed".into(),
                extra: Metadata::new(),
            }]),
            retained_source_regions: None,
            extra: Metadata::new(),
        },
        analysis: None,
        diff: None,
        output: Some(AFTER.into()),
        conflicted_output: None,
        extensions: vec![],
        metadata: Metadata::new(),
        extra: Metadata::new(),
    };
    assert_eq!(result.validate_against(&request), Ok(()));
}

#[test]
fn native_executions_start_from_an_unsuccessful_unclassified_envelope() {
    let mut request = OperationRequest {
        schema: OPERATION_SCHEMA.into(),
        request_id: "envelope".into(),
        operation: OperationPolicy::Diff2(DiffPolicy {
            comparison_profile: None,
            equivalence: None,
            source_preservation_evidence: None,
            extra: Metadata::new(),
        }),
        provider_selection: MergeProviderSelection {
            provider_id: None,
            family: Some("go".into()),
            dialect: None,
            profile_id: None,
            required_capabilities: vec![],
            extra: Metadata::new(),
        },
        parser_selection: OperationParserSelection {
            backend: None,
            preference: vec![],
            required_capabilities: vec![],
            profile_id: None,
            language_version: None,
            extra: Metadata::new(),
        },
        sources: RoleMap::new(),
        path_name: None,
        extensions: vec![structuredmerge_core::NativeExtension {
            schema: "ext/v1".into(),
            namespace: "vendor".into(),
            capabilities: vec![],
            payload: "{}".into(),
            extra: Metadata::new(),
        }],
        metadata: Metadata::new(),
        extra: Metadata::new(),
    };
    request.metadata.insert("trace".into(), "\"t-1\"".into());
    request.sources.insert(SourceRole::Before, source("old", SourceRole::Before, BEFORE));
    request.sources.insert(SourceRole::After, source("new", SourceRole::After, AFTER));
    let validated = request.validate(1000, refuse).unwrap();
    let envelope = empty_result(&validated, "{\"path_name\":null}".into());
    assert_eq!(envelope.request_id, "envelope");
    assert_eq!(envelope.operation, OperationKind::Diff2);
    assert!(!envelope.ok);
    assert_eq!(envelope.verification.classification_reached, Some(false));
    assert_eq!(envelope.verification.consumed_source_roles, None);
    assert_eq!(envelope.extensions.len(), 1);
    assert_eq!(envelope.extensions[0].namespace, "vendor");
    assert_eq!(envelope.metadata.entries[0].value, "\"t-1\"");
    assert_eq!(envelope.extra.entries[0].key, "request_forwarding");
    assert_eq!(envelope.extra.entries[0].value, "{\"path_name\":null}");
    assert!(envelope.diagnostics.is_empty() && envelope.changes.is_empty() && envelope.output.is_none());
}

#[test]
fn retained_parser_records_say_how_the_backend_was_chosen() {
    use_parse_record(None, "policy");
    use_parse_record(Some("tree-sitter-go"), "explicit");
}

fn use_parse_record(requested: Option<&str>, mode: &str) {
    let first = structuredmerge_core::CoreParseResult {
        schema: "structuredmerge.parse-result/v1".into(),
        selection: structuredmerge_core::SelectionReport {
            requested: structuredmerge_core::ParserSelection {
                backend_id: requested.map(str::to_owned),
                preference: vec![],
                required_capabilities: vec![],
            },
            generation: 1,
            digest: "d".into(),
            candidates: vec![],
            selected_backend: Some("tree-sitter-go".into()),
        },
        backend: structuredmerge_core::ParserProviderDescriptor {
            id: "tree-sitter-go".into(),
            languages: vec![],
            contracts: vec![],
            capabilities: vec![],
            record: "{}".into(),
        },
        parsed: structuredmerge_core::ParseOutput {
            ok: true,
            request_id: "p".into(),
            source: structuredmerge_core::source_input("s".into(), SourceRole::Before, structuredmerge_core::SourceEncoding::Utf8, vec![])
                .unwrap()
                .descriptor,
            record: "{}".into(),
        },
    };
    let record = retained_parser_selection(&first);
    assert_eq!(record.requested_backend.as_deref(), requested);
    assert_eq!(record.selected_backend.as_deref(), Some("tree-sitter-go"));
    assert_eq!(record.selection_mode.as_deref(), Some(mode));
}

#[test]
fn controls_never_let_a_stopped_operation_report_success() {
    let request = diff_request(AFTER);
    let changes = vec![project_owner_change(
        &change(OwnerChangeKind::Deleted, Some(side("old", SourceRole::Before, BEFORE, 5, 9)), None),
        &request,
    )
    .unwrap()];
    let draft = diff_result(changes);
    let (kept, none) = finalize_native_result(draft.clone(), &request, "{}".into(), None, None).unwrap();
    assert_eq!(kept, draft);
    assert!(none.is_none());
    for (before, after) in [
        (Some(structuredmerge_core::ServiceError::Cancelled), None),
        (None, Some(structuredmerge_core::ServiceError::Cancelled)),
    ] {
        let (stopped, diagnostic) = finalize_native_result(draft.clone(), &request, "{}".into(), before, after).unwrap();
        assert!(!stopped.ok);
        assert!(stopped.output.is_none() && stopped.changes.is_empty());
        let diagnostic = diagnostic.unwrap();
        assert_eq!(diagnostic.code, "execution.cancelled");
        assert_eq!(diagnostic.id, "diagnostic.0");
    }
    let mut broken = draft.clone();
    broken.diff = None;
    let error = finalize_native_result(broken, &request, "{}".into(), None, None).unwrap_err();
    assert_eq!((error.code.as_str(), error.message.as_str()), ("operation.invalid_evidence", "MissingPayload"));
}

#[test]
fn a_rendered_directional_merge_completes_the_envelope() {
    let request = merge_request();
    let draft = empty_result(&request, "{}".into());
    let segment = |id: &str, role: SourceRole, text: &str, start: usize, end: usize, out: usize| DirectionalSegment {
        source_id: id.into(),
        source_role: role,
        source_range: ByteRange { start_byte: start, end_byte: end },
        sha256: sha256_hex(&text.as_bytes()[start..end]),
        output_range: format!("{{\"start_byte\":{out},\"end_byte\":{}}}", out + end - start),
    };
    let rendering = DirectionalRendering {
        output: "a: 1\nc: 4".into(),
        segments: vec![
            segment("current", SourceRole::Current, BEFORE, 0, 5, 0),
            segment("template", SourceRole::Incoming, AFTER, 10, 14, 5),
        ],
        decisions: vec![DirectionalDecision {
            owner_id: "c".into(),
            path: "/c".into(),
            adds_incoming_only: true,
            incoming: Some(side("template", SourceRole::Incoming, AFTER, 10, 14)),
        }],
        classification: "{\"decisions\":1}".into(),
        segment_records: "[]".into(),
    };
    let result = directional_success(draft.clone(), rendering.clone(), "kernel.yaml", &request).unwrap();
    assert!(result.ok);
    assert_eq!(result.output.as_deref(), Some("a: 1\nc: 4"));
    let verification = &result.verification;
    assert_eq!(verification.consumed_source_roles, Some(vec![SourceRole::Incoming, SourceRole::Current]));
    assert_eq!(verification.output_reparsed, Some(true));
    assert_eq!(verification.structural_equivalence, Some(true));
    let preservation = verification.preservation.as_ref().unwrap();
    assert_eq!(preservation.len(), 2);
    assert_eq!(preservation[0].property, "exact-source-partition");
    assert_eq!(preservation[1].property, "all-current-bytes-retained");
    assert!(preservation.iter().all(|p| p.required && p.status == "passed"));
    let regions = verification.retained_source_regions.as_ref().unwrap();
    assert_eq!(regions.len(), 2);
    assert_eq!(regions[1].source_role, SourceRole::Incoming);
    assert_eq!((regions[1].range.start_byte, regions[1].range.end_byte), (10, 14));
    assert_eq!(regions[1].sha256.as_deref(), Some(sha256_hex(b"c: 4").as_str()));
    assert_eq!(regions[1].extra.entries[0].key, "output_range");
    assert_eq!(regions[1].extra.entries[0].value, "{\"start_byte\":5,\"end_byte\":9}");
    assert_eq!(verification.extra.entries[0].key, "owner_classification");
    assert_eq!(result.changes.len(), 1);
    assert_eq!(result.changes[0].id, "change-0");
    let report: Vec<(&str, &str)> =
        result.render_report.entries.iter().map(|e| (e.key.as_str(), e.value.as_str())).collect();
    assert_eq!(
        report,
        vec![
            ("producer", "\"kernel.yaml\""),
            ("strategy", "\"directional-source-plan\""),
            ("source_segments", "[]"),
        ]
    );
    assert_eq!(result.extra, draft.extra);
    let mut forged = rendering;
    forged.decisions[0].incoming.as_mut().unwrap().region.sha256 = sha256_hex(b"c: 5");
    assert_eq!(
        directional_success(draft, forged, "kernel.yaml", &request).unwrap_err().code,
        "operation.invalid_evidence"
    );
}

#[test]
fn the_producer_is_reported_as_an_escaped_json_string() {
    let request = merge_request();
    let rendering = DirectionalRendering {
        output: BEFORE.into(),
        segments: vec![],
        decisions: vec![],
        classification: "{}".into(),
        segment_records: "[]".into(),
    };
    let result =
        directional_success(empty_result(&request, "{}".into()), rendering, "p\"q\\r\n\u{1}\u{1f}é", &request).unwrap();
    assert_eq!(result.render_report.entries[0].key, "producer");
    assert_eq!(result.render_report.entries[0].value, "\"p\\\"q\\\\r\\n\\u0001\\u001fé\"");
    assert!(result.changes.is_empty());
    assert_eq!(result.verification.retained_source_regions, Some(vec![]));
}

#[test]
fn a_refused_request_is_answered_by_its_envelope_and_one_registry_diagnostic() {
    let request = merge_request();
    let (result, diagnostic) =
        refused_native_result(&request, "{\"path_name\":null}".into(), NativeRefusal::UnsupportedConstraints);
    assert!(!result.ok);
    assert_eq!(result.output, None);
    assert_eq!(result.operation, OperationKind::Merge2);
    assert_eq!(result.extra.entries[0].key, "request_forwarding");
    assert_eq!(result.extra.entries[0].value, "{\"path_name\":null}");
    assert_eq!(diagnostic.id, "diagnostic.0");
    assert_eq!(diagnostic.sequence, 0);
    assert_eq!(diagnostic.category, PortableCategory::SelectionError);
    assert_eq!(diagnostic.code, "selection.unsupported_constraints");
    assert_eq!(diagnostic.message, "native execution cannot honor the requested selection constraints");
    assert_eq!(diagnostic.origin.layer, DiagnosticLayer::Registry);
    assert!(diagnostic.blocking);
    assert!(diagnostic.source_refs.is_empty());
}
