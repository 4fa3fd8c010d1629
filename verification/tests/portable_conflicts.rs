use structuredmerge_core::metadata::Metadata;
use structuredmerge_core::operation_result::{ResultConflict, ResultRange};
use structuredmerge_core::portable_conflict::{
    AlternativeState, ConflictCategory, ConflictClassification, ConflictContractError as E, ConflictEvidence,
    ConflictLocalization, ConflictRecord, ConflictResolution, ConflictSourceAlternative, ConflictSubject,
    ConflictValidationContext, ExactConflictRegion, LocalizationStatus, PortableConflict, ResolutionAuthorization,
    ResolutionStatus, ResolutionStrategy, CONFLICT_SCHEMA,
};
use structuredmerge_core::source::sha256_hex;
use structuredmerge_core::{
    source_input, validate_conflicts, OperationKind, SourceDocument, SourceEncoding, SourceMap, SourceRole,
};

const TEXT: &str = "a: 1\nb: 2\n";

fn sources() -> SourceMap {
    SourceMap::validate(
        [("source.base", SourceRole::Base), ("source.ours", SourceRole::Ours), ("source.theirs", SourceRole::Theirs)]
            .iter()
            .map(|(id, role)| {
                source_input((*id).into(), *role, SourceEncoding::Utf8, TEXT.as_bytes().to_vec()).unwrap()
            })
            .collect(),
        4096,
    )
    .unwrap()
}

fn region(start: usize, end: usize) -> ExactConflictRegion {
    ExactConflictRegion {
        range: ResultRange { start_byte: start, end_byte: end, extra: Metadata::new() },
        byte_length: (end - start) as u64,
        sha256: sha256_hex(&TEXT.as_bytes()[start..end]),
        extra: Metadata::new(),
    }
}

fn alternative(role: SourceRole, id: &str) -> ConflictSourceAlternative {
    ConflictSourceAlternative {
        role,
        state: AlternativeState::Present,
        source_id: Some(id.into()),
        regions: vec![region(0, 4)],
        change_ids: vec![],
        extra: Metadata::new(),
    }
}

fn conflict(id: &str) -> PortableConflict {
    PortableConflict {
        schema: CONFLICT_SCHEMA.into(),
        id: id.into(),
        operation: OperationKind::Merge3,
        category: ConflictCategory::Content,
        code: "merge.edit_edit".into(),
        message: None,
        subject: ConflictSubject {
            structural_path: Some("a".into()),
            owner_ref: None,
            node_ref: None,
            archive_entry: None,
            binary_region: None,
            whole_document: None,
            extra: Metadata::new(),
        },
        roles: vec![SourceRole::Base, SourceRole::Ours, SourceRole::Theirs],
        alternatives: vec![
            alternative(SourceRole::Base, "source.base"),
            alternative(SourceRole::Ours, "source.ours"),
            alternative(SourceRole::Theirs, "source.theirs"),
        ],
        classification: ConflictClassification {
            base_participated: Some(true),
            change_ids: vec![],
            decision_ids: vec!["decision.a".into()],
            extra: Metadata::new(),
        },
        localization: ConflictLocalization {
            status: LocalizationStatus::Owner,
            verified: true,
            output_regions: vec![],
            extra: Metadata::new(),
        },
        resolution: ConflictResolution {
            status: ResolutionStatus::Unresolved,
            strategy: ResolutionStrategy::NoStrategy,
            selected_roles: vec![],
            decision_id: None,
            resolver: None,
            reason: None,
            extra: Metadata::new(),
        },
        diagnostic_ids: vec!["d.a".into()],
        change_ids: vec![],
        decision_ids: vec!["decision.a".into()],
        render_fragment_ids: vec![],
        extensions: vec![],
        metadata: Metadata::new(),
        extra: Metadata::new(),
    }
}

fn evidence() -> ConflictEvidence {
    ConflictEvidence {
        decisions: vec!["decision.a".into(), "decision.resolve".into()],
        render_fragments: vec!["render.ours".into()],
        authorizations: vec![ResolutionAuthorization {
            decision_id: "decision.resolve".into(),
            conflict_id: "c.resolved".into(),
            strategy: ResolutionStrategy::SelectRole,
            selected_roles: vec![SourceRole::Ours],
            resolver: "policy.select-ours".into(),
        }],
    }
}

fn resolved(id: &str) -> PortableConflict {
    let mut c = conflict(id);
    c.resolution = ConflictResolution {
        status: ResolutionStatus::Resolved,
        strategy: ResolutionStrategy::SelectRole,
        selected_roles: vec![SourceRole::Ours],
        decision_id: Some("decision.resolve".into()),
        resolver: Some("policy.select-ours".into()),
        reason: Some("explicit policy".into()),
        extra: Metadata::new(),
    };
    c
}

fn check(conflicts: &[&PortableConflict], operation: OperationKind, result_ok: bool) -> Result<(), E> {
    let sources = sources();
    let diagnostics = vec!["d.a".to_string()];
    let changes: Vec<String> = vec!["change.a".into()];
    let evidence = evidence();
    let context = ConflictValidationContext {
        operation,
        result_ok,
        sources: &sources,
        output: None,
        diagnostic_ids: &diagnostics,
        change_ids: &changes,
        evidence: &evidence,
    };
    validate_conflicts(conflicts, &context)
}

#[test]
fn exact_owner_conflicts_are_accepted() {
    let a = conflict("c.a");
    let b = conflict("c.b");
    assert_eq!(check(&[&a, &b], OperationKind::Merge3, false), Ok(()));
    assert_eq!(check(&[], OperationKind::Analyze, true), Ok(()));
}

#[test]
fn envelope_errors() {
    let mut a = conflict("c.a");
    a.schema = "v0".into();
    assert_eq!(check(&[&a], OperationKind::Merge3, false), Err(E::Schema));
    let a = conflict("c.a");
    assert_eq!(check(&[&a, &a], OperationKind::Merge3, false), Err(E::Identity));
    assert_eq!(check(&[&a], OperationKind::Diff2, false), Err(E::Operation));
    let mut a = conflict("c.a");
    a.code = "Merge".into();
    assert_eq!(check(&[&a], OperationKind::Merge3, false), Err(E::Code));
    let mut a = conflict("c.a");
    a.subject.structural_path = Some(String::new());
    assert_eq!(check(&[&a], OperationKind::Merge3, false), Err(E::Subject));
    a.subject.whole_document = Some(true);
    assert_eq!(check(&[&a], OperationKind::Merge3, false), Ok(()));
    let mut a = conflict("c.a");
    a.alternatives.swap(1, 2);
    assert_eq!(check(&[&a], OperationKind::Merge3, false), Err(E::Roles));
    let mut a = conflict("c.a");
    a.classification.base_participated = None;
    assert_eq!(check(&[&a], OperationKind::Merge3, false), Err(E::BaseParticipation));
    let a = conflict("c.a");
    assert_eq!(check(&[&a], OperationKind::Merge3, true), Err(E::Outcome));
}

#[test]
fn references_must_resolve_against_executor_evidence() {
    let mut a = conflict("c.a");
    a.decision_ids = vec!["decision.unknown".into()];
    assert_eq!(check(&[&a], OperationKind::Merge3, false), Err(E::Reference));
    let mut a = conflict("c.a");
    a.diagnostic_ids = vec!["d.a".into(), "d.a".into()];
    assert_eq!(check(&[&a], OperationKind::Merge3, false), Err(E::Reference));
    let mut a = conflict("c.a");
    a.render_fragment_ids = vec!["render.ours".into()];
    a.change_ids = vec!["change.a".into()];
    assert_eq!(check(&[&a], OperationKind::Merge3, false), Ok(()));
    a.alternatives[0].change_ids = vec!["change.b".into()];
    assert_eq!(check(&[&a], OperationKind::Merge3, false), Err(E::Reference));
}

#[test]
fn source_evidence_is_exact() {
    let mut a = conflict("c.a");
    a.alternatives[1].regions[0].sha256 = sha256_hex(b"zzzz");
    assert_eq!(check(&[&a], OperationKind::Merge3, false), Err(E::Source));
    let mut a = conflict("c.a");
    a.alternatives[1].regions[0].byte_length = 3;
    assert_eq!(check(&[&a], OperationKind::Merge3, false), Err(E::Source));
    let mut a = conflict("c.a");
    a.alternatives[2].source_id = Some("source.ours".into());
    assert_eq!(check(&[&a], OperationKind::Merge3, false), Err(E::Source));
    let mut a = conflict("c.a");
    a.alternatives[2].state = AlternativeState::Absent;
    assert_eq!(check(&[&a], OperationKind::Merge3, false), Err(E::Source));
    a.alternatives[2].regions.clear();
    assert_eq!(check(&[&a], OperationKind::Merge3, false), Ok(()));
    let mut a = conflict("c.a");
    a.localization.status = LocalizationStatus::Exact;
    a.localization.verified = false;
    assert_eq!(check(&[&a], OperationKind::Merge3, false), Err(E::ExactLocalization));
    a.localization.verified = true;
    a.alternatives[0].regions.clear();
    assert_eq!(check(&[&a], OperationKind::Merge3, false), Err(E::ExactLocalization));
    let mut a = conflict("c.a");
    a.localization.output_regions = vec![region(5, 9)];
    assert_eq!(check(&[&a], OperationKind::Merge3, false), Err(E::Source));
}

#[test]
fn output_regions_need_the_merge_output() {
    let sources = sources();
    let output = SourceDocument::validate(
        source_input("output".into(), SourceRole::Output, SourceEncoding::Utf8, TEXT.as_bytes().to_vec()).unwrap(),
        4096,
    )
    .unwrap();
    let ids = vec!["d.a".to_string()];
    let none: Vec<String> = vec![];
    let evidence = evidence();
    let context = ConflictValidationContext {
        operation: OperationKind::Merge3,
        result_ok: false,
        sources: &sources,
        output: Some(&output),
        diagnostic_ids: &ids,
        change_ids: &none,
        evidence: &evidence,
    };
    let mut a = conflict("c.a");
    a.localization.output_regions = vec![region(5, 9)];
    assert_eq!(validate_conflicts(&[&a], &context), Ok(()));
    let mut beyond = region(5, 9);
    beyond.range.end_byte = 11;
    beyond.byte_length = 6;
    a.localization.output_regions = vec![beyond];
    assert_eq!(validate_conflicts(&[&a], &context), Err(E::Source));
}

#[test]
fn resolutions_need_scoped_executor_authorization() {
    let a = resolved("c.resolved");
    assert_eq!(check(&[&a], OperationKind::Merge3, true), Ok(()));
    let b = resolved("c.other");
    assert_eq!(check(&[&b], OperationKind::Merge3, true), Err(E::ResolutionAuthorization));
    let mut c = resolved("c.resolved");
    c.resolution.selected_roles = vec![SourceRole::Ours, SourceRole::Theirs];
    assert_eq!(check(&[&c], OperationKind::Merge3, true), Err(E::ResolutionAuthorization));
    let mut d = resolved("c.resolved");
    d.resolution.reason = Some(String::new());
    assert_eq!(check(&[&d], OperationKind::Merge3, true), Err(E::ResolutionAuthorization));
    let mut e = conflict("c.a");
    e.resolution.resolver = Some("someone".into());
    assert_eq!(check(&[&e], OperationKind::Merge3, false), Err(E::ResolutionAuthorization));
}

#[test]
fn records_answer_identity_resolution_and_path_in_either_shape() {
    let canonical = ConflictRecord::Canonical(Box::new(conflict("c.a")));
    assert_eq!(canonical.id(), "c.a");
    assert!(canonical.unresolved());
    assert!(canonical.matches_path("a"));
    assert!(!canonical.matches_path("b"));
    let migration = ConflictRecord::Migration(Box::new(ResultConflict {
        id: "m.1".into(),
        category: "content".into(),
        subject_ref: Some("owner.b".into()),
        path: None,
        roles: vec![SourceRole::Ours],
        source_regions: vec![],
        localized: false,
        resolution: "resolved".into(),
        metadata: Metadata::new(),
        extra: Metadata::new(),
    }));
    assert_eq!(migration.id(), "m.1");
    assert!(!migration.unresolved());
    assert!(migration.matches_path("owner.b"));
    assert!(!migration.matches_path("a"));
}
