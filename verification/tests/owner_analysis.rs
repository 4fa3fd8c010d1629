use structuredmerge_core::native_analysis_projection::{
    project_owner_analysis, AnalysisProjectionError, AnalyzedAttachment, AnalyzedGap, AnalyzedOwner, ControllerSide,
    GapKind,
};
use structuredmerge_core::source::sha256_hex;
use structuredmerge_core::{source_input, ByteRange, SourceDocument, SourceEncoding, SourceRole};

const TEXT: &str = "# head\na: 1\n\nb: 2\n";

fn document() -> SourceDocument {
    let input = source_input("doc".into(), SourceRole::Source, SourceEncoding::Utf8, TEXT.as_bytes().to_vec()).unwrap();
    SourceDocument::validate(input, 1000).unwrap()
}

fn owner(id: &str, start: usize, end: usize) -> AnalyzedOwner {
    AnalyzedOwner {
        id: id.into(),
        range: ByteRange { start_byte: start, end_byte: end },
        node_ids: vec![format!("{id}.node"), format!("{id}.value")],
    }
}

fn gap(id: &str, start: usize, end: usize, before: Option<&str>, after: Option<&str>, controller: Option<&str>) -> AnalyzedGap {
    AnalyzedGap {
        id: id.into(),
        range: ByteRange { start_byte: start, end_byte: end },
        source_sha256: sha256_hex(&TEXT.as_bytes()[start..end]),
        before_owner_id: before.map(Into::into),
        after_owner_id: after.map(Into::into),
        controller_owner_id: controller.map(Into::into),
    }
}

fn owners() -> Vec<AnalyzedOwner> {
    vec![owner("a", 7, 11), owner("b", 13, 17)]
}

fn gaps() -> Vec<AnalyzedGap> {
    vec![
        gap("g0", 0, 7, None, Some("a"), Some("a")),
        gap("g1", 11, 13, Some("a"), Some("b"), Some("b")),
        gap("g2", 17, 17, Some("b"), None, None),
        gap("g3", 17, 18, Some("b"), None, Some("b")),
    ]
}

#[test]
fn owners_and_nonempty_gaps_are_projected_with_their_controllers() {
    let attachments = vec![AnalyzedAttachment {
        owner_id: "a".into(),
        leading_gap_id: Some("g0".into()),
        trailing_gap_id: Some("g1".into()),
    }];
    let projection = project_owner_analysis(&document(), &owners(), &gaps(), &attachments, false, "yaml").unwrap();
    assert_eq!(projection.owners.len(), 2);
    let b = &projection.owners[1];
    assert_eq!(b.node_id, "b.node");
    assert_eq!(b.logical_identity, vec!["yaml".to_string(), "b".to_string()]);
    assert_eq!(b.match_keys, vec!["b".to_string()]);
    assert_eq!((b.span.start_point.row, b.span.start_point.column), (3, 0));
    assert_eq!((b.span.end_point.row, b.span.end_point.column), (3, 4));
    assert_eq!(b.source_sha256, sha256_hex(b"b: 2"));
    assert_eq!(b.metadata.entries[0].value, "\"family-native-boundaries\"");
    let kinds: Vec<(GapKind, ControllerSide)> =
        projection.layout_gaps.iter().map(|g| (g.kind, g.controller_side)).collect();
    assert_eq!(
        kinds,
        vec![
            (GapKind::Preamble, ControllerSide::After),
            (GapKind::Interstitial, ControllerSide::After),
            (GapKind::Postlude, ControllerSide::Before),
        ]
    );
    assert_eq!(projection.layout_gaps[2].id, "g3");
    let owned: Vec<(&str, &str)> = projection
        .ownership
        .iter()
        .map(|o| (o.subject_ref.as_str(), o.selected_owner_ref.as_str()))
        .collect();
    assert_eq!(owned, vec![("g0", "a"), ("g1", "b"), ("g3", "b")]);
    assert!(projection.ownership.iter().all(|o| o.relation == "controls-output" && o.confidence == "deterministic"));
    assert_eq!(projection.attachments[0].trailing_gap_id.as_deref(), Some("g1"));
}

#[test]
fn refused_analyses_name_why() {
    let none: Vec<AnalyzedAttachment> = vec![];
    let error = project_owner_analysis(&document(), &owners(), &gaps(), &none, true, "yaml").unwrap_err();
    assert_eq!(error, AnalysisProjectionError::CommentsUnsupported);
    assert_eq!(error.message(), Some("native comment attachment requires another analysis policy"));
    assert!(project_owner_analysis(&document(), &owners(), &gaps(), &none, true, "bash").is_ok());
    let mut outside = owners();
    outside[1].range.end_byte = 40;
    assert_eq!(
        project_owner_analysis(&document(), &outside, &gaps(), &none, false, "yaml").unwrap_err(),
        AnalysisProjectionError::InvalidRange
    );
    let mut ownerless = gaps();
    ownerless[1].controller_owner_id = None;
    let error = project_owner_analysis(&document(), &owners(), &ownerless, &none, false, "yaml").unwrap_err();
    assert_eq!(error, AnalysisProjectionError::OwnerlessLayout);
    let mut unowned = gaps();
    unowned[0].after_owner_id = None;
    let error = project_owner_analysis(&document(), &owners(), &unowned, &none, false, "yaml").unwrap_err();
    assert_eq!(error, AnalysisProjectionError::UnownedGap);
    assert_eq!(error.message(), Some("unowned layout gap"));
}
