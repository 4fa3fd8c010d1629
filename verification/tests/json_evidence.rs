use structuredmerge_core::json_operation::{
    validate_json_analysis_evidence, validate_json_diff_evidence, validate_json_render, JsonRenderBaseline,
    JsonRenderEvidence, JsonRetainedRegion,
};
use structuredmerge_core::metadata::MetadataEntry;
use structuredmerge_core::operation::DirectionalMergePolicy;
use structuredmerge_core::operation_result::{ResultRange, ResultSourceRegion};
use structuredmerge_core::ByteRange;
use structuredmerge_core::metadata::Metadata;
use structuredmerge_core::operation::{
    AnalyzePolicy, DiffPolicy, MergeProviderSelection, OperationParserSelection, OperationPolicy, OperationSource,
};
use structuredmerge_core::operation_result::{
    ResultParserSelection, ResultProfile, ResultProvider, ResultVerification, OPERATION_RESULT_SCHEMA,
};
use structuredmerge_core::profiles::{JSON_NESTED, PARSE_RESULT_SCHEMA};
use structuredmerge_core::role_map::RoleMap;
use structuredmerge_core::source::sha256_hex;
use structuredmerge_core::{
    source_input, CoreParseResult, OperationKind, OperationRequest, OperationResult, ParseOutput, ParserCandidate,
    ParserProviderDescriptor, ParserSelection, ResultContractError, SelectionReport, SourceEncoding, SourceRole,
    ValidatedOperationRequest, OPERATION_SCHEMA,
};

const TEXT: &str = "{\"a\": 1}\n";
const INVALID: Result<(), ResultContractError> = Err(ResultContractError::InvalidSourceEvidence);

fn refuse(_: &OperationSource, _: u64) -> Result<Vec<u8>, String> {
    Err("no store".into())
}

fn json_request(kind: OperationKind, dialect: Option<&str>) -> OperationRequest {
    let mut sources = RoleMap::new();
    for role in kind.source_roles() {
        sources.insert(
            role,
            OperationSource {
                source_id: format!("{role:?}"),
                role,
                byte_length: TEXT.len() as u64,
                sha256: sha256_hex(TEXT.as_bytes()),
                encoding: "utf-8".into(),
                content: Some(TEXT.into()),
                bytes: None,
                reference: None,
                bom: None,
                line_endings: None,
                final_newline: None,
                extra: Metadata::new(),
            },
        );
    }
    OperationRequest {
        schema: OPERATION_SCHEMA.into(),
        request_id: "json-req".into(),
        operation: if kind == OperationKind::Analyze {
            OperationPolicy::Analyze(AnalyzePolicy {
                analysis_depth: None,
                comments: None,
                tokens: None,
                ownership: None,
                native_extensions: None,
                extra: Metadata::new(),
            })
        } else {
            OperationPolicy::Diff2(DiffPolicy {
                comparison_profile: None,
                equivalence: None,
                source_preservation_evidence: None,
                extra: Metadata::new(),
            })
        },
        provider_selection: MergeProviderSelection {
            provider_id: Some("kernel.json".into()),
            family: None,
            dialect: dialect.map(str::to_owned),
            profile_id: Some(JSON_NESTED.into()),
            required_capabilities: vec![],
            extra: Metadata::new(),
        },
        parser_selection: OperationParserSelection {
            backend: None,
            preference: vec![],
            required_capabilities: vec![],
            profile_id: None,
            language_version: None,
            extra: Metadata::new(),
        },
        sources,
        path_name: None,
        extensions: vec![],
        metadata: Metadata::new(),
        extra: Metadata::new(),
    }
}

fn validated(r: OperationRequest) -> ValidatedOperationRequest {
    r.validate(1000, refuse).unwrap()
}

fn parse(role: SourceRole, language: &str) -> CoreParseResult {
    CoreParseResult {
        schema: PARSE_RESULT_SCHEMA.into(),
        selection: SelectionReport {
            requested: ParserSelection { backend_id: None, preference: vec![], required_capabilities: vec![] },
            generation: 2,
            digest: "snap".into(),
            candidates: vec![ParserCandidate {
                backend_id: "serde-json".into(),
                selected: true,
                available: Some(true),
                loadable: Some(true),
                rejections: vec![],
                probe_fault: None,
            }],
            selected_backend: Some("serde-json".into()),
        },
        backend: ParserProviderDescriptor {
            id: "serde-json".into(),
            languages: vec![language.into()],
            contracts: vec![PARSE_RESULT_SCHEMA.into()],
            capabilities: vec!["comments".into(), "diagnostics".into(), "native_extensions".into()],
            record: "{}".into(),
        },
        parsed: ParseOutput {
            ok: true,
            request_id: format!("json-req:{role:?}"),
            source: source_input(format!("{role:?}"), role, SourceEncoding::Utf8, TEXT.as_bytes().to_vec())
                .unwrap()
                .descriptor,
            record: "{}".into(),
        },
    }
}

fn result(kind: OperationKind) -> OperationResult {
    OperationResult {
        schema: OPERATION_RESULT_SCHEMA.into(),
        request_id: "json-req".into(),
        operation: kind,
        ok: true,
        provider: ResultProvider {
            provider_id: Some("kernel.json".into()),
            family: Some("json".into()),
            delegation: None,
            extra: Metadata::new(),
        },
        profile: ResultProfile {
            profile_id: Some(JSON_NESTED.into()),
            parser: Some(ResultParserSelection {
                requested_backend: None,
                selected_backend: Some("serde-json".into()),
                selection_mode: Some("policy".into()),
                extra: Metadata::new(),
            }),
            extra: Metadata::new(),
        },
        diagnostics: vec![],
        changes: vec![],
        conflicts: vec![],
        fallbacks: vec![],
        render_report: Metadata::new(),
        verification: ResultVerification {
            consumed_source_roles: Some(kind.source_roles()),
            directional_roles_preserved: None,
            base_participated: None,
            classification_reached: Some(true),
            output_reparsed: None,
            structural_equivalence: None,
            preservation: None,
            retained_source_regions: None,
            extra: Metadata::new(),
        },
        analysis: None,
        diff: None,
        output: None,
        conflicted_output: None,
        extensions: vec![],
        metadata: Metadata::new(),
        extra: Metadata::new(),
    }
}

fn diff_parses(language: &str) -> Option<Vec<CoreParseResult>> {
    Some(vec![parse(SourceRole::Before, language), parse(SourceRole::After, language)])
}

#[test]
fn consistent_json_diff_evidence_is_accepted() {
    let request = validated(json_request(OperationKind::Diff2, None));
    assert_eq!(validate_json_diff_evidence(&result(OperationKind::Diff2), &request, &diff_parses("json")), Ok(()));
    let json5 = validated(json_request(OperationKind::Diff2, Some("jsonc")));
    assert_eq!(validate_json_diff_evidence(&result(OperationKind::Diff2), &json5, &diff_parses("json5")), Ok(()));
    assert_eq!(validate_json_diff_evidence(&result(OperationKind::Diff2), &json5, &diff_parses("json")), INVALID);
}

#[test]
fn json_parses_answer_their_role_in_role_order() {
    let request = validated(json_request(OperationKind::Diff2, None));
    let res = result(OperationKind::Diff2);
    let swapped = Some(vec![parse(SourceRole::After, "json"), parse(SourceRole::Before, "json")]);
    assert_eq!(validate_json_diff_evidence(&res, &request, &swapped), INVALID);
    assert_eq!(validate_json_diff_evidence(&res, &request, &Some(vec![parse(SourceRole::Before, "json")])), INVALID);
    assert_eq!(validate_json_diff_evidence(&res, &request, &None), INVALID);
    let mut stale = diff_parses("json").unwrap();
    stale[1].selection.digest = "other".into();
    assert_eq!(validate_json_diff_evidence(&res, &request, &Some(stale)), INVALID);
    let mut asked = diff_parses("json").unwrap();
    asked[0].selection.requested.preference = vec!["other".into()];
    assert_eq!(validate_json_diff_evidence(&res, &request, &Some(asked)), INVALID);
}

#[test]
fn json_results_must_not_claim_more_than_a_diff() {
    let request = validated(json_request(OperationKind::Diff2, None));
    let parses = diff_parses("json");
    let mut output = result(OperationKind::Diff2);
    output.output = Some("{}".into());
    assert_eq!(validate_json_diff_evidence(&output, &request, &parses), INVALID);
    let mut reparsed = result(OperationKind::Diff2);
    reparsed.verification.output_reparsed = Some(true);
    assert_eq!(validate_json_diff_evidence(&reparsed, &request, &parses), INVALID);
    let mut provider = result(OperationKind::Diff2);
    provider.provider.provider_id = Some("kernel.yaml".into());
    assert_eq!(validate_json_diff_evidence(&provider, &request, &parses), INVALID);
    let mut mode = result(OperationKind::Diff2);
    mode.profile.parser.as_mut().unwrap().selection_mode = Some("explicit".into());
    assert_eq!(validate_json_diff_evidence(&mode, &request, &parses), INVALID);
    let analysis = validated(json_request(OperationKind::Analyze, None));
    assert_eq!(validate_json_diff_evidence(&result(OperationKind::Diff2), &analysis, &parses), INVALID);
}

#[test]
fn json_analysis_needs_a_backend_keeping_comments_extensions_and_diagnostics() {
    let request = validated(json_request(OperationKind::Analyze, None));
    let res = result(OperationKind::Analyze);
    let good = Some(vec![parse(SourceRole::Source, "json")]);
    assert_eq!(validate_json_analysis_evidence(&res, &request, &good), Ok(()));
    let mut plain = parse(SourceRole::Source, "json");
    plain.backend.capabilities = vec!["comments".into(), "diagnostics".into()];
    assert_eq!(validate_json_analysis_evidence(&res, &request, &Some(vec![plain])), INVALID);
    let mut with_changes = res.clone();
    with_changes.changes = vec![];
    with_changes.render_report.insert("strategy".into(), "\"x\"".into());
    assert_eq!(validate_json_analysis_evidence(&with_changes, &request, &good), INVALID);
    let unknown_dialect = OperationRequest {
        provider_selection: MergeProviderSelection {
            dialect: Some("yaml".into()),
            ..request.request().provider_selection.clone()
        },
        ..analyze_request_copy()
    };
    assert_eq!(validate_json_analysis_evidence(&res, &validated(unknown_dialect), &good), INVALID);
}

fn analyze_request_copy() -> OperationRequest {
    json_request(OperationKind::Analyze, None)
}

fn field(key: &str, value: &str) -> MetadataEntry {
    MetadataEntry { key: key.into(), value: value.into() }
}

#[test]
fn json_merge_render_evidence_is_checked_against_the_request_and_output_parse() {
    let mut merge = json_request(OperationKind::Merge2, None);
    merge.operation = OperationPolicy::Merge2(DirectionalMergePolicy {
        directional_merge: "template-into-current".into(),
        render_policy: "source-preserving".into(),
        fallback_policy: None,
        extra: Metadata::new(),
    });
    let request = validated(merge);
    let digest = sha256_hex(&TEXT.as_bytes()[0..4]);
    let output_range = "{\"start_byte\":0,\"end_byte\":4}";
    let mut res = result(OperationKind::Merge2);
    res.output = Some(TEXT.into());
    res.render_report = Metadata { entries: vec![field("strategy", "\"json-source-edits\""), field("evidence", "{}")] };
    res.verification.retained_source_regions = Some(vec![ResultSourceRegion {
        source_id: "Current".into(),
        source_role: SourceRole::Current,
        range: ResultRange { start_byte: 0, end_byte: 4, extra: Metadata::new() },
        sha256: Some(digest.clone()),
        extra: Metadata { entries: vec![field("output_range", output_range)] },
    }]);
    let render = Some(JsonRenderEvidence {
        baseline: JsonRenderBaseline { source_id: "Current".into(), role: SourceRole::Current },
        retained: vec![JsonRetainedRegion {
            source_range: ByteRange { start_byte: 0, end_byte: 4 },
            output_range: output_range.into(),
            sha256: digest,
        }],
    });
    let output = Some(parse(SourceRole::Output, "json"));
    let inputs = Some(vec![parse(SourceRole::Incoming, "json"), parse(SourceRole::Current, "json")]);
    assert_eq!(validate_json_render(&res, &request, &render, true, &output, &inputs), Ok(()));
    assert_eq!(validate_json_render(&res, &request, &render, false, &output, &inputs), INVALID);
    assert_eq!(validate_json_render(&res, &request, &None, true, &output, &inputs), INVALID);
    let mut incoming = render.clone();
    incoming.as_mut().unwrap().baseline = JsonRenderBaseline { source_id: "Incoming".into(), role: SourceRole::Incoming };
    assert_eq!(validate_json_render(&res, &request, &incoming, true, &output, &inputs), INVALID);
    let mut moved = render.clone();
    moved.as_mut().unwrap().retained[0].source_range.end_byte = 5;
    assert_eq!(validate_json_render(&res, &request, &moved, true, &output, &inputs), INVALID);
    let reused = Some(parse(SourceRole::Current, "json"));
    assert_eq!(validate_json_render(&res, &request, &render, true, &reused, &inputs), INVALID);
    let mut strategy = res.clone();
    strategy.render_report = Metadata::new();
    assert_eq!(validate_json_render(&strategy, &request, &render, true, &output, &inputs), INVALID);
    let mut failed = res.clone();
    failed.ok = false;
    assert_eq!(validate_json_render(&failed, &request, &None, false, &None, &None), Ok(()));
}
