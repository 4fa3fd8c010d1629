use structuredmerge_core::metadata::{Metadata, NativeExtension};
use structuredmerge_core::operation::{
    MergeProviderSelection, OperationParserSelection, OperationPolicy, OperationSource, ThreeWayMergePolicy,
};
use structuredmerge_core::operation_result::{
    ResultParserSelection, ResultProfile, ResultProvider, ResultVerification, OPERATION_RESULT_SCHEMA,
};
use structuredmerge_core::role_map::RoleMap;
use structuredmerge_core::source::sha256_hex;
use structuredmerge_core::ServiceError;
use structuredmerge_core::operation_profile_catalog;
use structuredmerge_core::profiles::{JSON_NESTED, YAML_MAPPING};
use structuredmerge_core::operations::normalize_operation_request;
use structuredmerge_core::workflow::{
    settle_host_callback, HostCallbackEnd,
    check_compiled_query, check_host_results, check_kernel_result, check_registry_expectation, check_workflow_batch_size,
    normalize_workflow_items, WorkflowOperation, WorkflowRegistryExpectation,
};
use structuredmerge_core::{
    OperationKind, OperationRequest, OperationResult, ParseOptions, ParserSelection, ParserSelectionRequest, SourceRole,
    OPERATION_SCHEMA,
};

const TEXT: &str = "a: 1\n";

fn request(id: &str) -> OperationRequest {
    let mut sources = RoleMap::new();
    for role in OperationKind::Merge3.source_roles() {
        sources.insert(
            role,
            OperationSource {
                source_id: format!("{id}.{role:?}"),
                role,
                byte_length: TEXT.len() as u64,
                sha256: sha256_hex(TEXT.as_bytes()),
                encoding: "utf-8".into(),
                content: Some(TEXT.into()),
                bytes: None,
                reference: None,
                bom: None,
                line_endings: None,
                final_newline: None,
                extra: Metadata::new(),
            },
        );
    }
    OperationRequest {
        schema: OPERATION_SCHEMA.into(),
        request_id: id.into(),
        operation: OperationPolicy::Merge3(ThreeWayMergePolicy {
            render_policy: "source-preserving".into(),
            fallback_policy: None,
            conflict_marker_size: None,
            labels: None,
            extra: Metadata::new(),
        }),
        provider_selection: MergeProviderSelection {
            provider_id: None,
            family: Some("yaml".into()),
            dialect: None,
            profile_id: None,
            required_capabilities: vec![],
            extra: Metadata::new(),
        },
        parser_selection: OperationParserSelection {
            backend: None,
            preference: vec![],
            required_capabilities: vec![],
            profile_id: None,
            language_version: None,
            extra: Metadata::new(),
        },
        sources,
        path_name: None,
        extensions: vec![],
        metadata: Metadata::new(),
        extra: Metadata::new(),
    }
}

fn item(id: &str) -> WorkflowOperation {
    WorkflowOperation {
        operation: request(id),
        parser_language: "yaml".into(),
        parser_dialect: None,
        parse_options: ParseOptions::default(),
    }
}

fn failure(items: Vec<WorkflowOperation>, max_bytes: u64, max_sources: usize) -> (String, String) {
    let error = normalize_workflow_items("host.workflow", items, max_bytes, max_sources).err().unwrap();
    (error.code, error.message)
}

#[test]
fn batch_size_is_checked_before_any_item() {
    let error = check_workflow_batch_size(&vec![], 4).unwrap_err();
    assert_eq!((error.code.as_str(), error.message.as_str()), ("workflow.invalid_request", "workflow batch is empty"));
    let error = check_workflow_batch_size(&vec![item("a"), item("b")], 1).unwrap_err();
    assert_eq!(
        (error.code.as_str(), error.message.as_str()),
        ("resource.limit", "workflow batch exceeds operation limit")
    );
    assert!(check_workflow_batch_size(&vec![item("a")], 1).is_ok());
}

#[test]
fn a_valid_batch_normalizes_every_item_in_order() {
    let validated = normalize_workflow_items("host.workflow", vec![item("a"), item("b")], 30, 3).unwrap();
    assert_eq!(validated.len(), 2);
    assert_eq!(validated[0].request().request_id, "a");
    assert_eq!(validated[1].request().request_id, "b");
    assert_eq!(validated[1].sources().len(), 3);
}

#[test]
fn identity_and_parser_query_failures_come_first() {
    let query = ("workflow.invalid_request".to_string(), "workflow identity or parser query is invalid".to_string());
    assert_eq!(failure(vec![item("a"), item("a")], 1000, 3), query);
    let mut other = item("a");
    other.operation.provider_selection.provider_id = Some("other.workflow".into());
    assert_eq!(failure(vec![other], 1000, 3), query);
    let mut language = item("a");
    language.parser_language.clear();
    assert_eq!(failure(vec![language], 1000, 3), query);
    let mut dialect = item("a");
    dialect.parser_dialect = Some(String::new());
    assert_eq!(failure(vec![dialect], 1000, 3), query);
    let mut named = item("a");
    named.operation.provider_selection.provider_id = Some("host.workflow".into());
    assert!(normalize_workflow_items("host.workflow", vec![named], 1000, 3).is_ok());
}

#[test]
fn unimplemented_parser_constraints_are_refused() {
    let constraint = (
        "workflow.unsupported_parser_constraint".to_string(),
        "requested selector or required extension constraint is not implemented".to_string(),
    );
    let mut version = item("a");
    version.operation.parser_selection.language_version = Some("1.2".into());
    assert_eq!(failure(vec![version], 1000, 3), constraint);
    let mut extension = item("a");
    extension.operation.extensions.push(NativeExtension {
        schema: "example/v1".into(),
        namespace: "example".into(),
        capabilities: vec!["required".into()],
        payload: "{}".into(),
        extra: Metadata::new(),
    });
    assert_eq!(failure(vec![extension], 1000, 3), constraint);
}

#[test]
fn request_validation_budget_and_source_count_failures() {
    let validation = "workflow source/request validation failed".to_string();
    // The second request exceeds the budget the first leaves.
    assert_eq!(failure(vec![item("a"), item("b")], 20, 3), ("resource.limit".to_string(), validation.clone()));
    let mut schema = item("a");
    schema.operation.schema = "unknown/v0".into();
    assert_eq!(failure(vec![schema], 1000, 3), ("workflow.invalid_request".to_string(), validation.clone()));
    let mut reference = item("a");
    let mut source = reference.operation.sources.get(SourceRole::Base).unwrap().clone();
    source.content = None;
    source.reference = Some("store:base".into());
    reference.operation.sources.insert(SourceRole::Base, source);
    assert_eq!(failure(vec![reference], 1000, 3), ("workflow.invalid_request".to_string(), validation));
    assert_eq!(
        failure(vec![item("a")], 1000, 2),
        ("resource.limit".to_string(), "workflow source batch exceeds parse limit".to_string())
    );
}

fn result(id: &str) -> OperationResult {
    OperationResult {
        schema: OPERATION_RESULT_SCHEMA.into(),
        request_id: id.into(),
        operation: OperationKind::Merge3,
        ok: true,
        provider: ResultProvider {
            provider_id: Some("host.workflow".into()),
            family: Some("yaml".into()),
            delegation: None,
            extra: Metadata::new(),
        },
        profile: ResultProfile {
            profile_id: None,
            parser: Some(ResultParserSelection {
                requested_backend: None,
                selected_backend: Some("parser.a".into()),
                selection_mode: Some("policy".into()),
                extra: Metadata::new(),
            }),
            extra: Metadata::new(),
        },
        diagnostics: vec![],
        changes: vec![],
        conflicts: vec![],
        fallbacks: vec![],
        render_report: Metadata::new(),
        verification: ResultVerification {
            consumed_source_roles: Some(OperationKind::Merge3.source_roles()),
            directional_roles_preserved: Some(true),
            base_participated: Some(true),
            classification_reached: Some(true),
            output_reparsed: Some(true),
            structural_equivalence: Some(true),
            preservation: Some(vec![]),
            retained_source_regions: None,
            extra: Metadata::new(),
        },
        analysis: None,
        diff: None,
        output: Some(TEXT.into()),
        conflicted_output: None,
        extensions: vec![],
        metadata: Metadata::new(),
        extra: Metadata::new(),
    }
}

#[test]
fn host_results_must_keep_provider_parser_and_contract() {
    let inputs = normalize_workflow_items("host.workflow", vec![item("a")], 1000, 3).unwrap();
    let profiles = vec!["host.profile".to_string()];
    let backends = vec![Some("parser.a".to_string())];
    let check = |r: OperationResult| check_host_results(&vec![r], &inputs, "host.workflow", "yaml", &profiles, &backends);
    assert_eq!(check(result("a")), Ok(()));
    let identity = "workflow returned inconsistent provider or parser identity";
    let mut family = result("a");
    family.provider.family = Some("json".into());
    assert_eq!(check(family).unwrap_err().message, identity);
    let mut delegated = result("a");
    delegated.provider.delegation = Some(vec!["other".into()]);
    assert_eq!(check(delegated).unwrap_err().message, identity);
    let mut profile = result("a");
    profile.profile.profile_id = Some("foreign.profile".into());
    assert_eq!(check(profile).unwrap_err().message, identity);
    let mut mode = result("a");
    mode.profile.parser.as_mut().unwrap().selection_mode = Some("explicit".into());
    assert_eq!(check(mode).unwrap_err().message, identity);
    let mut parser = result("a");
    parser.profile.parser = None;
    assert_eq!(check(parser).unwrap_err().message, identity);
    let mut contract = result("a");
    contract.request_id = "b".into();
    let error = check(contract).unwrap_err();
    assert_eq!(error.code, "workflow.invalid_result");
    assert_eq!(error.message, "workflow result failed common contract validation");
    let error = check_host_results(&vec![], &inputs, "host.workflow", "yaml", &profiles, &backends).unwrap_err();
    assert_eq!(error.message, "workflow result cardinality mismatch");
}

#[test]
fn compiled_results_keep_the_negotiated_executor() {
    let inputs = normalize_workflow_items("host.workflow", vec![item("a")], 1000, 3).unwrap();
    let selected = Some("parser.a".to_string());
    assert_eq!(check_kernel_result(&result("a"), &inputs[0], "host.workflow", &selected), Ok(()));
    let error = check_kernel_result(&result("a"), &inputs[0], "kernel.yaml", &selected).unwrap_err();
    assert_eq!(error.message, "compiled workflow changed negotiated executor identity");
    let error = check_kernel_result(&result("a"), &inputs[0], "host.workflow", &Some("parser.b".into())).unwrap_err();
    assert_eq!(error.message, "compiled workflow changed negotiated executor identity");
}

#[test]
fn stale_registry_state_is_refused() {
    let expected = WorkflowRegistryExpectation {
        provider_generation: 3,
        provider_digest: "providers".into(),
        parser_generation: 5,
        parser_digest: "parsers".into(),
    };
    assert!(check_registry_expectation(&expected, 3, "providers", 5, "parsers").is_ok());
    let error = check_registry_expectation(&expected, 4, "providers", 5, "parsers").unwrap_err();
    assert_eq!(error.code, "workflow.registry_stale");
    assert_eq!(error.message, "registry state differs from caller expectation");
    assert!(check_registry_expectation(&expected, 3, "providers", 5, "other").is_err());
}

fn parser_request(language: &str, options: ParseOptions) -> ParserSelectionRequest {
    ParserSelectionRequest {
        language: language.into(),
        dialect: None,
        selection: ParserSelection {
            backend_id: None,
            preference: vec![],
            required_capabilities: vec![],
        },
        options,
    }
}

#[test]
fn compiled_workflow_queries_follow_their_profile() {
    let catalog = operation_profile_catalog();
    let native = ParseOptions { native_extensions: true, ..ParseOptions::default() };
    assert_eq!(
        check_compiled_query(
            &catalog,
            "kernel.yaml",
            &Some(YAML_MAPPING.into()),
            OperationKind::Merge3,
            &None,
            &parser_request("yaml", native.clone())
        ),
        Ok(())
    );
    let error = check_compiled_query(&catalog, "kernel.yaml", &None, OperationKind::Merge3, &None, &parser_request("yaml", native.clone()))
        .unwrap_err();
    assert_eq!(error.code, "workflow.invalid_request");
    assert_eq!(error.message, "compiled workflow requires its explicit profile");
    let error = check_compiled_query(
        &catalog,
        "kernel.yaml",
        &Some(JSON_NESTED.into()),
        OperationKind::Merge3,
        &None,
        &parser_request("yaml", native.clone()),
    )
    .unwrap_err();
    assert_eq!(error.message, "compiled workflow requires its explicit profile");
    let differs = "compiled workflow parser query differs from its profile";
    let error = check_compiled_query(
        &catalog,
        "kernel.yaml",
        &Some(YAML_MAPPING.into()),
        OperationKind::Merge3,
        &None,
        &parser_request("yaml", ParseOptions::default()),
    )
    .unwrap_err();
    assert_eq!(error.message, differs);
    let error = check_compiled_query(
        &catalog,
        "kernel.json",
        &Some(JSON_NESTED.into()),
        OperationKind::Analyze,
        &Some("jsonc".into()),
        &parser_request("json", ParseOptions { comments: true, tokens: false, diagnostics: true, native_extensions: true }),
    )
    .unwrap_err();
    assert_eq!(error.message, differs);
    assert_eq!(
        check_compiled_query(
            &catalog,
            "kernel.json",
            &Some(JSON_NESTED.into()),
            OperationKind::Analyze,
            &Some("jsonc".into()),
            &parser_request(
                "json5",
                ParseOptions { comments: true, tokens: false, diagnostics: true, native_extensions: true }
            ),
        ),
        Ok(())
    );
}

#[test]
fn late_controls_override_whatever_the_host_callback_did() {
    for end in [HostCallbackEnd::Returned(7u8), HostCallbackEnd::Failed, HostCallbackEnd::Panicked] {
        let error = settle_host_callback(Some(ServiceError::Cancelled), end).unwrap_err();
        assert_eq!(error.code, "execution.cancelled");
    }
    let expired = settle_host_callback(Some(ServiceError::DeadlineExceeded), HostCallbackEnd::Returned(1u8)).unwrap_err();
    assert_eq!(expired.code, "execution.deadline_exceeded");
    assert_eq!(settle_host_callback::<u8>(None, HostCallbackEnd::Failed).unwrap_err().code, "workflow.provider_fault");
    assert_eq!(settle_host_callback::<u8>(None, HostCallbackEnd::Panicked).unwrap_err().code, "workflow.provider_panic");
    assert_eq!(settle_host_callback(None, HostCallbackEnd::Returned(3u8)), Ok(3));
}

#[test]
fn facade_normalization_refuses_references_and_maps_codes() {
    let validated = normalize_operation_request(request("a"), 1000).unwrap();
    assert_eq!(validated.sources().len(), 3);
    let error = normalize_operation_request(request("a"), 1).unwrap_err();
    assert_eq!(error.code, "resource.limit");
    assert_eq!(error.message, "ResourceLimit for \"a\": source byte budget exceeded");
    let mut invalid = request("a");
    let mut source = invalid.sources.get(SourceRole::Base).unwrap().clone();
    source.sha256 = "0".repeat(64);
    invalid.sources.insert(SourceRole::Base, source);
    let error = normalize_operation_request(invalid, 1000).unwrap_err();
    assert_eq!(error.code, "operation.invalid_request");
    assert_eq!(error.message, "InvalidSource for \"a\": source evidence does not match exact bytes");
    let mut referenced = request("a");
    let mut source = referenced.sources.get(SourceRole::Base).unwrap().clone();
    source.content = None;
    source.reference = Some("file:///must-not-be-opened".into());
    referenced.sources.insert(SourceRole::Base, source);
    let error = normalize_operation_request(referenced, 1000).unwrap_err();
    assert_eq!(error.code, "source.unresolved_reference");
    assert_eq!(
        error.message,
        "SourceResolution for \"a\": common facade requires inline source content or bytes"
    );
}
