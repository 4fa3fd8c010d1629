use structuredmerge_core::json_operation::{admit_json_operation, JsonDialect, JsonRefusal};
use structuredmerge_core::metadata::{Metadata, NativeExtension};
use structuredmerge_core::native_operation::{route_native_operation, NativeAdmission, NativeRefusal, NativeRoute};
use structuredmerge_core::operation::{
    AnalyzePolicy, DiffPolicy, DirectionalMergePolicy, MergeProviderSelection, OperationParserSelection,
    OperationPolicy, ThreeWayMergePolicy,
};
use structuredmerge_core::portable_diagnostic::{DiagnosticLayer, PortableCategory};
use structuredmerge_core::profiles::{
    BASH_OWNERS, GIT_JSON, GO_OWNERS, JSON_NESTED, PYTHON_DECLARATIONS, TYPESCRIPT_OWNERS, YAML_MAPPING,
};
use structuredmerge_core::role_map::RoleMap;
use structuredmerge_core::{OperationKind, OperationRequest, ParseOptions, OPERATION_SCHEMA};

fn policy(kind: OperationKind) -> OperationPolicy {
    match kind {
        OperationKind::Analyze => OperationPolicy::Analyze(AnalyzePolicy {
            analysis_depth: None,
            comments: None,
            tokens: None,
            ownership: None,
            native_extensions: None,
            extra: Metadata::new(),
        }),
        OperationKind::Diff2 => OperationPolicy::Diff2(DiffPolicy {
            comparison_profile: None,
            equivalence: None,
            source_preservation_evidence: None,
            extra: Metadata::new(),
        }),
        OperationKind::Merge2 => OperationPolicy::Merge2(DirectionalMergePolicy {
            directional_merge: "template-into-current".into(),
            render_policy: "source-preserving".into(),
            fallback_policy: None,
            extra: Metadata::new(),
        }),
        OperationKind::Merge3 => OperationPolicy::Merge3(ThreeWayMergePolicy {
            render_policy: "source-preserving".into(),
            fallback_policy: None,
            conflict_marker_size: None,
            labels: None,
            extra: Metadata::new(),
        }),
    }
}

fn request(profile: Option<&str>, kind: OperationKind) -> OperationRequest {
    OperationRequest {
        schema: OPERATION_SCHEMA.into(),
        request_id: "admission".into(),
        operation: policy(kind),
        provider_selection: MergeProviderSelection {
            provider_id: None,
            family: None,
            dialect: None,
            profile_id: profile.map(str::to_owned),
            required_capabilities: vec![],
            extra: Metadata::new(),
        },
        parser_selection: OperationParserSelection {
            backend: None,
            preference: vec![],
            required_capabilities: vec![],
            profile_id: None,
            language_version: None,
            extra: Metadata::new(),
        },
        sources: RoleMap::new(),
        path_name: None,
        extensions: vec![],
        metadata: Metadata::new(),
        extra: Metadata::new(),
    }
}

fn native(family: &'static str, provider: &'static str, language: &'static str, directional: bool) -> NativeRoute {
    NativeRoute::Native(NativeAdmission { family, provider, language, directional_owners: directional })
}

#[test]
fn json_family_profiles_route_to_the_json_family() {
    for id in [JSON_NESTED, GIT_JSON] {
        assert_eq!(route_native_operation(&request(Some(id), OperationKind::Merge3)), Ok(NativeRoute::JsonFamily));
    }
}

#[test]
fn native_profiles_select_family_provider_and_language() {
    assert_eq!(
        route_native_operation(&request(Some(YAML_MAPPING), OperationKind::Merge3)),
        Ok(native("yaml", "kernel.yaml", "yaml", false))
    );
    assert_eq!(
        route_native_operation(&request(Some(PYTHON_DECLARATIONS), OperationKind::Merge2)),
        Ok(native("python", "kernel.python", "python", false))
    );
    assert_eq!(
        route_native_operation(&request(Some(GO_OWNERS), OperationKind::Merge2)),
        Ok(native("go", "kernel.go", "go", true))
    );
    assert_eq!(
        route_native_operation(&request(Some(GO_OWNERS), OperationKind::Analyze)),
        Ok(native("go", "kernel.go", "go", false))
    );
    let mut tsx = request(Some(TYPESCRIPT_OWNERS), OperationKind::Diff2);
    tsx.provider_selection.dialect = Some("tsx".into());
    assert_eq!(route_native_operation(&tsx), Ok(native("typescript", "kernel.typescript", "tsx", false)));
    let mut bash = request(Some(BASH_OWNERS), OperationKind::Merge3);
    bash.provider_selection.dialect = Some("bash".into());
    bash.provider_selection.provider_id = Some("kernel.bash".into());
    bash.provider_selection.family = Some("bash".into());
    bash.provider_selection.required_capabilities = vec!["merge3".into()];
    assert_eq!(route_native_operation(&bash), Ok(native("bash", "kernel.bash", "bash", false)));
}

#[test]
fn unknown_or_absent_profiles_are_refused() {
    assert_eq!(route_native_operation(&request(None, OperationKind::Merge3)), Err(NativeRefusal::UnsupportedProfile));
    assert_eq!(
        route_native_operation(&request(Some("kernel.unknown"), OperationKind::Merge3)),
        Err(NativeRefusal::UnsupportedProfile)
    );
}

#[test]
fn selection_constraints_a_profile_cannot_honor_are_refused() {
    let mut other_provider = request(Some(YAML_MAPPING), OperationKind::Merge3);
    other_provider.provider_selection.provider_id = Some("kernel.python".into());
    let mut zsh = request(Some(BASH_OWNERS), OperationKind::Merge3);
    zsh.provider_selection.dialect = Some("zsh".into());
    let mut version = request(Some(YAML_MAPPING), OperationKind::Merge3);
    version.parser_selection.language_version = Some("9.9".into());
    for r in [other_provider, zsh, version] {
        assert_eq!(route_native_operation(&r), Err(NativeRefusal::UnsupportedConstraints));
    }
}

#[test]
fn operations_policies_and_requirements_a_profile_lacks_are_refused() {
    let yaml_merge2 = request(Some(YAML_MAPPING), OperationKind::Merge2);
    let mut fallback = request(Some(YAML_MAPPING), OperationKind::Merge3);
    if let OperationPolicy::Merge3(p) = &mut fallback.operation {
        p.fallback_policy = Some("text".into());
    }
    let mut labels = request(Some(GO_OWNERS), OperationKind::Merge3);
    if let OperationPolicy::Merge3(p) = &mut labels.operation {
        p.labels = Some(vec![("ours".into(), "mine".into())]);
    }
    let mut capability = request(Some(YAML_MAPPING), OperationKind::Merge3);
    capability.provider_selection.required_capabilities = vec!["merge2".into()];
    let mut extension = request(Some(YAML_MAPPING), OperationKind::Merge3);
    extension.extensions.push(NativeExtension {
        schema: "example/v1".into(),
        namespace: "example".into(),
        capabilities: vec!["unknown_required_behavior".into()],
        payload: "{}".into(),
        extra: Metadata::new(),
    });
    let mut comments = request(Some(YAML_MAPPING), OperationKind::Analyze);
    if let OperationPolicy::Analyze(p) = &mut comments.operation {
        p.comments = Some(true);
    }
    for r in [yaml_merge2, fallback, labels, capability, extension, comments] {
        assert_eq!(route_native_operation(&r), Err(NativeRefusal::UnsupportedRequirements));
    }
    // Labels are refused only for the owner families.
    let mut python_labels = request(Some(PYTHON_DECLARATIONS), OperationKind::Merge3);
    if let OperationPolicy::Merge3(p) = &mut python_labels.operation {
        p.labels = Some(vec![("ours".into(), "mine".into())]);
    }
    assert!(route_native_operation(&python_labels).is_ok());
}

#[test]
fn native_refusals_have_registry_diagnostics() {
    let cases = [
        (
            NativeRefusal::UnsupportedProfile,
            PortableCategory::UnsupportedFeature,
            "selection.unsupported_profile",
            "an explicit implemented native profile is required",
        ),
        (
            NativeRefusal::UnsupportedConstraints,
            PortableCategory::SelectionError,
            "selection.unsupported_constraints",
            "native execution cannot honor the requested selection constraints",
        ),
        (
            NativeRefusal::UnsupportedRequirements,
            PortableCategory::UnsupportedFeature,
            "operation.unsupported_requirements",
            "operation or policy requirements are not implemented by the selected native profile",
        ),
    ];
    for (refusal, category, code, message) in cases {
        assert_eq!(refusal.category(), category);
        assert_eq!(refusal.code(), code);
        assert_eq!(refusal.message(), message);
        assert_eq!(refusal.layer(), DiagnosticLayer::Registry);
    }
}

#[test]
fn json_admission_selects_dialect_language_and_parse_options() {
    let analyze = admit_json_operation(&request(Some(JSON_NESTED), OperationKind::Analyze)).unwrap();
    assert_eq!((analyze.provider, analyze.family, analyze.profile), ("kernel.json", "json", JSON_NESTED));
    assert_eq!(analyze.dialect, JsonDialect::Json);
    assert_eq!(analyze.language, "json");
    assert_eq!(
        analyze.options,
        ParseOptions { comments: true, tokens: false, diagnostics: true, native_extensions: true }
    );
    let mut jsonc = request(Some(GIT_JSON), OperationKind::Merge3);
    jsonc.provider_selection.dialect = Some("jsonc".into());
    let merge = admit_json_operation(&jsonc).unwrap();
    assert_eq!(merge.dialect, JsonDialect::Jsonc);
    assert_eq!(merge.language, "json5");
    assert_eq!(merge.profile, JSON_NESTED);
    assert_eq!(merge.options, ParseOptions::default());
}

#[test]
fn json_admission_refuses_dialects_policies_and_constraints() {
    let mut yaml = request(Some(JSON_NESTED), OperationKind::Merge3);
    yaml.provider_selection.dialect = Some("yaml".into());
    let refusal = admit_json_operation(&yaml).unwrap_err();
    assert_eq!(refusal, JsonRefusal::UnsupportedDialect);
    assert_eq!(refusal.category(), PortableCategory::SelectionError);
    assert_eq!(refusal.code(), "json.unsupported_dialect");
    assert_eq!(refusal.message(), "unsupported JSON dialect");

    let mut marker = request(Some(JSON_NESTED), OperationKind::Merge3);
    if let OperationPolicy::Merge3(p) = &mut marker.operation {
        p.conflict_marker_size = Some(7);
    }
    let mut provider = request(Some(JSON_NESTED), OperationKind::Merge2);
    provider.provider_selection.provider_id = Some("kernel.yaml".into());
    let mut tokens = request(Some(JSON_NESTED), OperationKind::Analyze);
    if let OperationPolicy::Analyze(p) = &mut tokens.operation {
        p.tokens = Some(true);
    }
    let mut capability = request(Some(JSON_NESTED), OperationKind::Diff2);
    capability.provider_selection.required_capabilities = vec!["diff2".into(), "merge3".into()];
    for r in [marker, provider, tokens, capability] {
        let refusal = admit_json_operation(&r).unwrap_err();
        assert_eq!(refusal, JsonRefusal::UnsupportedRequirements);
        assert_eq!(refusal.category(), PortableCategory::UnsupportedFeature);
        assert_eq!(refusal.code(), "json.unsupported_requirements");
        assert_eq!(refusal.message(), "JSON profile cannot honor the requested operation or constraints");
        assert_eq!(refusal.layer(), DiagnosticLayer::Registry);
    }
}
