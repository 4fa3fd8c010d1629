use structuredmerge_core::metadata::Metadata;
use structuredmerge_core::operation::{AnalyzePolicy, DiffPolicy};
use structuredmerge_core::profiles::{
    native_language, operation_parse_options, profile_operations, profile_parser_language, GIT_JSON,
    JSON_NESTED, PYTHON_DECLARATIONS, YAML_MAPPING,
};
use structuredmerge_core::workflow::require_host_id;
use structuredmerge_core::{json_analysis, json_diff, native_analysis_projection};
use structuredmerge_core::{create_operation_control, CoreError, OperationControl, OperationKind, ParseOptions};

#[test]
fn parse_options_follow_the_profile_family() {
    let analysis = operation_parse_options(JSON_NESTED, OperationKind::Analyze);
    assert_eq!(
        analysis,
        ParseOptions { comments: true, tokens: false, diagnostics: true, native_extensions: true }
    );
    assert_eq!(operation_parse_options(GIT_JSON, OperationKind::Merge3), ParseOptions::default());
    assert_eq!(
        operation_parse_options(YAML_MAPPING, OperationKind::Analyze),
        ParseOptions { comments: false, tokens: false, diagnostics: false, native_extensions: true }
    );
    assert_eq!(
        operation_parse_options("unknown", OperationKind::Diff2),
        ParseOptions { comments: false, tokens: false, diagnostics: false, native_extensions: true }
    );
}

#[test]
fn profile_operations_are_declared_per_profile() {
    assert_eq!(
        profile_operations(YAML_MAPPING),
        vec![OperationKind::Analyze, OperationKind::Diff2, OperationKind::Merge3]
    );
    assert_eq!(profile_operations(GIT_JSON), vec![OperationKind::Merge3]);
    assert_eq!(profile_operations(PYTHON_DECLARATIONS).len(), 4);
    assert!(profile_operations("kernel.unknown.v1").is_empty());
}

#[test]
fn dialects_select_parser_languages() {
    assert_eq!(native_language("typescript", None), Some("typescript"));
    assert_eq!(native_language("typescript", Some("tsx")), Some("tsx"));
    assert_eq!(native_language("typescript", Some("typescript")), Some("typescript"));
    assert_eq!(native_language("typescript", Some("jsx")), None);
    assert_eq!(native_language("yaml", None), Some("yaml"));
    assert_eq!(native_language("yaml", Some("yaml")), None);
    assert_eq!(native_language("rust", Some("rust")), Some("rust"));
    assert_eq!(native_language("go", Some("golang")), None);
    assert_eq!(profile_parser_language("json", None), Some("json"));
    assert_eq!(profile_parser_language("json", Some("json")), Some("json"));
    assert_eq!(profile_parser_language("json", Some("jsonc")), Some("json5"));
    assert_eq!(profile_parser_language("json", Some("json5")), Some("json5"));
    assert_eq!(profile_parser_language("json", Some("yaml")), None);
    assert_eq!(profile_parser_language("bash", Some("bash")), Some("bash"));
}

fn analyze() -> AnalyzePolicy {
    AnalyzePolicy {
        analysis_depth: None,
        comments: None,
        tokens: None,
        ownership: None,
        native_extensions: None,
        extra: Metadata::new(),
    }
}

#[test]
fn analysis_policy_support_differs_in_comments() {
    let mut p = analyze();
    assert!(json_analysis::supports(&p) && native_analysis_projection::supports(&p));
    p.comments = Some(true);
    assert!(json_analysis::supports(&p) && !native_analysis_projection::supports(&p));
    p.comments = Some(false);
    assert!(!json_analysis::supports(&p) && native_analysis_projection::supports(&p));
    let mut p = analyze();
    p.analysis_depth = Some("exact-source-owners".into());
    assert!(json_analysis::supports(&p));
    p.analysis_depth = Some("semantic".into());
    assert!(!json_analysis::supports(&p) && !native_analysis_projection::supports(&p));
    let mut p = analyze();
    p.tokens = Some(true);
    assert!(!json_analysis::supports(&p) && !native_analysis_projection::supports(&p));
    let mut p = analyze();
    p.extra.insert("future".into(), "1".into());
    assert!(!json_analysis::supports(&p) && !native_analysis_projection::supports(&p));
}

#[test]
fn diff_policy_support_requires_exact_source_equivalence() {
    let mut p = DiffPolicy { comparison_profile: None, equivalence: None, source_preservation_evidence: None, extra: Metadata::new() };
    assert!(json_diff::supports(&p));
    p.equivalence = Some(vec![]);
    assert!(json_diff::supports(&p));
    p.equivalence = Some(vec!["exact-source".into()]);
    assert!(json_diff::supports(&p));
    p.equivalence = Some(vec!["exact-source".into(), "whitespace".into()]);
    assert!(!json_diff::supports(&p));
    p.equivalence = None;
    p.comparison_profile = Some("semantic".into());
    assert!(!json_diff::supports(&p));
}

#[test]
fn compiled_provider_identities_are_reserved() {
    assert_eq!(require_host_id("kernel.yaml").unwrap_err().code, "workflow.reserved_provider");
    assert!(require_host_id("kernel.typescript").is_err());
    assert!(require_host_id("kernel.yaml.v1").is_ok());
    assert!(require_host_id("test.host").is_ok());
}

#[test]
fn cancellation_is_shared_by_clones() {
    let control = create_operation_control();
    let clone = control.clone();
    assert!(!control.is_cancelled());
    clone.cancel();
    assert!(control.is_cancelled());
    assert!(!OperationControl::new().is_cancelled());
}

#[test]
fn host_errors_carry_the_bridge_code() {
    let error = CoreError::new("callback failed".into());
    assert_eq!((error.code.as_str(), error.message.as_str()), ("host_bridge", "callback failed"));
}
