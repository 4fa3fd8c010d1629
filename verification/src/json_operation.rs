//! Admission of a common operation request to the JSON family: the dialect,
//! the parser language and parse options of its sources, or the refusal the
//! request is answered with before any parser is called.
use crate::json_analysis;
use crate::json_diff;
use crate::native_operation::{absent_or, is_absent_or, requirements_met, requirements_ok};
use crate::host::CoreParseResult;
use crate::native_analysis_projection::{all_listed, same_strings, selection_mode_spec};
use crate::metadata::{Metadata, MetadataEntry};
use crate::native_conflict_projection::{
    no_entries, region_projected, role_doc, role_document, role_id, role_source_id, string_listed, three_revisions,
    three_roles, ConflictAlternativeState, MergeAlternative, RenderedConflict, SourceRevision,
};
use crate::native_operation::{native_diagnostic, plain_diagnostic};
use crate::portable_conflict::{
    AlternativeState, ConflictCategory, ConflictClassification, ConflictLocalization, ConflictResolution,
    ConflictSourceAlternative, ConflictSubject, ExactConflictRegion, LocalizationStatus, PortableConflict,
    ResolutionStatus, ResolutionStrategy, CONFLICT_SCHEMA,
};
use crate::native_output_validation::{
    check_parse_evidence, other_identity, output_id_fresh, parse_evidence_ok, same_backend, same_backend_check,
    same_snapshot, same_snapshot_check,
};
use crate::metadata::first_key_index;
use crate::source::{document_error, first_document_error, ByteRange};
use crate::text::{str_bytes, utf8_of};
use crate::operation::{
    document_matches, policy_kind, req_roles, roles_exact, source_at, validated_sources, OperationPolicy, OperationRequest,
    ValidatedOperationRequest,
};
use crate::operation_result::{
    opt_is, opt_str_eq, opt_view, string_views, OperationResult, ResultContractError, ResultRange, ResultSourceRegion,
};
use crate::source::{valid_range, SourceError, SourceErrorCode, SourceMap, SourceRole};
use crate::portable_diagnostic::{DiagnosticLayer, PortableCategory, PortableDiagnostic};
use crate::profiles::{parse_options_for, ParseOptions, JSON_NESTED, PARSE_RESULT_SCHEMA};
use crate::text::{copy_string, owned, str_eq, str_is_empty};
use crate::{kind_roles, OperationKind};
use vstd::string::StringExecFns;
use vstd::prelude::*;

verus! {

/// The JSON dialects the JSON family reads.
#[derive(Clone, Copy, Debug, PartialEq, Eq, Structural)]
pub enum JsonDialect {
    Json,
    Jsonc,
    Json5,
}

/// The dialect a selection names; plain JSON when none is named.
pub open spec fn json_dialect_spec(d: Option<Seq<char>>) -> Option<JsonDialect> {
    match d {
        None => Some(JsonDialect::Json),
        Some(s) => if s == "json"@ {
            Some(JsonDialect::Json)
        } else if s == "jsonc"@ {
            Some(JsonDialect::Jsonc)
        } else if s == "json5"@ {
            Some(JsonDialect::Json5)
        } else {
            None
        },
    }
}

/// The operation policies the JSON family implements: its analysis and diff
/// policies, and source-preserving merges without fallback, labels or marker
/// size.
pub open spec fn json_policy_ok(p: OperationPolicy) -> bool {
    match p {
        OperationPolicy::Analyze(a) => json_analysis::supports_spec(a),
        OperationPolicy::Diff2(d) => json_diff::supports_spec(d),
        OperationPolicy::Merge2(m) => {
            &&& m.directional_merge@ == "template-into-current"@
            &&& m.render_policy@ == "source-preserving"@
            &&& m.extra.entries@.len() == 0
            &&& absent_or(m.fallback_policy, "none"@)
        },
        OperationPolicy::Merge3(m) => {
            &&& m.render_policy@ == "source-preserving"@
            &&& m.labels is None
            &&& m.conflict_marker_size is None
            &&& m.extra.entries@.len() == 0
            &&& absent_or(m.fallback_policy, "none"@)
        },
    }
}

/// Everything a JSON request may ask beyond its policy: no other provider or
/// family, no parser profile or language version, no unknown selection field,
/// and only its own operation as a required capability.
pub open spec fn json_constraints_ok(r: OperationRequest) -> bool {
    &&& absent_or(r.provider_selection.provider_id, "kernel.json"@)
    &&& absent_or(r.provider_selection.family, "json"@)
    &&& r.provider_selection.extra.entries@.len() == 0
    &&& r.parser_selection.profile_id is None
    &&& r.parser_selection.language_version is None
    &&& r.parser_selection.extra.entries@.len() == 0
    &&& requirements_ok(r)
}

/// Why a request is not admitted to the JSON family.
#[derive(Clone, Copy, Debug, PartialEq, Eq, Structural)]
pub enum JsonRefusal {
    /// The selection names a dialect the family does not read.
    UnsupportedDialect,
    /// The family cannot honor the operation, its policy or a constraint.
    UnsupportedRequirements,
}

pub open spec fn json_refusal_spec(r: OperationRequest) -> Option<JsonRefusal> {
    if json_dialect_spec(opt_view(r.provider_selection.dialect)) is None {
        Some(JsonRefusal::UnsupportedDialect)
    } else if !(json_policy_ok(r.operation) && json_constraints_ok(r)) {
        Some(JsonRefusal::UnsupportedRequirements)
    } else {
        None
    }
}

impl JsonRefusal {
    pub fn category(&self) -> (c: PortableCategory)
        ensures
            c == (match *self {
                JsonRefusal::UnsupportedDialect => PortableCategory::SelectionError,
                JsonRefusal::UnsupportedRequirements => PortableCategory::UnsupportedFeature,
            }),
    {
        match self {
            JsonRefusal::UnsupportedDialect => PortableCategory::SelectionError,
            JsonRefusal::UnsupportedRequirements => PortableCategory::UnsupportedFeature,
        }
    }

    pub fn code(&self) -> (s: &'static str)
        ensures
            s@ == (match *self {
                JsonRefusal::UnsupportedDialect => "json.unsupported_dialect"@,
                JsonRefusal::UnsupportedRequirements => "json.unsupported_requirements"@,
            }),
    {
        match self {
            JsonRefusal::UnsupportedDialect => "json.unsupported_dialect",
            JsonRefusal::UnsupportedRequirements => "json.unsupported_requirements",
        }
    }

    pub fn message(&self) -> (s: &'static str)
        ensures
            s@ == (match *self {
                JsonRefusal::UnsupportedDialect => "unsupported JSON dialect"@,
                JsonRefusal::UnsupportedRequirements =>
                    "JSON profile cannot honor the requested operation or constraints"@,
            }),
    {
        match self {
            JsonRefusal::UnsupportedDialect => "unsupported JSON dialect",
            JsonRefusal::UnsupportedRequirements => "JSON profile cannot honor the requested operation or constraints",
        }
    }

    /// Every refusal is a registry decision.
    pub fn layer(&self) -> (l: DiagnosticLayer)
        ensures
            l == DiagnosticLayer::Registry,
    {
        DiagnosticLayer::Registry
    }
}

/// How an admitted JSON request is executed.
#[derive(Clone, Copy, Debug, PartialEq, Eq)]
pub struct JsonAdmission {
    pub provider: &'static str,
    pub family: &'static str,
    pub profile: &'static str,
    pub dialect: JsonDialect,
    /// The parser language of every source: JSON, or JSON5 for the JSONC and
    /// JSON5 dialects.
    pub language: &'static str,
    /// The parse options of every source.
    pub options: ParseOptions,
}

fn dialect_of(d: &Option<String>) -> (r: Option<JsonDialect>)
    ensures
        r == json_dialect_spec(opt_view(*d)),
{
    match d {
        None => Some(JsonDialect::Json),
        Some(s) => {
            if str_eq(s.as_str(), "json") {
                Some(JsonDialect::Json)
            } else if str_eq(s.as_str(), "jsonc") {
                Some(JsonDialect::Jsonc)
            } else if str_eq(s.as_str(), "json5") {
                Some(JsonDialect::Json5)
            } else {
                None
            }
        },
    }
}

fn policy_ok(p: &OperationPolicy) -> (b: bool)
    ensures
        b == json_policy_ok(*p),
{
    match p {
        OperationPolicy::Analyze(a) => json_analysis::supports(a),
        OperationPolicy::Diff2(d) => json_diff::supports(d),
        OperationPolicy::Merge2(m) => str_eq(m.directional_merge.as_str(), "template-into-current") && str_eq(
            m.render_policy.as_str(),
            "source-preserving",
        ) && m.extra.is_empty() && is_absent_or(&m.fallback_policy, "none"),
        OperationPolicy::Merge3(m) => str_eq(m.render_policy.as_str(), "source-preserving")
            && m.labels.is_none() && m.conflict_marker_size.is_none() && m.extra.is_empty()
            && is_absent_or(&m.fallback_policy, "none"),
    }
}

/// `a` admits `r` to the JSON family: the JSON provider, family and nested
/// profile, the dialect the selection names and its parser language, and
/// the profile's parse options for the operation.
pub open spec fn json_admitted(r: OperationRequest, a: JsonAdmission) -> bool {
    &&& json_refusal_spec(r) is None
    &&& a.provider@ == "kernel.json"@
    &&& a.family@ == "json"@
    &&& a.profile@ == JSON_NESTED@
    &&& json_dialect_spec(opt_view(r.provider_selection.dialect)) == Some(a.dialect)
    &&& a.language@ == (if a.dialect == JsonDialect::Json {
        "json"@
    } else {
        "json5"@
    })
    &&& a.options == parse_options_for(JSON_NESTED@, policy_kind(r.operation))
}

/// An admission carries the dialect its selection names: no dialect or
/// `json` is plain JSON, `jsonc` is JSONC and `json5` is JSON5. Only plain
/// JSON is parsed with the `json` language; JSONC and JSON5 sources are
/// parsed as `json5`. Requests naming different dialects are never admitted
/// with the same one, and no other dialect is admitted.
pub proof fn law_admission_keeps_the_named_dialect(r: OperationRequest, a: JsonAdmission, r2: OperationRequest, a2: JsonAdmission)
    requires
        json_admitted(r, a),
        json_admitted(r2, a2),
    ensures
        r.provider_selection.dialect is None ==> a.dialect == JsonDialect::Json && a.language@ == "json"@,
        opt_view(r.provider_selection.dialect) == Some("json"@) ==> a.dialect == JsonDialect::Json && a.language@
            == "json"@,
        opt_view(r.provider_selection.dialect) == Some("jsonc"@) ==> a.dialect == JsonDialect::Jsonc && a.language@
            == "json5"@,
        opt_view(r.provider_selection.dialect) == Some("json5"@) ==> a.dialect == JsonDialect::Json5 && a.language@
            == "json5"@,
        r.provider_selection.dialect is Some && r2.provider_selection.dialect is Some && opt_view(
            r.provider_selection.dialect,
        ) != opt_view(r2.provider_selection.dialect) ==> a.dialect != a2.dialect,
        r.provider_selection.dialect is None || opt_view(r.provider_selection.dialect) == Some("json"@) || opt_view(
            r.provider_selection.dialect,
        ) == Some("jsonc"@) || opt_view(r.provider_selection.dialect) == Some("json5"@),
{
    reveal_strlit("json");
    reveal_strlit("jsonc");
    reveal_strlit("json5");
    assert("json"@.len() == 4 && "jsonc"@.len() == 5 && "json5"@.len() == 5);
    assert("jsonc"@ != "json"@);
    assert("json5"@ != "json"@);
    assert("json5"@[4] != "jsonc"@[4]);
}

/// Admit a request to the JSON family, or refuse it: a dialect refusal first,
/// then a refusal of any operation, policy or constraint the family cannot
/// honor. An admitted request is executed by the `kernel.json` provider under
/// the nested JSON profile, and every source is parsed as JSON (JSON5 for the
/// JSONC and JSON5 dialects) with the options the profile uses for the
/// operation.
pub fn admit_json_operation(request: &OperationRequest) -> (r: Result<JsonAdmission, JsonRefusal>)
    ensures
        match r {
            Ok(a) => json_admitted(*request, a),
            Err(e) => json_refusal_spec(*request) == Some(e),
        },
{
    let ps = &request.provider_selection;
    let qs = &request.parser_selection;
    let dialect = match dialect_of(&ps.dialect) {
        Some(d) => d,
        None => {
            return Err(JsonRefusal::UnsupportedDialect);
        },
    };
    if !(policy_ok(&request.operation) && is_absent_or(&ps.provider_id, "kernel.json") && is_absent_or(
        &ps.family,
        "json",
    ) && ps.extra.is_empty() && qs.profile_id.is_none() && qs.language_version.is_none()
        && qs.extra.is_empty() && requirements_met(request)) {
        return Err(JsonRefusal::UnsupportedRequirements);
    }
    let language = if dialect == JsonDialect::Json {
        "json"
    } else {
        "json5"
    };
    let options = if request.operation.kind() == OperationKind::Analyze {
        ParseOptions { comments: true, tokens: false, diagnostics: true, native_extensions: true }
    } else {
        ParseOptions::default()
    };
    Ok(JsonAdmission { provider: "kernel.json", family: "json", profile: JSON_NESTED, dialect, language, options })
}

/// The parser language of a JSON dialect: JSON, or JSON5 for JSONC and JSON5.
pub open spec fn dialect_language(d: JsonDialect) -> Seq<char> {
    if d == JsonDialect::Json {
        "json"@
    } else {
        "json5"@
    }
}

/// The name a role has in a parse request's identity.
pub open spec fn role_name(role: SourceRole) -> Seq<char> {
    match role {
        SourceRole::Source => "Source"@,
        SourceRole::Before => "Before"@,
        SourceRole::After => "After"@,
        SourceRole::Incoming => "Incoming"@,
        SourceRole::Current => "Current"@,
        SourceRole::Base => "Base"@,
        SourceRole::Ours => "Ours"@,
        SourceRole::Theirs => "Theirs"@,
        SourceRole::Output => "Output"@,
    }
}

fn role_name_text(role: SourceRole) -> (s: &'static str)
    ensures
        s@ == role_name(role),
{
    match role {
        SourceRole::Source => "Source",
        SourceRole::Before => "Before",
        SourceRole::After => "After",
        SourceRole::Incoming => "Incoming",
        SourceRole::Current => "Current",
        SourceRole::Base => "Base",
        SourceRole::Ours => "Ours",
        SourceRole::Theirs => "Theirs",
        SourceRole::Output => "Output",
    }
}

/// The parse of one source of a JSON request: accepted evidence of its
/// backend, selected against the first parse's registry snapshot exactly as
/// the request's parser selection asked, answering the role's parse request,
/// by a backend that parses the language, produces parse results and has
/// every capability the request required.
pub open spec fn json_parse_ok(
    core: CoreParseResult,
    first: CoreParseResult,
    r: OperationRequest,
    role: SourceRole,
    language: Seq<char>,
) -> bool {
    let sel = r.parser_selection;
    &&& parse_evidence_ok(core)
    &&& same_snapshot(core.selection, first.selection)
    &&& core.parsed.request_id@ == r.request_id@ + ":"@ + role_name(role)
    &&& core.backend.id@.len() > 0
    &&& string_views(core.backend.languages@).contains(language)
    &&& string_views(core.backend.contracts@).contains(PARSE_RESULT_SCHEMA@)
    &&& opt_view(core.selection.requested.backend_id) == opt_view(sel.backend)
    &&& string_views(core.selection.requested.preference@) == string_views(sel.preference@)
    &&& string_views(core.selection.requested.required_capabilities@) == string_views(
        sel.required_capabilities@,
    )
    &&& absent_or(sel.backend, core.backend.id@)
    &&& forall|i: int|
        0 <= i < sel.required_capabilities@.len() ==> string_views(core.backend.capabilities@).contains(
            #[trigger] sel.required_capabilities@[i]@,
        )
}

/// The parse evidence of a JSON result: one parse per source role of the
/// request, in role order, each a valid parse of its role, and the result's
/// parser record reporting the first parse's backend as the request's
/// selection chose it.
pub open spec fn json_parses_ok(
    cores: Seq<CoreParseResult>,
    res: OperationResult,
    r: OperationRequest,
    language: Seq<char>,
) -> bool {
    let roles = kind_roles(policy_kind(r.operation));
    &&& cores.len() == roles.len()
    &&& cores.len() > 0
    &&& forall|i: int| 0 <= i < cores.len() ==> json_parse_ok(#[trigger] cores[i], cores[0], r, roles[i], language)
    &&& res.profile.parser matches Some(p) && {
        &&& opt_view(p.selected_backend) == Some(cores[0].backend.id@)
        &&& opt_view(p.requested_backend) == opt_view(r.parser_selection.backend)
        &&& opt_view(p.selection_mode) == Some(selection_mode_spec(r.parser_selection))
    }
}

/// The parser language a JSON request's dialect selects.
pub open spec fn request_language(r: OperationRequest) -> Seq<char> {
    dialect_language(json_dialect_spec(opt_view(r.provider_selection.dialect))->0)
}

/// What a JSON analysis or diff result must show before its parses are
/// checked: a request of that kind with a supported policy, constraints
/// and dialect the family admits; the JSON provider; no output, render
/// report or claim of a verified output; and for an analysis no changes.
pub open spec fn json_result_preflight(res: OperationResult, r: OperationRequest, kind: OperationKind) -> bool {
    &&& match r.operation {
        OperationPolicy::Analyze(p) => kind == OperationKind::Analyze && json_analysis::supports_spec(p)
            && res.changes@.len() == 0,
        OperationPolicy::Diff2(p) => kind == OperationKind::Diff2 && json_diff::supports_spec(p),
        _ => false,
    }
    &&& opt_view(res.provider.provider_id) == Some("kernel.json"@)
    &&& opt_view(res.provider.family) == Some("json"@)
    &&& json_constraints_ok(r)
    &&& res.output is None
    &&& res.render_report.entries@.len() == 0
    &&& res.verification.output_reparsed != Some(true)
    &&& res.verification.structural_equivalence != Some(true)
    &&& json_dialect_spec(opt_view(r.provider_selection.dialect)) is Some
}

/// A JSON analysis needs a backend that keeps comments, native extensions
/// and diagnostics.
pub open spec fn analysis_backend_ok(core: CoreParseResult) -> bool {
    &&& string_views(core.backend.capabilities@).contains("comments"@)
    &&& string_views(core.backend.capabilities@).contains("native_extensions"@)
    &&& string_views(core.backend.capabilities@).contains("diagnostics"@)
}

/// Everything a JSON result's evidence must show before the family's
/// projection is recomputed from its parses.
pub open spec fn json_evidence_ok(
    res: OperationResult,
    r: OperationRequest,
    kind: OperationKind,
    cores: Option<Vec<CoreParseResult>>,
) -> bool {
    &&& json_result_preflight(res, r, kind)
    &&& cores matches Some(c) && json_parses_ok(c@, res, r, request_language(r)) && (kind == OperationKind::Analyze
        ==> analysis_backend_ok(c@[0]))
}

fn parse_request_id(request_id: &String, role: SourceRole) -> (s: String)
    ensures
        s@ == request_id@ + ":"@ + role_name(role),
{
    let mut s = copy_string(request_id);
    s.append(":");
    s.append(role_name_text(role));
    s
}

fn json_parse_check(
    core: &CoreParseResult,
    first: &CoreParseResult,
    r: &OperationRequest,
    role: SourceRole,
    language: &str,
) -> (b: bool)
    ensures
        b == json_parse_ok(*core, *first, *r, role, language@),
{
    let sel = &r.parser_selection;
    let id = &core.backend.id;
    let backend_matches = match &sel.backend {
        Some(b) => str_eq(b.as_str(), id.as_str()),
        None => true,
    };
    let expected_id = parse_request_id(&r.request_id, role);
    check_parse_evidence(core) && same_snapshot_check(&core.selection, &first.selection) && str_eq(
        core.parsed.request_id.as_str(),
        expected_id.as_str(),
    ) && !str_is_empty(id.as_str()) && string_listed(&core.backend.languages, language) && string_listed(
        &core.backend.contracts,
        PARSE_RESULT_SCHEMA,
    ) && opt_str_eq(&core.selection.requested.backend_id, &sel.backend) && same_strings(
        &core.selection.requested.preference,
        &sel.preference,
    ) && same_strings(&core.selection.requested.required_capabilities, &sel.required_capabilities)
        && backend_matches && all_listed(&sel.required_capabilities, &core.backend.capabilities)
}

fn json_parses_check(cores: &Vec<CoreParseResult>, result: &OperationResult, r: &OperationRequest, language: &str) -> (b:
    bool)
    ensures
        b == json_parses_ok(cores@, *result, *r, language@),
{
    let roles = r.operation.kind().source_roles();
    if cores.len() != roles.len() || cores.len() == 0 {
        return false;
    }
    let mut i: usize = 0;
    while i < cores.len()
        invariant
            roles@ == kind_roles(policy_kind(r.operation)),
            cores@.len() == roles@.len(),
            cores@.len() > 0,
            i <= cores@.len(),
            forall|j: int|
                0 <= j < i ==> json_parse_ok(#[trigger] cores@[j], cores@[0], *r, roles@[j], language@),
        decreases cores@.len() - i,
    {
        if !json_parse_check(&cores[i], &cores[0], r, roles[i], language) {
            return false;
        }
        i = i + 1;
    }
    let sel = &r.parser_selection;
    match &result.profile.parser {
        Some(p) => {
            let mode = if sel.backend.is_some() {
                "explicit"
            } else {
                "policy"
            };
            opt_is(&p.selected_backend, cores[0].backend.id.as_str()) && opt_str_eq(
                &p.requested_backend,
                &sel.backend,
            ) && opt_is(&p.selection_mode, mode)
        },
        None => false,
    }
}

fn preflight_check(result: &OperationResult, r: &OperationRequest, kind: OperationKind) -> (b: bool)
    ensures
        b == json_result_preflight(*result, *r, kind),
{
    let policy_fits = match &r.operation {
        OperationPolicy::Analyze(p) => kind == OperationKind::Analyze && json_analysis::supports(p)
            && result.changes.len() == 0,
        OperationPolicy::Diff2(p) => kind == OperationKind::Diff2 && json_diff::supports(p),
        _ => false,
    };
    let ps = &r.provider_selection;
    let qs = &r.parser_selection;
    policy_fits && opt_is(&result.provider.provider_id, "kernel.json") && opt_is(&result.provider.family, "json")
        && is_absent_or(&ps.provider_id, "kernel.json") && is_absent_or(&ps.family, "json") && ps.extra.is_empty()
        && qs.profile_id.is_none() && qs.language_version.is_none() && qs.extra.is_empty() && requirements_met(r)
        && result.output.is_none() && result.render_report.is_empty() && result.verification.output_reparsed
        != Some(true) && result.verification.structural_equivalence != Some(true) && dialect_of(&ps.dialect).is_some()
}

fn json_evidence_check(
    result: &OperationResult,
    request: &ValidatedOperationRequest,
    kind: OperationKind,
    cores: &Option<Vec<CoreParseResult>>,
) -> (r: Result<(), ResultContractError>)
    ensures
        r is Ok <==> json_evidence_ok(*result, request.spec_request(), kind, *cores),
        r matches Err(e) ==> e == ResultContractError::InvalidSourceEvidence,
{
    let r = request.request();
    if !preflight_check(result, r, kind) {
        return Err(ResultContractError::InvalidSourceEvidence);
    }
    let language = match dialect_of(&r.provider_selection.dialect) {
        Some(JsonDialect::Json) => "json",
        Some(_) => "json5",
        None => {
            return Err(ResultContractError::InvalidSourceEvidence);
        },
    };
    let cs = match cores {
        Some(c) => c,
        None => {
            return Err(ResultContractError::InvalidSourceEvidence);
        },
    };
    if !json_parses_check(cs, result, r, language) {
        return Err(ResultContractError::InvalidSourceEvidence);
    }
    if kind == OperationKind::Analyze {
        let caps = &cs[0].backend.capabilities;
        if !(string_listed(caps, "comments") && string_listed(caps, "native_extensions") && string_listed(
            caps,
            "diagnostics",
        )) {
            return Err(ResultContractError::InvalidSourceEvidence);
        }
    }
    Ok(())
}

/// Check a JSON analysis result's evidence before its analysis is
/// recomputed from the embedded parses: `cores` are its input parse
/// results, `None` where absent or unreadable. Fails with
/// `InvalidSourceEvidence` exactly when `json_evidence_ok` does not hold
/// for an analysis. This checks consistency of evidence; it does not
/// authenticate a parser.
pub fn validate_json_analysis_evidence(
    result: &OperationResult,
    request: &ValidatedOperationRequest,
    cores: &Option<Vec<CoreParseResult>>,
) -> (r: Result<(), ResultContractError>)
    ensures
        r is Ok <==> json_evidence_ok(*result, request.spec_request(), OperationKind::Analyze, *cores),
        r matches Err(e) ==> e == ResultContractError::InvalidSourceEvidence,
{
    json_evidence_check(result, request, OperationKind::Analyze, cores)
}

/// Check a JSON diff result's evidence before its changes are recomputed
/// from the embedded parses, as `validate_json_analysis_evidence` does for
/// an analysis.
pub fn validate_json_diff_evidence(
    result: &OperationResult,
    request: &ValidatedOperationRequest,
    cores: &Option<Vec<CoreParseResult>>,
) -> (r: Result<(), ResultContractError>)
    ensures
        r is Ok <==> json_evidence_ok(*result, request.spec_request(), OperationKind::Diff2, *cores),
        r matches Err(e) ==> e == ResultContractError::InvalidSourceEvidence,
{
    json_evidence_check(result, request, OperationKind::Diff2, cores)
}

/// The source a JSON render was edited from.
#[derive(Clone, Debug, PartialEq, Eq)]
pub struct JsonRenderBaseline {
    pub source_id: String,
    pub role: SourceRole,
}

/// A region of the baseline a JSON render retained: its source range, its
/// digest, and its output range as JSON text.
#[derive(Clone, Debug, PartialEq, Eq)]
pub struct JsonRetainedRegion {
    pub source_range: ByteRange,
    pub output_range: String,
    pub sha256: String,
}

/// The render evidence a JSON merge result exports: the baseline it edited
/// and the regions of it the output retains.
#[derive(Clone, Debug, PartialEq, Eq)]
pub struct JsonRenderEvidence {
    pub baseline: JsonRenderBaseline,
    pub retained: Vec<JsonRetainedRegion>,
}

/// The JSON text of the first field named `key`.
pub open spec fn field_text(m: Metadata, key: Seq<char>) -> Option<Seq<char>> {
    match first_key_index(m.entries@, key, 0) {
        Some(i) => Some(m.entries@[i].value@),
        None => None,
    }
}

/// A successful JSON merge, whose render evidence is checked.
pub open spec fn json_render_applies(res: OperationResult) -> bool {
    &&& res.ok
    &&& opt_view(res.profile.profile_id) == Some(JSON_NESTED@)
    &&& res.operation != OperationKind::Diff2
    &&& res.operation != OperationKind::Analyze
}

/// The roles a JSON merge may take its baseline from: the current source
/// of a directional merge, either side of a three-way merge.
pub open spec fn baseline_role_ok(kind: OperationKind, role: SourceRole) -> bool {
    ||| kind == OperationKind::Merge2 && role == SourceRole::Current
    ||| kind == OperationKind::Merge3 && (role == SourceRole::Ours || role == SourceRole::Theirs)
}

/// A reported retained region names the baseline and the render's region
/// exactly: range, digest and output range.
pub open spec fn retained_reported(
    reported: ResultSourceRegion,
    actual: JsonRetainedRegion,
    baseline: JsonRenderBaseline,
) -> bool {
    &&& reported.source_id@ == baseline.source_id@
    &&& reported.source_role == baseline.role
    &&& reported.range.start_byte == actual.source_range.start_byte
    &&& reported.range.end_byte == actual.source_range.end_byte
    &&& opt_view(reported.sha256) == Some(actual.sha256@)
    &&& field_text(reported.extra, "output_range"@) == Some(actual.output_range@)
}

/// The output's parse: accepted under the parse result contract, of a
/// source in the output role whose identity no request source has, by the
/// backend its selection chose, the backend that parsed the second input,
/// and with a descriptor that describes the output's bytes.
pub open spec fn json_output_parse_ok(
    core: CoreParseResult,
    inputs: Seq<CoreParseResult>,
    output: Seq<char>,
    req: OperationRequest,
) -> bool {
    &&& core.parsed.ok
    &&& core.schema@ == PARSE_RESULT_SCHEMA@
    &&& core.parsed.source.role == SourceRole::Output
    &&& forall|role: SourceRole| other_identity(#[trigger] req.sources.spec_get(role), core.parsed.source.source_id@)
    &&& opt_view(core.selection.selected_backend) == Some(core.backend.id@)
    &&& inputs.len() > 1
    &&& same_backend(core.backend, inputs[1].backend)
    &&& document_error(core.parsed.source, utf8_of(output), utf8_of(output).len() as int) is None
}

/// Everything a successful JSON merge's render evidence must show: an
/// output; the render evidence, whose baseline is a validated source of
/// the request in a role the merge may edit; the `json-source-edits`
/// strategy; the render accepted against its baseline and output; one
/// reported retained region per retained region, in order; and an
/// accepted output parse.
pub open spec fn json_render_ok(
    res: OperationResult,
    req: ValidatedOperationRequest,
    render: Option<JsonRenderEvidence>,
    render_accepted: bool,
    output_parse: Option<CoreParseResult>,
    inputs: Option<Vec<CoreParseResult>>,
) -> bool {
    &&& res.output matches Some(out)
    &&& render matches Some(ev)
    &&& req.spec_sources().lookup(ev.baseline.source_id@) is Some
    &&& baseline_role_ok(res.operation, ev.baseline.role)
    &&& field_text(res.render_report, "strategy"@) == Some("\"json-source-edits\""@)
    &&& render_accepted
    &&& res.verification.retained_source_regions matches Some(regions)
    &&& regions@.len() == ev.retained@.len()
    &&& forall|k: int|
        0 <= k < regions@.len() ==> retained_reported(#[trigger] regions@[k], ev.retained@[k], ev.baseline)
    &&& output_parse matches Some(core)
    &&& inputs matches Some(ins)
    &&& json_output_parse_ok(core, ins@, out@, req.spec_request())
}

fn retained_check(
    regions: &Vec<ResultSourceRegion>,
    ev: &JsonRenderEvidence,
) -> (b: bool)
    ensures
        b == (regions@.len() == ev.retained@.len() && forall|k: int|
            0 <= k < regions@.len() ==> retained_reported(#[trigger] regions@[k], ev.retained@[k], ev.baseline)),
{
    if regions.len() != ev.retained.len() {
        return false;
    }
    let mut k: usize = 0;
    while k < regions.len()
        invariant
            k <= regions@.len(),
            regions@.len() == ev.retained@.len(),
            forall|j: int| 0 <= j < k ==> retained_reported(#[trigger] regions@[j], ev.retained@[j], ev.baseline),
        decreases regions@.len() - k,
    {
        let reported = &regions[k];
        let actual = &ev.retained[k];
        let sha_ok = match &reported.sha256 {
            Some(d) => str_eq(d.as_str(), actual.sha256.as_str()),
            None => false,
        };
        let range_ok = match reported.extra.get("output_range") {
            Some(v) => str_eq(v.as_str(), actual.output_range.as_str()),
            None => false,
        };
        if !str_eq(reported.source_id.as_str(), ev.baseline.source_id.as_str())
            || reported.source_role != ev.baseline.role
            || reported.range.start_byte != actual.source_range.start_byte
            || reported.range.end_byte != actual.source_range.end_byte || !sha_ok || !range_ok {
            return false;
        }
        k = k + 1;
    }
    true
}

/// Check the evidence a JSON result of the nested JSON profile exports.
/// A result that is not a success of that profile passes. An analysis or a
/// diff is checked as `validate_json_analysis_evidence` and
/// `validate_json_diff_evidence` check it, with `inputs` its parses. A merge
/// passes exactly when `json_render_ok` holds: `render` is its render
/// evidence and `output_parse` its output's parse, `None` where absent or
/// unreadable, and `render_accepted` is what the JSON family's own check of
/// the render against its baseline and output answered. This checks the
/// consistency of exported evidence; it does not make a foreign result an
/// authority for the semantic decisions of its plan.
pub fn validate_json_render(
    result: &OperationResult,
    request: &ValidatedOperationRequest,
    render: &Option<JsonRenderEvidence>,
    render_accepted: bool,
    output_parse: &Option<CoreParseResult>,
    inputs: &Option<Vec<CoreParseResult>>,
) -> (r: Result<(), ResultContractError>)
    ensures
        !(result.ok && opt_view(result.profile.profile_id) == Some(JSON_NESTED@)) ==> r is Ok,
        result.ok && opt_view(result.profile.profile_id) == Some(JSON_NESTED@) && (result.operation
            == OperationKind::Diff2 || result.operation == OperationKind::Analyze) ==> (r is Ok <==> json_evidence_ok(
            *result,
            request.spec_request(),
            result.operation,
            *inputs,
        )),
        json_render_applies(*result) ==> (r is Ok <==> json_render_ok(
            *result,
            *request,
            *render,
            render_accepted,
            *output_parse,
            *inputs,
        )),
        r matches Err(e) ==> e == ResultContractError::InvalidSourceEvidence,
{
    let json = match &result.profile.profile_id {
        Some(id) => str_eq(id.as_str(), JSON_NESTED),
        None => false,
    };
    if !json || !result.ok {
        return Ok(());
    }
    if result.operation == OperationKind::Diff2 {
        return validate_json_diff_evidence(result, request, inputs);
    }
    if result.operation == OperationKind::Analyze {
        return validate_json_analysis_evidence(result, request, inputs);
    }
    let invalid = ResultContractError::InvalidSourceEvidence;
    let output = match &result.output {
        Some(o) => o,
        None => {
            return Err(invalid);
        },
    };
    let ev = match render {
        Some(e) => e,
        None => {
            return Err(invalid);
        },
    };
    if request.sources().get(ev.baseline.source_id.as_str()).is_err() {
        return Err(invalid);
    }
    let role_ok = if result.operation == OperationKind::Merge2 {
        ev.baseline.role == SourceRole::Current
    } else if result.operation == OperationKind::Merge3 {
        ev.baseline.role == SourceRole::Ours || ev.baseline.role == SourceRole::Theirs
    } else {
        false
    };
    let strategy_ok = match result.render_report.get("strategy") {
        Some(v) => str_eq(v.as_str(), "\"json-source-edits\""),
        None => false,
    };
    if !role_ok || !strategy_ok || !render_accepted {
        return Err(invalid);
    }
    let regions = match &result.verification.retained_source_regions {
        Some(v) => v,
        None => {
            return Err(invalid);
        },
    };
    if !retained_check(regions, ev) {
        return Err(invalid);
    }
    let (core, ins) = match (output_parse, inputs) {
        (Some(c), Some(i)) => (c, i),
        _ => {
            return Err(invalid);
        },
    };
    if !core.parsed.ok || !str_eq(core.schema.as_str(), PARSE_RESULT_SCHEMA)
        || core.parsed.source.role != SourceRole::Output || !output_id_fresh(request, &core.parsed.source.source_id) {
        return Err(invalid);
    }
    let selected_ok = match &core.selection.selected_backend {
        Some(b) => str_eq(b.as_str(), core.backend.id.as_str()),
        None => false,
    };
    if !selected_ok || ins.len() < 2 || !same_backend_check(&core.backend, &ins[1].backend) {
        return Err(invalid);
    }
    let bytes = str_bytes(output.as_str());
    if first_document_error(&core.parsed.source, bytes, bytes.len() as u64).is_some() {
        return Err(invalid);
    }
    Ok(())
}

/// The first alternative a conflict reports for a revision.
pub open spec fn alternative_for(alts: Seq<MergeAlternative>, rev: SourceRevision) -> Option<MergeAlternative>
    decreases alts.len(),
{
    if alts.len() == 0 {
        None
    } else if alts[0].revision == rev {
        Some(alts[0])
    } else {
        alternative_for(alts.drop_first(), rev)
    }
}

/// The portable state of a revision's alternative; opaque where the
/// conflict reports none for the revision.
pub open spec fn json_alternative_state(found: Option<MergeAlternative>) -> AlternativeState {
    match found {
        Some(m) => if m.state == ConflictAlternativeState::Present {
            AlternativeState::Present
        } else {
            AlternativeState::Absent
        },
        None => AlternativeState::Opaque,
    }
}

/// The regions of a revision's alternative lie in the request's source for
/// its role.
pub open spec fn json_alternative_fits(found: Option<MergeAlternative>, role: SourceRole, req: ValidatedOperationRequest) -> bool {
    match found {
        Some(m) => forall|j: int|
            0 <= j < m.regions@.len() ==> valid_range(#[trigger] m.regions@[j], role_document(req, role)->0.data().len()),
        None => true,
    }
}

/// The portable alternative of a role: the state of the revision's
/// alternative, the request's source unless the alternative is absent, and
/// each reported region exactly, with its length and digest.
pub open spec fn json_alternative_projected(
    a: ConflictSourceAlternative,
    found: Option<MergeAlternative>,
    role: SourceRole,
    req: ValidatedOperationRequest,
) -> bool {
    &&& a.role == role
    &&& a.state == json_alternative_state(found)
    &&& opt_view(a.source_id) == (if json_alternative_state(found) == AlternativeState::Absent {
        None
    } else {
        Some(role_source_id(req, role))
    })
    &&& match found {
        Some(m) => {
            &&& a.regions@.len() == m.regions@.len()
            &&& forall|j: int|
                0 <= j < a.regions@.len() ==> region_projected(
                    #[trigger] a.regions@[j],
                    m.regions@[j],
                    role_document(req, role)->0,
                )
        },
        None => a.regions@.len() == 0,
    }
    &&& a.change_ids@.len() == 0
    &&& no_entries(a.extra)
}

/// A conflict is localized to its owner when it reports an alternative for
/// every revision.
pub open spec fn json_localized(native: RenderedConflict) -> bool {
    &&& native.alternatives@.len() > 0
    &&& forall|k: int| 0 <= k < 3 ==> alternative_for(native.alternatives@, #[trigger] three_revisions()[k]) is Some
}

/// Every reported region lies in the request's source for its role.
pub open spec fn json_conflict_fits(native: RenderedConflict, req: ValidatedOperationRequest) -> bool {
    forall|k: int|
        0 <= k < 3 ==> json_alternative_fits(
            alternative_for(native.alternatives@, #[trigger] three_revisions()[k]),
            three_roles()[k],
            req,
        )
}

/// The portable conflict of an unresolved JSON structural conflict: a
/// provider-specific conflict of the three-way merge at the conflict's path
/// (the whole document where the path is empty), with one alternative per
/// role, the native conflict as classification evidence, localized to its
/// owner exactly when the conflict is, unresolved, and tied to its
/// diagnostic.
pub open spec fn json_conflict_projected(
    c: PortableConflict,
    native: RenderedConflict,
    record: Seq<char>,
    diagnostic_id: Seq<char>,
    req: ValidatedOperationRequest,
) -> bool {
    &&& c.schema@ == CONFLICT_SCHEMA@
    &&& c.id@ == native.conflict_id@
    &&& c.operation == OperationKind::Merge3
    &&& c.category == ConflictCategory::ProviderSpecific
    &&& c.code@ == "json.structural_conflict"@
    &&& opt_view(c.message) == Some(native.message@)
    &&& opt_view(c.subject.structural_path) == (if native.path@.len() == 0 {
        None
    } else {
        Some(native.path@)
    })
    &&& c.subject.owner_ref is None
    &&& c.subject.node_ref is None
    &&& c.subject.archive_entry is None
    &&& c.subject.binary_region is None
    &&& c.subject.whole_document == Some(native.path@.len() == 0)
    &&& no_entries(c.subject.extra)
    &&& c.roles@ == kind_roles(OperationKind::Merge3)
    &&& c.alternatives@.len() == 3
    &&& forall|k: int|
        0 <= k < 3 ==> json_alternative_projected(
            #[trigger] c.alternatives@[k],
            alternative_for(native.alternatives@, three_revisions()[k]),
            three_roles()[k],
            req,
        )
    &&& c.classification.base_participated == Some(true)
    &&& c.classification.change_ids@.len() == 0
    &&& c.classification.decision_ids@.len() == 0
    &&& c.classification.extra.entries@.len() == 1
    &&& c.classification.extra.entries@[0].key@ == "native_conflict"@
    &&& c.classification.extra.entries@[0].value@ == record
    &&& c.localization.status == (if json_localized(native) {
        LocalizationStatus::Owner
    } else {
        LocalizationStatus::Unavailable
    })
    &&& c.localization.verified == json_localized(native)
    &&& c.localization.output_regions@.len() == 0
    &&& no_entries(c.localization.extra)
    &&& c.resolution.status == ResolutionStatus::Unresolved
    &&& c.resolution.strategy == ResolutionStrategy::NoStrategy
    &&& c.resolution.selected_roles@.len() == 0
    &&& c.resolution.decision_id is None
    &&& c.resolution.resolver is None
    &&& c.resolution.reason is None
    &&& no_entries(c.resolution.extra)
    &&& string_views(c.diagnostic_ids@) == seq![diagnostic_id]
    &&& c.change_ids@.len() == 0
    &&& c.decision_ids@.len() == 0
    &&& c.render_fragment_ids@.len() == 0
    &&& c.extensions@.len() == 0
    &&& no_entries(c.metadata)
    &&& no_entries(c.extra)
}

/// The message of the diagnostic of a JSON structural conflict.
pub const JSON_CONFLICT_MESSAGE: &'static str = "JSON family reported an unresolved structural conflict";

fn find_alternative(alts: &Vec<MergeAlternative>, rev: SourceRevision) -> (r: Option<usize>)
    ensures
        match r {
            Some(i) => i < alts@.len() && alternative_for(alts@, rev) == Some(alts@[i as int]),
            None => alternative_for(alts@, rev) is None,
        },
{
    let mut i: usize = 0;
    assert(alts@.skip(0) =~= alts@);
    while i < alts.len()
        invariant
            i <= alts@.len(),
            alternative_for(alts@, rev) == alternative_for(alts@.skip(i as int), rev),
        decreases alts@.len() - i,
    {
        assert(alts@.skip(i as int).drop_first() =~= alts@.skip(i + 1));
        assert(alts@.skip(i as int)[0] == alts@[i as int]);
        if alts[i].revision == rev {
            return Some(i);
        }
        i = i + 1;
    }
    assert(alts@.skip(i as int).len() == 0);
    None
}

proof fn lemma_merge3_documents(req: ValidatedOperationRequest, r: OperationRequest, m: SourceMap)
    requires
        r == req.spec_request(),
        m == req.spec_sources(),
        roles_exact(r.sources, policy_kind(r.operation)),
        validated_sources(r, m),
        policy_kind(r.operation) == OperationKind::Merge3,
    ensures
        forall|k: int| 0 <= k < 3 ==> role_document(req, #[trigger] three_roles()[k]) is Some,
{
    assert forall|k: int| 0 <= k < 3 implies role_document(req, #[trigger] three_roles()[k]) is Some by {
        let role = three_roles()[k];
        assert(req_roles(r)[k] == role);
        assert(kind_roles(OperationKind::Merge3).contains(role));
        let src = r.sources.spec_get(role)->0;
        assert(source_at(r, k) == src);
        assert(document_matches(source_at(r, k), req_roles(r)[k], m.docs()[k]));
        assert(m.docs()[k].desc().source_id@ == src.source_id@);
    }
}

fn project_json_alternative(
    native: &RenderedConflict,
    rev: SourceRevision,
    role: SourceRole,
    request: &ValidatedOperationRequest,
) -> (r: Result<ConflictSourceAlternative, SourceError>)
    requires
        role_document(*request, role) is Some,
        request.spec_request().sources.spec_get(role) is Some,
    ensures
        r is Ok <==> json_alternative_fits(alternative_for(native.alternatives@, rev), role, *request),
        r matches Ok(a) ==> json_alternative_projected(a, alternative_for(native.alternatives@, rev), role, *request),
        r matches Err(e) ==> e.code == SourceErrorCode::InvalidRange,
{
    let document = match role_doc(request, role) {
        Some(d) => d,
        None => vstd::pervasive::unreached(),
    };
    let found = find_alternative(&native.alternatives, rev);
    let source_id = role_id(request, role);
    match found {
        None => Ok(
            ConflictSourceAlternative {
                role,
                state: AlternativeState::Opaque,
                source_id: Some(source_id),
                regions: Vec::new(),
                change_ids: Vec::new(),
                extra: Metadata::new(),
            },
        ),
        Some(i) => {
            let m = &native.alternatives[i];
            let mut regions: Vec<ExactConflictRegion> = Vec::new();
            let mut k: usize = 0;
            while k < m.regions.len()
                invariant
                    k <= m.regions@.len(),
                    regions@.len() == k,
                    *document == role_document(*request, role)->0,
                    alternative_for(native.alternatives@, rev) == Some(*m),
                    forall|j: int| 0 <= j < k ==> valid_range(#[trigger] m.regions@[j], document.data().len()),
                    forall|j: int| 0 <= j < k ==> region_projected(#[trigger] regions@[j], m.regions@[j], *document),
                decreases m.regions@.len() - k,
            {
                let range = m.regions[k];
                let bytes = match document.slice(range) {
                    Ok(b) => b,
                    Err(e) => {
                        proof {
                            assert(!valid_range(m.regions@[k as int], document.data().len()));
                            assert(!json_alternative_fits(alternative_for(native.alternatives@, rev), role, *request));
                        }
                        return Err(e);
                    },
                };
                let byte_length = bytes.len() as u64;
                let sha256 = match document.range_digest(range) {
                    Ok(h) => h,
                    Err(e) => {
                        return Err(e);
                    },
                };
                regions.push(
                    ExactConflictRegion {
                        range: ResultRange { start_byte: range.start_byte, end_byte: range.end_byte, extra: Metadata::new() },
                        byte_length,
                        sha256,
                        extra: Metadata::new(),
                    },
                );
                k = k + 1;
            }
            let present = m.state == ConflictAlternativeState::Present;
            Ok(
                ConflictSourceAlternative {
                    role,
                    state: if present {
                        AlternativeState::Present
                    } else {
                        AlternativeState::Absent
                    },
                    source_id: if present {
                        Some(source_id)
                    } else {
                        None
                    },
                    regions,
                    change_ids: Vec::new(),
                    extra: Metadata::new(),
                },
            )
        },
    }
}

/// Project an unresolved JSON structural conflict into the next diagnostic
/// of the result and the portable conflict tied to it; `record` is the
/// native conflict as JSON text. Fails with the range error of the first
/// reported region that lies outside its source.
pub fn project_json_conflict(
    result: &OperationResult,
    request: &ValidatedOperationRequest,
    native: &RenderedConflict,
    record: String,
) -> (r: Result<(PortableDiagnostic, PortableConflict), SourceError>)
    requires
        policy_kind(request.spec_request().operation) == OperationKind::Merge3,
    ensures
        r is Ok <==> json_conflict_fits(*native, *request),
        r matches Ok((d, c)) ==> {
            &&& plain_diagnostic(
                d,
                *result,
                result.diagnostics@.len(),
                PortableCategory::MergeConflict,
                "json.merge_conflict"@,
                JSON_CONFLICT_MESSAGE@,
                DiagnosticLayer::Provider,
            )
            &&& d.source_refs@.len() == 0
            &&& json_conflict_projected(c, *native, record@, d.id@, *request)
        },
        r matches Err(e) ==> e.code == SourceErrorCode::InvalidRange,
{
    let r = request.request();
    let m = request.sources();
    proof {
        lemma_merge3_documents(*request, *r, *m);
        assert(roles_exact(r.sources, OperationKind::Merge3));
        assert(kind_roles(OperationKind::Merge3).contains(SourceRole::Base));
        assert(kind_roles(OperationKind::Merge3).contains(SourceRole::Ours));
        assert(kind_roles(OperationKind::Merge3).contains(SourceRole::Theirs));
        assert(three_roles()[0] == SourceRole::Base && three_roles()[1] == SourceRole::Ours && three_roles()[2]
            == SourceRole::Theirs);
        assert(three_revisions()[0] == SourceRevision::Base && three_revisions()[1] == SourceRevision::Ours
            && three_revisions()[2] == SourceRevision::Theirs);
    }
    let base = match project_json_alternative(native, SourceRevision::Base, SourceRole::Base, request) {
        Ok(a) => a,
        Err(e) => {
            return Err(e);
        },
    };
    let ours = match project_json_alternative(native, SourceRevision::Ours, SourceRole::Ours, request) {
        Ok(a) => a,
        Err(e) => {
            return Err(e);
        },
    };
    let theirs = match project_json_alternative(native, SourceRevision::Theirs, SourceRole::Theirs, request) {
        Ok(a) => a,
        Err(e) => {
            return Err(e);
        },
    };
    let localized = native.alternatives.len() > 0 && find_alternative(&native.alternatives, SourceRevision::Base).is_some()
        && find_alternative(&native.alternatives, SourceRevision::Ours).is_some() && find_alternative(
        &native.alternatives,
        SourceRevision::Theirs,
    ).is_some();
    let d = native_diagnostic(
        result,
        PortableCategory::MergeConflict,
        "json.merge_conflict",
        owned(JSON_CONFLICT_MESSAGE),
        DiagnosticLayer::Provider,
        Vec::new(),
    );
    let whole = str_is_empty(native.path.as_str());
    let conflict = PortableConflict {
        schema: owned(CONFLICT_SCHEMA),
        id: copy_string(&native.conflict_id),
        operation: OperationKind::Merge3,
        category: ConflictCategory::ProviderSpecific,
        code: owned("json.structural_conflict"),
        message: Some(copy_string(&native.message)),
        subject: ConflictSubject {
            structural_path: if whole {
                None
            } else {
                Some(copy_string(&native.path))
            },
            owner_ref: None,
            node_ref: None,
            archive_entry: None,
            binary_region: None,
            whole_document: Some(whole),
            extra: Metadata::new(),
        },
        roles: OperationKind::Merge3.source_roles(),
        alternatives: vec![base, ours, theirs],
        classification: ConflictClassification {
            base_participated: Some(true),
            change_ids: Vec::new(),
            decision_ids: Vec::new(),
            extra: Metadata { entries: vec![MetadataEntry { key: owned("native_conflict"), value: record }] },
        },
        localization: ConflictLocalization {
            status: if localized {
                LocalizationStatus::Owner
            } else {
                LocalizationStatus::Unavailable
            },
            verified: localized,
            output_regions: Vec::new(),
            extra: Metadata::new(),
        },
        resolution: ConflictResolution {
            status: ResolutionStatus::Unresolved,
            strategy: ResolutionStrategy::NoStrategy,
            selected_roles: Vec::new(),
            decision_id: None,
            resolver: None,
            reason: None,
            extra: Metadata::new(),
        },
        diagnostic_ids: vec![copy_string(&d.id)],
        change_ids: Vec::new(),
        decision_ids: Vec::new(),
        render_fragment_ids: Vec::new(),
        extensions: Vec::new(),
        metadata: Metadata::new(),
        extra: Metadata::new(),
    };
    proof {
        assert(string_views(conflict.diagnostic_ids@) =~= seq![d.id@]);
        assert(conflict.alternatives@[0] == base && conflict.alternatives@[1] == ours && conflict.alternatives@[2]
            == theirs);
    }
    Ok((d, conflict))
}

} // verus!
