//! Admission of a common operation request to an explicitly selected native
//! profile: which family, provider and parser language execute it, or the
//! refusal the request is answered with. No family default and no fallback:
//! a request names its profile, and a profile that cannot honor every stated
//! constraint refuses the whole request before any parser is called.
use crate::json_diff;
use crate::metadata::{copy_extensions, copy_fields, field_set, same_extensions, same_fields, Metadata, MetadataEntry};
use crate::native_conflict_projection::{no_entries, point_at};
use crate::operation::ValidatedOperationRequest;
use crate::operation_result::{
    result_error, ResultContractError, change_error, change_ids, names_role, role_states_ok, span_ok, string_views, unique_nonempty_spec, ResultChange,
    ResultDiff, ResultPoint,
    ResultRange, ResultSpan,
};
use crate::source::{digest_hex, role_name_spec, valid_range, ByteRange, SourceDocument, SourceRole};
use crate::role_map::RoleMap;
use crate::text::{
    bytes_eq, copy_opt_string, copy_string, decimal, json_string, json_string_text, lemma_decimal_injective,
    lemma_decimal_nonempty, owned, push_decimal, str_bytes, utf8_of,
};
use crate::host::{failure_evidence, service_category, service_code, service_failure_category, CoreError, ParserFailure, ServiceError};
use crate::native_analysis_projection;
use crate::operation::{policy_kind, OperationPolicy, OperationRequest};
use crate::operation_result::opt_view;
use crate::merge::{AnalysisFailure, NativeMergeError, ParseEvidence};
use crate::host::CoreParseResult;
use crate::operation_result::{
    OperationResult, PreservationProperty, ResultSourceRegion, ResultParserSelection, ResultProfile, ResultProvider, ResultVerification, OPERATION_RESULT_SCHEMA,
};
use crate::portable_diagnostic::{
    DiagnosticLayer, DiagnosticOrigin, DiagnosticSeverity, DiagnosticSourceRef, PortableCategory, PortableDiagnostic,
    DIAGNOSTIC_SCHEMA,
};
use crate::profiles::{
    native_language, native_language_spec, opt_str_view, profile_operations, profile_ops, BASH_OWNERS,
    GIT_JSON, GO_OWNERS, JSON_NESTED, PYTHON_DECLARATIONS, RUST_OWNERS, TYPESCRIPT_OWNERS, YAML_MAPPING,
};
use crate::text::str_eq;
use crate::{kind_roles, OperationKind};
use vstd::prelude::*;

verus! {

/// The family and merge provider of each native owner profile.
pub open spec fn native_target_spec(id: Seq<char>) -> Option<(Seq<char>, Seq<char>)> {
    if id == YAML_MAPPING@ {
        Some(("yaml"@, "kernel.yaml"@))
    } else if id == PYTHON_DECLARATIONS@ {
        Some(("python"@, "kernel.python"@))
    } else if id == BASH_OWNERS@ {
        Some(("bash"@, "kernel.bash"@))
    } else if id == GO_OWNERS@ {
        Some(("go"@, "kernel.go"@))
    } else if id == RUST_OWNERS@ {
        Some(("rust"@, "kernel.rust"@))
    } else if id == TYPESCRIPT_OWNERS@ {
        Some(("typescript"@, "kernel.typescript"@))
    } else {
        None
    }
}

/// The family and merge provider of a native owner profile.
pub fn native_target(id: &str) -> (r: Option<(&'static str, &'static str)>)
    ensures
        match r {
            Some((family, provider)) => native_target_spec(id@) == Some((family@, provider@)),
            None => native_target_spec(id@) is None,
        },
{
    if str_eq(id, YAML_MAPPING) {
        Some(("yaml", "kernel.yaml"))
    } else if str_eq(id, PYTHON_DECLARATIONS) {
        Some(("python", "kernel.python"))
    } else if str_eq(id, BASH_OWNERS) {
        Some(("bash", "kernel.bash"))
    } else if str_eq(id, GO_OWNERS) {
        Some(("go", "kernel.go"))
    } else if str_eq(id, RUST_OWNERS) {
        Some(("rust", "kernel.rust"))
    } else if str_eq(id, TYPESCRIPT_OWNERS) {
        Some(("typescript", "kernel.typescript"))
    } else {
        None
    }
}

/// The name an operation has as a required provider capability.
pub open spec fn operation_name_spec(kind: OperationKind) -> Seq<char> {
    match kind {
        OperationKind::Analyze => "analyze"@,
        OperationKind::Diff2 => "diff2"@,
        OperationKind::Merge2 => "merge2"@,
        OperationKind::Merge3 => "merge3"@,
    }
}

pub fn operation_name(kind: OperationKind) -> (r: &'static str)
    ensures
        r@ == operation_name_spec(kind),
{
    match kind {
        OperationKind::Analyze => "analyze",
        OperationKind::Diff2 => "diff2",
        OperationKind::Merge2 => "merge2",
        OperationKind::Merge3 => "merge3",
    }
}

/// Absent, or present with the given value.
pub open spec fn absent_or(o: Option<String>, v: Seq<char>) -> bool {
    match o {
        Some(s) => s@ == v,
        None => true,
    }
}

pub(crate) fn is_absent_or(o: &Option<String>, v: &str) -> (r: bool)
    ensures
        r == absent_or(*o, v@),
{
    match o {
        Some(s) => str_eq(s.as_str(), v),
        None => true,
    }
}

fn as_deref(o: &Option<String>) -> (r: Option<&str>)
    ensures
        opt_str_view(r) == opt_view(*o),
{
    match o {
        Some(s) => Some(s.as_str()),
        None => None,
    }
}

/// The families whose owner analysis has no semantic label or marker
/// rendering for three-way conflicts.
pub open spec fn owner_family(family: Seq<char>) -> bool {
    family == "bash"@ || family == "go"@ || family == "rust"@ || family == "typescript"@
}

/// The families whose two-way merge analyzes owners directionally.
pub open spec fn directional_family(family: Seq<char>) -> bool {
    family == "go"@ || family == "rust"@ || family == "typescript"@
}

/// The provider and parser selection constraints a native profile honors:
/// no other provider or family, a dialect that selects a parser language, and
/// no parser profile, language version or unknown selection field.
pub open spec fn native_selection_ok(r: OperationRequest, family: Seq<char>, provider: Seq<char>) -> bool {
    &&& absent_or(r.provider_selection.provider_id, provider)
    &&& absent_or(r.provider_selection.family, family)
    &&& native_language_spec(family, opt_view(r.provider_selection.dialect)) is Some
    &&& r.provider_selection.extra.entries@.len() == 0
    &&& r.parser_selection.profile_id is None
    &&& r.parser_selection.language_version is None
    &&& r.parser_selection.extra.entries@.len() == 0
}

/// The operation policies native owner execution implements: source-preserving
/// merges without fallback, exact-source owner analysis and diff, and for the
/// owner families no three-way labels or marker size.
pub open spec fn native_policy_ok(family: Seq<char>, p: OperationPolicy) -> bool {
    match p {
        OperationPolicy::Merge2(m) => {
            &&& m.directional_merge@ == "template-into-current"@
            &&& m.render_policy@ == "source-preserving"@
            &&& m.extra.entries@.len() == 0
            &&& absent_or(m.fallback_policy, "none"@)
        },
        OperationPolicy::Analyze(a) => native_analysis_projection::supports_spec(a),
        OperationPolicy::Merge3(m) => {
            &&& m.render_policy@ == "source-preserving"@
            &&& (!owner_family(family) || (m.labels is None && m.conflict_marker_size is None))
            &&& m.extra.entries@.len() == 0
            &&& absent_or(m.fallback_policy, "none"@)
        },
        OperationPolicy::Diff2(d) => json_diff::supports_spec(d),
    }
}

/// Every required provider capability is the operation itself, and no
/// request extension asks for a capability.
pub open spec fn requirements_ok(r: OperationRequest) -> bool {
    &&& forall|i: int|
        0 <= i < r.provider_selection.required_capabilities@.len()
            ==> #[trigger] r.provider_selection.required_capabilities@[i]@ == operation_name_spec(
            policy_kind(r.operation),
        )
    &&& forall|j: int| 0 <= j < r.extensions@.len() ==> (#[trigger] r.extensions@[j]).capabilities@.len() == 0
}

/// Why a request is not admitted to a native profile.
#[derive(Clone, Copy, Debug, PartialEq, Eq, Structural)]
pub enum NativeRefusal {
    /// No implemented native profile is named.
    UnsupportedProfile,
    /// The profile cannot honor the provider or parser selection constraints.
    UnsupportedConstraints,
    /// The profile does not implement the operation, its policy, or a
    /// required capability.
    UnsupportedRequirements,
}

pub open spec fn refusal_category(r: NativeRefusal) -> PortableCategory {
    match r {
        NativeRefusal::UnsupportedConstraints => PortableCategory::SelectionError,
        _ => PortableCategory::UnsupportedFeature,
    }
}

pub open spec fn refusal_code(r: NativeRefusal) -> Seq<char> {
    match r {
        NativeRefusal::UnsupportedProfile => "selection.unsupported_profile"@,
        NativeRefusal::UnsupportedConstraints => "selection.unsupported_constraints"@,
        NativeRefusal::UnsupportedRequirements => "operation.unsupported_requirements"@,
    }
}

pub open spec fn refusal_message(r: NativeRefusal) -> Seq<char> {
    match r {
        NativeRefusal::UnsupportedProfile => "an explicit implemented native profile is required"@,
        NativeRefusal::UnsupportedConstraints =>
            "native execution cannot honor the requested selection constraints"@,
        NativeRefusal::UnsupportedRequirements =>
            "operation or policy requirements are not implemented by the selected native profile"@,
    }
}

impl NativeRefusal {
    /// The diagnostic category of the refusal.
    pub fn category(&self) -> (c: PortableCategory)
        ensures
            c == refusal_category(*self),
    {
        match self {
            NativeRefusal::UnsupportedConstraints => PortableCategory::SelectionError,
            _ => PortableCategory::UnsupportedFeature,
        }
    }

    /// The diagnostic code of the refusal.
    pub fn code(&self) -> (s: &'static str)
        ensures
            s@ == refusal_code(*self),
    {
        match self {
            NativeRefusal::UnsupportedProfile => "selection.unsupported_profile",
            NativeRefusal::UnsupportedConstraints => "selection.unsupported_constraints",
            NativeRefusal::UnsupportedRequirements => "operation.unsupported_requirements",
        }
    }

    /// The diagnostic message of the refusal.
    pub fn message(&self) -> (s: &'static str)
        ensures
            s@ == refusal_message(*self),
    {
        match self {
            NativeRefusal::UnsupportedProfile => "an explicit implemented native profile is required",
            NativeRefusal::UnsupportedConstraints =>
                "native execution cannot honor the requested selection constraints",
            NativeRefusal::UnsupportedRequirements =>
                "operation or policy requirements are not implemented by the selected native profile",
        }
    }

    /// Every refusal is a registry decision.
    pub fn layer(&self) -> (l: DiagnosticLayer)
        ensures
            l == DiagnosticLayer::Registry,
    {
        DiagnosticLayer::Registry
    }
}

/// The profile a request selects, when it is a native owner profile.
pub open spec fn selected_target(r: OperationRequest) -> Option<(Seq<char>, Seq<char>)> {
    match r.provider_selection.profile_id {
        Some(id) => native_target_spec(id@),
        None => None,
    }
}

/// The refusal a native request is answered with, if any: an unknown profile
/// first, then unsupported selection constraints, then an unsupported
/// operation, policy or requirement.
pub open spec fn native_refusal_spec(r: OperationRequest) -> Option<NativeRefusal> {
    match r.provider_selection.profile_id {
        None => Some(NativeRefusal::UnsupportedProfile),
        Some(id) => match native_target_spec(id@) {
            None => Some(NativeRefusal::UnsupportedProfile),
            Some((family, provider)) => {
                if !native_selection_ok(r, family, provider) {
                    Some(NativeRefusal::UnsupportedConstraints)
                } else if !(profile_ops(id@).contains(policy_kind(r.operation)) && native_policy_ok(
                    family,
                    r.operation,
                ) && requirements_ok(r)) {
                    Some(NativeRefusal::UnsupportedRequirements)
                } else {
                    None
                }
            },
        },
    }
}

/// A request naming a JSON-family profile is executed by the JSON family.
pub open spec fn json_family_profile(id: Option<Seq<char>>) -> bool {
    id == Some(JSON_NESTED@) || id == Some(GIT_JSON@)
}

/// What executes an admitted native request.
#[derive(Clone, Copy, Debug, PartialEq, Eq)]
pub struct NativeAdmission {
    pub family: &'static str,
    pub provider: &'static str,
    /// The parser language every source of the request is parsed as.
    pub language: &'static str,
    /// Whether owners are analyzed directionally (two-way merges of the
    /// declaration families).
    pub directional_owners: bool,
}

/// Where a request goes.
#[derive(Clone, Copy, Debug, PartialEq, Eq)]
pub enum NativeRoute {
    /// The JSON family executes it.
    JsonFamily,
    /// A native owner profile executes it.
    Native(NativeAdmission),
}

fn selection_ok(r: &OperationRequest, family: &'static str, provider: &'static str) -> (b: bool)
    ensures
        b == native_selection_ok(*r, family@, provider@),
{
    let ps = &r.provider_selection;
    let qs = &r.parser_selection;
    is_absent_or(&ps.provider_id, provider) && is_absent_or(&ps.family, family) && native_language(
        family,
        as_deref(&ps.dialect),
    ).is_some() && ps.extra.is_empty() && qs.profile_id.is_none() && qs.language_version.is_none()
        && qs.extra.is_empty()
}

fn policy_ok(family: &'static str, p: &OperationPolicy) -> (b: bool)
    ensures
        b == native_policy_ok(family@, *p),
{
    match p {
        OperationPolicy::Merge2(m) => str_eq(m.directional_merge.as_str(), "template-into-current") && str_eq(
            m.render_policy.as_str(),
            "source-preserving",
        ) && m.extra.is_empty() && is_absent_or(&m.fallback_policy, "none"),
        OperationPolicy::Analyze(a) => native_analysis_projection::supports(a),
        OperationPolicy::Merge3(m) => {
            let owner = str_eq(family, "bash") || str_eq(family, "go") || str_eq(family, "rust") || str_eq(
                family,
                "typescript",
            );
            str_eq(m.render_policy.as_str(), "source-preserving") && (!owner || (m.labels.is_none()
                && m.conflict_marker_size.is_none())) && m.extra.is_empty() && is_absent_or(
                &m.fallback_policy,
                "none",
            )
        },
        OperationPolicy::Diff2(d) => json_diff::supports(d),
    }
}

pub(crate) fn requirements_met(r: &OperationRequest) -> (b: bool)
    ensures
        b == requirements_ok(*r),
{
    let name = operation_name(r.operation.kind());
    let caps = &r.provider_selection.required_capabilities;
    let mut i: usize = 0;
    while i < caps.len()
        invariant
            i <= caps@.len(),
            name@ == operation_name_spec(policy_kind(r.operation)),
            caps == &r.provider_selection.required_capabilities,
            forall|k: int| 0 <= k < i ==> #[trigger] caps@[k]@ == name@,
        decreases caps@.len() - i,
    {
        if !str_eq(caps[i].as_str(), name) {
            return false;
        }
        i = i + 1;
    }
    let exts = &r.extensions;
    let mut j: usize = 0;
    while j < exts.len()
        invariant
            j <= exts@.len(),
            exts == &r.extensions,
            forall|k: int| 0 <= k < j ==> (#[trigger] exts@[k]).capabilities@.len() == 0,
        decreases exts@.len() - j,
    {
        if exts[j].capabilities.len() != 0 {
            return false;
        }
        j = j + 1;
    }
    true
}

fn profile_has_operation(id: &str, kind: OperationKind) -> (b: bool)
    ensures
        b == profile_ops(id@).contains(kind),
{
    let ops = profile_operations(id);
    let mut i: usize = 0;
    while i < ops.len()
        invariant
            i <= ops@.len(),
            ops@ == profile_ops(id@),
            forall|k: int| 0 <= k < i ==> ops@[k] != kind,
        decreases ops@.len() - i,
    {
        if ops[i] == kind {
            return true;
        }
        i = i + 1;
    }
    false
}

/// `a` admits `r` to the native owner profile it selects: no refusal, the
/// profile's family and provider, the parser language its dialect selects,
/// and directional owner analysis exactly for the two-way merges of the
/// directional families.
pub open spec fn native_admitted(r: OperationRequest, a: NativeAdmission) -> bool {
    &&& native_refusal_spec(r) is None
    &&& selected_target(r) == Some((a.family@, a.provider@))
    &&& native_language_spec(a.family@, opt_view(r.provider_selection.dialect)) == Some(a.language@)
    &&& a.directional_owners == (directional_family(a.family@) && policy_kind(r.operation) == OperationKind::Merge2)
}

/// Two-way merges of the go, rust and typescript families are always
/// analyzed with directional owners; no other operation is, and no two-way
/// merge of the yaml, python or bash families is.
pub proof fn law_directional_owners_for_two_way_merges(r: OperationRequest, a: NativeAdmission)
    requires
        native_admitted(r, a),
    ensures
        policy_kind(r.operation) == OperationKind::Merge2 && (a.family@ == "go"@ || a.family@ == "rust"@ || a.family@
            == "typescript"@) ==> a.directional_owners,
        policy_kind(r.operation) != OperationKind::Merge2 ==> !a.directional_owners,
        a.family@ == "yaml"@ || a.family@ == "python"@ || a.family@ == "bash"@ ==> !a.directional_owners,
{
    reveal_strlit("go");
    reveal_strlit("rust");
    reveal_strlit("typescript");
    reveal_strlit("yaml");
    reveal_strlit("python");
    reveal_strlit("bash");
    assert("yaml"@[0] != "rust"@[0] && "bash"@[0] != "rust"@[0]);
    assert("yaml"@.len() != "go"@.len() && "yaml"@.len() != "typescript"@.len());
    assert("bash"@.len() != "go"@.len() && "bash"@.len() != "typescript"@.len());
    assert("python"@.len() != "go"@.len() && "python"@.len() != "rust"@.len() && "python"@.len()
        != "typescript"@.len());
}

/// Route a request to the JSON family, or admit it to the native owner
/// profile it names, or refuse it. A JSON-family profile goes to the JSON
/// family; any other request is refused exactly when `native_refusal_spec`
/// gives a refusal, and is otherwise executed by its profile's family and
/// provider, parsing every source as the language its dialect selects.
pub fn route_native_operation(request: &OperationRequest) -> (r: Result<NativeRoute, NativeRefusal>)
    ensures
        json_family_profile(opt_view(request.provider_selection.profile_id)) ==> r == Ok::<
            NativeRoute,
            NativeRefusal,
        >(NativeRoute::JsonFamily),
        !json_family_profile(opt_view(request.provider_selection.profile_id)) ==> match r {
            Ok(NativeRoute::JsonFamily) => false,
            Ok(NativeRoute::Native(a)) => native_admitted(*request, a),
            Err(e) => native_refusal_spec(*request) == Some(e),
        },
{
    let ps = &request.provider_selection;
    let id: &str = match &ps.profile_id {
        Some(id) => id.as_str(),
        None => {
            return Err(NativeRefusal::UnsupportedProfile);
        },
    };
    if str_eq(id, JSON_NESTED) || str_eq(id, GIT_JSON) {
        return Ok(NativeRoute::JsonFamily);
    }
    let (family, provider) = match native_target(id) {
        Some(t) => t,
        None => {
            return Err(NativeRefusal::UnsupportedProfile);
        },
    };
    if !selection_ok(request, family, provider) {
        return Err(NativeRefusal::UnsupportedConstraints);
    }
    let kind = request.operation.kind();
    if !(profile_has_operation(id, kind) && policy_ok(family, &request.operation) && requirements_met(
        request,
    )) {
        return Err(NativeRefusal::UnsupportedRequirements);
    }
    let language = match native_language(family, as_deref(&ps.dialect)) {
        Some(l) => l,
        None => {
            return Err(NativeRefusal::UnsupportedConstraints);
        },
    };
    let directional_owners = (str_eq(family, "go") || str_eq(family, "rust") || str_eq(family, "typescript"))
        && kind == OperationKind::Merge2;
    Ok(NativeRoute::Native(NativeAdmission { family, provider, language, directional_owners }))
}

/// A source region an owner diff reports: the source it claims, the role,
/// the byte range and the SHA-256 of those bytes.
#[derive(Clone, Debug, PartialEq, Eq)]
pub struct DiffSourceRegion {
    pub source_id: String,
    pub source_role: SourceRole,
    pub range: ByteRange,
    pub sha256: String,
}

/// The request's document for a region, when the region names the source
/// the request has in its role.
pub open spec fn region_document(region: DiffSourceRegion, req: ValidatedOperationRequest) -> Option<SourceDocument> {
    match req.spec_request().sources.spec_get(region.source_role) {
        Some(input) => if input.source_id@ == region.source_id@ {
            req.spec_sources().lookup(region.source_id@)
        } else {
            None
        },
        None => None,
    }
}

/// A region matches the validated request: it names the request's source in
/// its role, lies within that source, and carries the digest of its bytes.
pub open spec fn diff_region_ok(region: DiffSourceRegion, req: ValidatedOperationRequest) -> bool {
    region_document(region, req) matches Some(d) && {
        &&& valid_range(region.range, d.data().len())
        &&& utf8_of(region.sha256@) == digest_hex(
            d.data().subrange(region.range.start_byte as int, region.range.end_byte as int),
        )
    }
}

/// `span` is the exact span of a region that matches the request: the
/// region's range, with the row and column of each end.
pub open spec fn span_of_region(span: ResultSpan, region: DiffSourceRegion, req: ValidatedOperationRequest) -> bool {
    diff_region_ok(region, req) && {
        let data = region_document(region, req)->0.data();
        &&& span.range.start_byte == region.range.start_byte
        &&& span.range.end_byte == region.range.end_byte
        &&& no_entries(span.range.extra)
        &&& point_at(span.start_point, data, region.range.start_byte as int)
        &&& point_at(span.end_point, data, region.range.end_byte as int)
        &&& no_entries(span.extra)
    }
}

pub open spec fn invalid_evidence_error(e: CoreError) -> bool {
    e.code@ == "operation.invalid_evidence"@ && e.message@ == "diff source region does not match the validated request"@
}

fn invalid_evidence() -> (e: CoreError)
    ensures
        e.code@ == "operation.invalid_evidence"@,
        e.message@ == "diff source region does not match the validated request"@,
{
    CoreError {
        code: owned("operation.invalid_evidence"),
        message: owned("diff source region does not match the validated request"),
    }
}

/// The exact span of a diff source region, or an evidence error when the
/// region does not match the validated request.
pub fn diff_span(region: &DiffSourceRegion, request: &ValidatedOperationRequest) -> (r: Result<ResultSpan, CoreError>)
    ensures
        match r {
            Ok(span) => span_of_region(span, *region, *request),
            Err(e) => !diff_region_ok(*region, *request) && e.code@ == "operation.invalid_evidence"@
                && e.message@ == "diff source region does not match the validated request"@,
        },
{
    let input = match request.request().sources.get(region.source_role) {
        Some(input) => input,
        None => {
            return Err(invalid_evidence());
        },
    };
    if !str_eq(input.source_id.as_str(), region.source_id.as_str()) {
        return Err(invalid_evidence());
    }
    let document = match request.sources().get(region.source_id.as_str()) {
        Ok(d) => d,
        Err(_) => {
            return Err(invalid_evidence());
        },
    };
    let digest = match document.range_digest(region.range) {
        Ok(d) => d,
        Err(_) => {
            return Err(invalid_evidence());
        },
    };
    if !str_eq(digest.as_str(), region.sha256.as_str()) {
        proof {
            vstd::utf8::encode_utf8_decode_utf8(region.sha256@);
            vstd::utf8::encode_utf8_decode_utf8(digest@);
        }
        return Err(invalid_evidence());
    }
    let start = match document.point(region.range.start_byte) {
        Ok(p) => p,
        Err(_) => {
            return Err(invalid_evidence());
        },
    };
    let end = match document.point(region.range.end_byte) {
        Ok(p) => p,
        Err(_) => {
            return Err(invalid_evidence());
        },
    };
    Ok(
        ResultSpan {
            range: ResultRange {
                start_byte: region.range.start_byte,
                end_byte: region.range.end_byte,
                extra: Metadata::new(),
            },
            start_point: ResultPoint { row: start.row, column: start.column, extra: Metadata::new() },
            end_point: ResultPoint { row: end.row, column: end.column, extra: Metadata::new() },
            extra: Metadata::new(),
        },
    )
}

/// How an owner differs between the two sides of a diff.
#[derive(Clone, Copy, Debug, PartialEq, Eq, Structural)]
pub enum OwnerChangeKind {
    Added,
    Deleted,
    Edited,
}

/// The classification a change of this kind is reported with.
pub open spec fn change_kind_name(kind: OwnerChangeKind) -> Seq<char> {
    match kind {
        OwnerChangeKind::Added => "added"@,
        OwnerChangeKind::Deleted => "deleted"@,
        OwnerChangeKind::Edited => "edited"@,
    }
}

fn change_kind_text(kind: OwnerChangeKind) -> (s: &'static str)
    ensures
        s@ == change_kind_name(kind),
{
    match kind {
        OwnerChangeKind::Added => "added",
        OwnerChangeKind::Deleted => "deleted",
        OwnerChangeKind::Edited => "edited",
    }
}

/// One side of a change: the region the subject occupies there, and that
/// region as the diff reported it, as JSON text.
#[derive(Clone, Debug, PartialEq, Eq)]
pub struct DiffSide {
    pub region: DiffSourceRegion,
    pub state: String,
}

/// One owner change an owner diff reports, with the owner's path on each
/// side and its region on each side where it exists there.
#[derive(Clone, Debug, PartialEq, Eq)]
pub struct OwnerChange {
    pub id: String,
    pub kind: OwnerChangeKind,
    pub owner_id: String,
    pub before_path: Option<String>,
    pub after_path: Option<String>,
    pub before: Option<DiffSide>,
    pub after: Option<DiffSide>,
}

/// A side that is absent, or whose region matches the request.
pub open spec fn side_ok(side: Option<DiffSide>, req: ValidatedOperationRequest) -> bool {
    match side {
        Some(s) => diff_region_ok(s.region, req),
        None => true,
    }
}

pub open spec fn side_in_role(side: Option<DiffSide>, role: SourceRole) -> bool {
    side matches Some(s) && s.region.source_role == role
}

/// The spans of a change: under each side's role, the span of that side's
/// region, the after side taking a role both sides share; no other role.
pub open spec fn spans_of_sides(
    spans: RoleMap<ResultSpan>,
    before: Option<DiffSide>,
    after: Option<DiffSide>,
    req: ValidatedOperationRequest,
) -> bool {
    forall|role: SourceRole|
        #![trigger spans.spec_get(role)]
        if side_in_role(after, role) {
            spans.spec_get(role) matches Some(s) && span_of_region(s, after->0.region, req)
        } else if side_in_role(before, role) {
            spans.spec_get(role) matches Some(s) && span_of_region(s, before->0.region, req)
        } else {
            spans.spec_get(role) is None
        }
}

/// The JSON text of a side's state; `null` where the side is absent.
pub open spec fn side_state(side: Option<DiffSide>) -> Seq<char> {
    match side {
        Some(s) => s.state@,
        None => "null"@,
    }
}

/// Exactly the two named fields, in order.
pub open spec fn two_fields(m: Metadata, k0: Seq<char>, v0: Seq<char>, k1: Seq<char>, v1: Seq<char>) -> bool {
    &&& m.entries@.len() == 2
    &&& m.entries@[0].key@ == k0 && m.entries@[0].value@ == v0
    &&& m.entries@[1].key@ == k1 && m.entries@[1].value@ == v1
}

/// The owner's path after the change, or before it where it has none after.
pub open spec fn change_path(c: OwnerChange) -> Option<Seq<char>> {
    match c.after_path {
        Some(p) => Some(p@),
        None => opt_view(c.before_path),
    }
}

/// The common change record of an owner change.
pub open spec fn owner_change_projected(rc: ResultChange, c: OwnerChange, req: ValidatedOperationRequest) -> bool {
    &&& rc.id@ == c.id@
    &&& rc.classification@ == change_kind_name(c.kind)
    &&& opt_view(rc.subject_ref) == Some(c.owner_id@)
    &&& opt_view(rc.path) == change_path(c)
    &&& two_fields(rc.role_states, "before"@, side_state(c.before), "after"@, side_state(c.after))
    &&& spans_of_sides(rc.source_spans, c.before, c.after, req)
    &&& no_entries(rc.metadata)
    &&& no_entries(rc.extra)
}

fn state_text(side: &Option<DiffSide>) -> (s: String)
    ensures
        s@ == side_state(*side),
{
    match side {
        Some(d) => copy_string(&d.state),
        None => owned("null"),
    }
}

fn field(key: &str, value: String) -> (e: MetadataEntry)
    ensures
        e.key@ == key@,
        e.value@ == value@,
{
    MetadataEntry { key: owned(key), value }
}

/// The spans of a change's sides, or the evidence error of a side whose
/// region does not match the request.
fn side_spans(before: &Option<DiffSide>, after: &Option<DiffSide>, request: &ValidatedOperationRequest) -> (r: Result<
    RoleMap<ResultSpan>,
    CoreError,
>)
    ensures
        match r {
            Ok(spans) => side_ok(*before, *request) && side_ok(*after, *request) && spans_of_sides(
                spans,
                *before,
                *after,
                *request,
            ),
            Err(e) => !(side_ok(*before, *request) && side_ok(*after, *request)) && invalid_evidence_error(e),
        },
{
    let mut spans: RoleMap<ResultSpan> = RoleMap::new();
    if let Some(b) = before {
        match diff_span(&b.region, request) {
            Ok(span) => {
                spans.insert(b.region.source_role, span);
            },
            Err(e) => {
                return Err(e);
            },
        }
    }
    if let Some(a) = after {
        match diff_span(&a.region, request) {
            Ok(span) => {
                spans.insert(a.region.source_role, span);
            },
            Err(e) => {
                return Err(e);
            },
        }
    }
    Ok(spans)
}

/// The common change record of an owner change: its identity, its kind's
/// classification, the owner as subject, the owner's latest path, each
/// side's reported state, and the exact span of each side's region, or the
/// evidence error when a region does not match the validated request.
pub fn project_owner_change(change: &OwnerChange, request: &ValidatedOperationRequest) -> (r: Result<
    ResultChange,
    CoreError,
>)
    ensures
        match r {
            Ok(rc) => side_ok(change.before, *request) && side_ok(change.after, *request)
                && owner_change_projected(rc, *change, *request),
            Err(e) => !(side_ok(change.before, *request) && side_ok(change.after, *request))
                && invalid_evidence_error(e),
        },
{
    let spans = match side_spans(&change.before, &change.after, request) {
        Ok(spans) => spans,
        Err(e) => {
            return Err(e);
        },
    };
    let path = match &change.after_path {
        Some(p) => Some(copy_string(p)),
        None => copy_opt_string(&change.before_path),
    };
    Ok(
        ResultChange {
            id: copy_string(&change.id),
            classification: owned(change_kind_text(change.kind)),
            subject_ref: Some(copy_string(&change.owner_id)),
            path,
            role_states: Metadata {
                entries: vec![
                    field("before", state_text(&change.before)),
                    field("after", state_text(&change.after)),
                ],
            },
            source_spans: spans,
            metadata: Metadata::new(),
            extra: Metadata::new(),
        },
    )
}

/// The region that covers a whole source, with the source's own digest.
pub fn whole_source_region(document: &SourceDocument) -> (r: DiffSourceRegion)
    ensures
        r.source_id@ == document.desc().source_id@,
        r.source_role == document.desc().role,
        r.range.start_byte == 0,
        r.range.end_byte == document.data().len(),
        r.sha256@ == document.desc().sha256@,
{
    let d = document.descriptor();
    DiffSourceRegion {
        source_id: copy_string(&d.source_id),
        source_role: d.role,
        range: ByteRange { start_byte: 0, end_byte: document.bytes().len() },
        sha256: copy_string(&d.sha256),
    }
}

/// Exact owner comparisons leave comment and layout changes out, so the
/// named-declaration families add a whole-document summary whenever the two
/// sources' bytes differ.
pub fn document_change_owed(family: &str, before: &SourceDocument, after: &SourceDocument) -> (b: bool)
    ensures
        b == (owner_family(family@) && before.data() != after.data()),
{
    let named = str_eq(family, "bash") || str_eq(family, "go") || str_eq(family, "rust") || str_eq(
        family,
        "typescript",
    );
    named && !bytes_eq(before.bytes(), after.bytes())
}

/// The JSON text of the summary's scope.
pub open spec fn summary_scope() -> Seq<char> {
    "\"complete-source-summary\""@
}

/// The whole-document summary change: it overlaps the owner changes and is
/// no executable edit.
pub open spec fn document_change_projected(
    rc: ResultChange,
    before: DiffSide,
    after: DiffSide,
    req: ValidatedOperationRequest,
) -> bool {
    &&& rc.id@ == "document-change"@
    &&& rc.classification@ == "edited"@
    &&& opt_view(rc.subject_ref) == Some("document"@)
    &&& rc.path is None
    &&& two_fields(rc.role_states, "before"@, before.state@, "after"@, after.state@)
    &&& spans_of_sides(rc.source_spans, Some(before), Some(after), req)
    &&& rc.metadata.entries@.len() == 1
    &&& rc.metadata.entries@[0].key@ == "scope"@
    &&& rc.metadata.entries@[0].value@ == summary_scope()
    &&& no_entries(rc.extra)
}

/// The whole-document summary change of two sides, or the evidence error
/// when a side's region does not match the validated request.
pub fn project_document_change(before: &DiffSide, after: &DiffSide, request: &ValidatedOperationRequest) -> (r: Result<
    ResultChange,
    CoreError,
>)
    ensures
        match r {
            Ok(rc) => diff_region_ok(before.region, *request) && diff_region_ok(after.region, *request)
                && document_change_projected(rc, *before, *after, *request),
            Err(e) => !(diff_region_ok(before.region, *request) && diff_region_ok(after.region, *request))
                && invalid_evidence_error(e),
        },
{
    let mut spans: RoleMap<ResultSpan> = RoleMap::new();
    match diff_span(&before.region, request) {
        Ok(span) => {
            spans.insert(before.region.source_role, span);
        },
        Err(e) => {
            return Err(e);
        },
    }
    match diff_span(&after.region, request) {
        Ok(span) => {
            spans.insert(after.region.source_role, span);
        },
        Err(e) => {
            return Err(e);
        },
    }
    Ok(
        ResultChange {
            id: owned("document-change"),
            classification: owned("edited"),
            subject_ref: Some(owned("document")),
            path: None,
            role_states: Metadata {
                entries: vec![field("before", copy_string(&before.state)), field("after", copy_string(&after.state))],
            },
            source_spans: spans,
            metadata: Metadata { entries: vec![field("scope", owned("\"complete-source-summary\""))] },
            extra: Metadata::new(),
        },
    )
}

/// The diff record of a result: the identities of its changes in order,
/// with the owner diff as JSON text.
pub fn diff_record(changes: &Vec<ResultChange>, owner_diff: String) -> (d: ResultDiff)
    ensures
        string_views(d.change_ids@) == change_ids(changes@),
        d.extra.entries@.len() == 1,
        d.extra.entries@[0].key@ == "owner_diff"@,
        d.extra.entries@[0].value@ == owner_diff@,
{
    let mut ids: Vec<String> = Vec::new();
    let mut i: usize = 0;
    while i < changes.len()
        invariant
            i <= changes@.len(),
            string_views(ids@) == change_ids(changes@.take(i as int)),
        decreases changes@.len() - i,
    {
        proof {
            assert(change_ids(changes@.take(i + 1)) =~= change_ids(changes@.take(i as int)).push(changes@[i as int].id@));
        }
        ids.push(copy_string(&changes[i].id));
        proof {
            assert(string_views(ids@) =~= change_ids(changes@.take(i as int)).push(changes@[i as int].id@));
        }
        i = i + 1;
    }
    proof {
        assert(changes@.take(changes@.len() as int) =~= changes@);
    }
    ResultDiff { change_ids: ids, extra: Metadata { entries: vec![field("owner_diff", owner_diff)] } }
}

/// An owner decision of a directional merge: the owner, its path, whether
/// the merge adds the incoming owner alone, and the owner's incoming side.
#[derive(Clone, Debug, PartialEq, Eq)]
pub struct DirectionalDecision {
    pub owner_id: String,
    pub path: String,
    pub adds_incoming_only: bool,
    pub incoming: Option<DiffSide>,
}

/// The decisions that add an incoming owner alone, in order.
pub open spec fn additions(ds: Seq<DirectionalDecision>) -> Seq<DirectionalDecision>
    decreases ds.len(),
{
    if ds.len() == 0 {
        Seq::empty()
    } else {
        let rest = additions(ds.drop_last());
        if ds.last().adds_incoming_only {
            rest.push(ds.last())
        } else {
            rest
        }
    }
}

/// Every addition's incoming region matches the request.
pub open spec fn additions_ok(ds: Seq<DirectionalDecision>, req: ValidatedOperationRequest) -> bool {
    forall|i: int|
        0 <= i < ds.len() && (#[trigger] ds[i]).adds_incoming_only ==> (ds[i].incoming matches Some(side)
            && diff_region_ok(side.region, req))
}

/// The `k`-th added owner's change record: it adds the incoming owner, with
/// the span of its incoming region under the incoming role alone.
pub open spec fn addition_projected(
    rc: ResultChange,
    d: DirectionalDecision,
    k: nat,
    req: ValidatedOperationRequest,
) -> bool {
    &&& rc.id@ == "change-"@ + decimal(k)
    &&& rc.classification@ == "added"@
    &&& opt_view(rc.subject_ref) == Some(d.owner_id@)
    &&& opt_view(rc.path) == Some(d.path@)
    &&& two_fields(rc.role_states, "incoming"@, side_state(d.incoming), "current"@, "null"@)
    &&& forall|role: SourceRole|
        #![trigger rc.source_spans.spec_get(role)]
        if role == SourceRole::Incoming {
            rc.source_spans.spec_get(role) matches Some(s) && span_of_region(s, d.incoming->0.region, req)
        } else {
            rc.source_spans.spec_get(role) is None
        }
    &&& no_entries(rc.metadata)
    &&& no_entries(rc.extra)
}

proof fn lemma_additions_step(ds: Seq<DirectionalDecision>, i: int)
    requires
        0 <= i < ds.len(),
    ensures
        additions(ds.take(i + 1)) == if ds[i].adds_incoming_only {
            additions(ds.take(i)).push(ds[i])
        } else {
            additions(ds.take(i))
        },
{
    assert(ds.take(i + 1).drop_last() =~= ds.take(i));
}

/// The change records of a successful directional merge: one `added`
/// change per decision that adds an incoming owner alone, numbered in
/// decision order, or the evidence error when an added owner's incoming
/// region does not match the validated request.
pub fn project_incoming_additions(decisions: &Vec<DirectionalDecision>, request: &ValidatedOperationRequest) -> (r:
    Result<Vec<ResultChange>, CoreError>)
    requires
        forall|i: int|
            0 <= i < decisions@.len() && (#[trigger] decisions@[i]).adds_incoming_only ==> decisions@[i].incoming is Some,
    ensures
        match r {
            Ok(v) => {
                &&& additions_ok(decisions@, *request)
                &&& v@.len() == additions(decisions@).len()
                &&& forall|k: int|
                    0 <= k < v@.len() ==> addition_projected(
                        #[trigger] v@[k],
                        additions(decisions@)[k],
                        k as nat,
                        *request,
                    )
            },
            Err(e) => !additions_ok(decisions@, *request) && invalid_evidence_error(e),
        },
{
    let ghost ds = decisions@;
    let mut out: Vec<ResultChange> = Vec::new();
    let mut i: usize = 0;
    while i < decisions.len()
        invariant
            ds == decisions@,
            i <= ds.len(),
            forall|j: int| 0 <= j < ds.len() && (#[trigger] ds[j]).adds_incoming_only ==> ds[j].incoming is Some,
            forall|j: int|
                0 <= j < i && (#[trigger] ds[j]).adds_incoming_only ==> (ds[j].incoming matches Some(side)
                    && diff_region_ok(side.region, *request)),
            out@.len() == additions(ds.take(i as int)).len(),
            forall|k: int|
                0 <= k < out@.len() ==> addition_projected(
                    #[trigger] out@[k],
                    additions(ds.take(i as int))[k],
                    k as nat,
                    *request,
                ),
        decreases ds.len() - i,
    {
        proof {
            lemma_additions_step(ds, i as int);
        }
        let d = &decisions[i];
        if d.adds_incoming_only {
            let side = match &d.incoming {
                Some(side) => side,
                None => vstd::pervasive::unreached(),
            };
            let span = match diff_span(&side.region, request) {
                Ok(span) => span,
                Err(e) => {
                    return Err(e);
                },
            };
            let mut spans: RoleMap<ResultSpan> = RoleMap::new();
            spans.insert(SourceRole::Incoming, span);
            let mut id = owned("change-");
            push_decimal(&mut id, out.len());
            let change = ResultChange {
                id,
                classification: owned("added"),
                subject_ref: Some(copy_string(&d.owner_id)),
                path: Some(copy_string(&d.path)),
                role_states: Metadata {
                    entries: vec![field("incoming", copy_string(&side.state)), field("current", owned("null"))],
                },
                source_spans: spans,
                metadata: Metadata::new(),
                extra: Metadata::new(),
            };
            let ghost before = out@;
            out.push(change);
            proof {
                assert forall|k: int| 0 <= k < out@.len() implies addition_projected(
                    #[trigger] out@[k],
                    additions(ds.take(i + 1))[k],
                    k as nat,
                    *request,
                ) by {
                    if k < before.len() {
                        assert(out@[k] == before[k]);
                    }
                }
            }
        }
        i = i + 1;
    }
    proof {
        assert(ds.take(ds.len() as int) =~= ds);
    }
    Ok(out)
}

/// A byte segment of a directional merge's output: the source region it
/// retains, with that region's digest, and its range in the output as the
/// renderer reported it, as JSON text.
#[derive(Clone, Debug, PartialEq, Eq)]
pub struct DirectionalSegment {
    pub source_id: String,
    pub source_role: SourceRole,
    pub source_range: ByteRange,
    pub sha256: String,
    pub output_range: String,
}

/// A directional merge that rendered an accepted output: the output, the
/// source segments it is made of, the owner decisions, and the owner
/// classification and segment list as the engine reported them, as JSON
/// text.
#[derive(Clone, Debug, PartialEq, Eq)]
pub struct DirectionalRendering {
    pub output: String,
    pub segments: Vec<DirectionalSegment>,
    pub decisions: Vec<DirectionalDecision>,
    pub classification: String,
    pub segment_records: String,
}

/// A required preservation property that passed.
pub open spec fn property_passed(p: PreservationProperty, name: Seq<char>) -> bool {
    &&& p.property@ == name
    &&& p.required
    &&& p.status@ == "passed"@
    &&& no_entries(p.extra)
}

/// The retained source region a rendered segment is reported as: the
/// segment's source, range and digest, with its output range kept beside.
pub open spec fn region_retained(r: ResultSourceRegion, s: DirectionalSegment) -> bool {
    &&& r.source_id@ == s.source_id@
    &&& r.source_role == s.source_role
    &&& r.range.start_byte == s.source_range.start_byte
    &&& r.range.end_byte == s.source_range.end_byte
    &&& no_entries(r.range.extra)
    &&& opt_view(r.sha256) == Some(s.sha256@)
    &&& r.extra.entries@.len() == 1
    &&& r.extra.entries@[0].key@ == "output_range"@
    &&& r.extra.entries@[0].value@ == s.output_range@
}

/// `res` is `draft` completed by an accepted directional merge of `req`:
/// successful with the rendered output; classification reached, directional
/// roles preserved and every source role consumed; the output reparsed and
/// structurally equivalent; the exact source partition and the retention
/// of all current bytes passed; one retained region per segment, in order;
/// one change per added incoming owner; the owner classification recorded;
/// and the render report naming the producer, the directional source plan
/// and its segments. Nothing else of the draft changes.
pub open spec fn directional_assembled(
    res: OperationResult,
    draft: OperationResult,
    rendering: DirectionalRendering,
    provider: Seq<char>,
    req: ValidatedOperationRequest,
) -> bool {
    let v = res.verification;
    let dv = draft.verification;
    &&& res.ok
    &&& opt_view(res.output) == Some(rendering.output@)
    &&& v.classification_reached == Some(true)
    &&& v.directional_roles_preserved == Some(true)
    &&& v.consumed_source_roles matches Some(roles) && roles@ == kind_roles(policy_kind(req.spec_request().operation))
    &&& v.output_reparsed == Some(true)
    &&& v.structural_equivalence == Some(true)
    &&& v.preservation matches Some(p) && p@.len() == 2 && property_passed(p@[0], "exact-source-partition"@)
        && property_passed(p@[1], "all-current-bytes-retained"@)
    &&& v.retained_source_regions matches Some(regions) && regions@.len() == rendering.segments@.len() && forall|k: int|
        0 <= k < regions@.len() ==> region_retained(#[trigger] regions@[k], rendering.segments@[k])
    &&& v.base_participated == dv.base_participated
    &&& field_set(v.extra.entries@, dv.extra.entries@, "owner_classification"@, rendering.classification@)
    &&& res.changes@.len() == additions(rendering.decisions@).len()
    &&& forall|k: int|
        0 <= k < res.changes@.len() ==> addition_projected(
            #[trigger] res.changes@[k],
            additions(rendering.decisions@)[k],
            k as nat,
            req,
        )
    &&& res.render_report.entries@.len() == 3
    &&& res.render_report.entries@[0].key@ == "producer"@
    &&& res.render_report.entries@[0].value@ == json_string(provider)
    &&& res.render_report.entries@[1].key@ == "strategy"@
    &&& res.render_report.entries@[1].value@ == "\"directional-source-plan\""@
    &&& res.render_report.entries@[2].key@ == "source_segments"@
    &&& res.render_report.entries@[2].value@ == rendering.segment_records@
    &&& res.schema == draft.schema && res.request_id == draft.request_id && res.operation == draft.operation
    &&& res.provider == draft.provider && res.profile == draft.profile
    &&& res.diagnostics == draft.diagnostics && res.conflicts == draft.conflicts && res.fallbacks == draft.fallbacks
    &&& res.analysis == draft.analysis && res.diff == draft.diff && res.conflicted_output == draft.conflicted_output
    &&& res.extensions == draft.extensions && res.metadata == draft.metadata && res.extra == draft.extra
}

/// Complete a draft result with a directional merge that rendered an
/// accepted output, or the evidence error when an added owner's incoming
/// region does not match the validated request. The draft holds no change
/// yet: the added owners are numbered from the first.
pub fn directional_success(
    draft: OperationResult,
    rendering: DirectionalRendering,
    provider: &str,
    request: &ValidatedOperationRequest,
) -> (r: Result<OperationResult, CoreError>)
    requires
        draft.changes@.len() == 0,
        forall|i: int|
            0 <= i < rendering.decisions@.len() && (#[trigger] rendering.decisions@[i]).adds_incoming_only
                ==> rendering.decisions@[i].incoming is Some,
    ensures
        match r {
            Ok(res) => additions_ok(rendering.decisions@, *request) && directional_assembled(
                res,
                draft,
                rendering,
                provider@,
                *request,
            ),
            Err(e) => !additions_ok(rendering.decisions@, *request) && invalid_evidence_error(e),
        },
{
    let changes = match project_incoming_additions(&rendering.decisions, request) {
        Ok(v) => v,
        Err(e) => {
            return Err(e);
        },
    };
    let ghost segs = rendering.segments@;
    let mut regions: Vec<ResultSourceRegion> = Vec::new();
    let mut i: usize = 0;
    while i < rendering.segments.len()
        invariant
            segs == rendering.segments@,
            i <= segs.len(),
            regions@.len() == i,
            forall|k: int| 0 <= k < i ==> region_retained(#[trigger] regions@[k], segs[k]),
        decreases segs.len() - i,
    {
        let segment = &rendering.segments[i];
        regions.push(
            ResultSourceRegion {
                source_id: copy_string(&segment.source_id),
                source_role: segment.source_role,
                range: ResultRange {
                    start_byte: segment.source_range.start_byte,
                    end_byte: segment.source_range.end_byte,
                    extra: Metadata::new(),
                },
                sha256: Some(copy_string(&segment.sha256)),
                extra: Metadata { entries: vec![field("output_range", copy_string(&segment.output_range))] },
            },
        );
        i = i + 1;
    }
    let mut res = draft;
    res.ok = true;
    res.output = Some(rendering.output);
    res.verification.classification_reached = Some(true);
    res.verification.directional_roles_preserved = Some(true);
    res.verification.consumed_source_roles = Some(request.request().operation.kind().source_roles());
    res.verification.output_reparsed = Some(true);
    res.verification.structural_equivalence = Some(true);
    res.verification.preservation = Some(
        vec![
            PreservationProperty {
                property: owned("exact-source-partition"),
                required: true,
                status: owned("passed"),
                extra: Metadata::new(),
            },
            PreservationProperty {
                property: owned("all-current-bytes-retained"),
                required: true,
                status: owned("passed"),
                extra: Metadata::new(),
            },
        ],
    );
    res.verification.retained_source_regions = Some(regions);
    res.changes = changes;
    res.verification.extra.insert(owned("owner_classification"), rendering.classification);
    res.render_report = Metadata {
        entries: vec![
            field("producer", json_string_text(provider)),
            field("strategy", owned("\"directional-source-plan\"")),
            field("source_segments", rendering.segment_records),
        ],
    };
    Ok(res)
}

/// The stage at which a directional merge stopped without an accepted
/// output, as the merge reports it.
#[derive(Clone, Copy, Debug, PartialEq, Eq, Structural)]
pub enum DirectionalFailureStage {
    Planning,
    Rendering,
    Verification,
}

/// The category, code and layer of a directional merge that stopped
/// without an accepted output: planning is an unsupported feature of the
/// analysis, rendering a renderer error, and anything else a verifier
/// error.
pub open spec fn directional_failure_spec(stage: Option<DirectionalFailureStage>) -> (
    PortableCategory,
    Seq<char>,
    DiagnosticLayer,
) {
    match stage {
        Some(DirectionalFailureStage::Planning) => (
            PortableCategory::UnsupportedFeature,
            "merge2.plan_unsupported"@,
            DiagnosticLayer::Analysis,
        ),
        Some(DirectionalFailureStage::Rendering) => (
            PortableCategory::RenderError,
            "merge2.render_rejected"@,
            DiagnosticLayer::Renderer,
        ),
        _ => (PortableCategory::VerificationError, "merge2.verification_rejected"@, DiagnosticLayer::Verifier),
    }
}

/// The message of every directional merge failure diagnostic.
pub const DIRECTIONAL_FAILURE_MESSAGE: &'static str = "directional merge could not prove an accepted output";

pub fn directional_failure(stage: Option<DirectionalFailureStage>) -> (r: (
    PortableCategory,
    &'static str,
    DiagnosticLayer,
))
    ensures
        (r.0, r.1@, r.2) == directional_failure_spec(stage),
{
    match stage {
        Some(DirectionalFailureStage::Planning) => (
            PortableCategory::UnsupportedFeature,
            "merge2.plan_unsupported",
            DiagnosticLayer::Analysis,
        ),
        Some(DirectionalFailureStage::Rendering) => (
            PortableCategory::RenderError,
            "merge2.render_rejected",
            DiagnosticLayer::Renderer,
        ),
        _ => (PortableCategory::VerificationError, "merge2.verification_rejected", DiagnosticLayer::Verifier),
    }
}

/// The fields every native error diagnostic shares: the `sequence`-th
/// diagnostic of the result, blocking, for the result's operation and
/// request, from the result's provider at `layer`, with no subject, cause,
/// relation, package, extension or unknown field.
pub open spec fn error_diagnostic(
    d: PortableDiagnostic,
    result: OperationResult,
    sequence: nat,
    category: PortableCategory,
    code: Seq<char>,
    message: Seq<char>,
    layer: DiagnosticLayer,
) -> bool {
    &&& d.schema@ == DIAGNOSTIC_SCHEMA@
    &&& d.id@ == "diagnostic."@ + decimal(sequence)
    &&& d.sequence == sequence
    &&& d.severity == DiagnosticSeverity::Error
    &&& d.category == category
    &&& d.code@ == code
    &&& d.message@ == message
    &&& d.blocking
    &&& d.operation == Some(result.operation)
    &&& opt_view(d.request_id) == Some(result.request_id@)
    &&& d.subject_refs is None
    &&& d.cause_ids@.len() == 0
    &&& d.related_ids@.len() == 0
    &&& d.origin.layer == layer
    &&& opt_view(d.origin.provider_id) == opt_view(result.provider.provider_id)
    &&& d.origin.package is None
    &&& d.origin.package_version is None
    &&& no_entries(d.origin.extra)
    &&& d.extensions@.len() == 0
    &&& no_entries(d.metadata)
    &&& no_entries(d.extra)
}

/// An error diagnostic with no backend, native code or data.
pub open spec fn plain_diagnostic(
    d: PortableDiagnostic,
    result: OperationResult,
    sequence: nat,
    category: PortableCategory,
    code: Seq<char>,
    message: Seq<char>,
    layer: DiagnosticLayer,
) -> bool {
    &&& error_diagnostic(d, result, sequence, category, code, message, layer)
    &&& d.origin.backend_id is None
    &&& d.origin.native_code is None
    &&& no_entries(d.data)
}

fn numbered_diagnostic(
    result: &OperationResult,
    sequence: usize,
    category: PortableCategory,
    code: &str,
    message: String,
    layer: DiagnosticLayer,
    source_refs: Vec<DiagnosticSourceRef>,
) -> (d: PortableDiagnostic)
    ensures
        plain_diagnostic(d, *result, sequence as nat, category, code@, message@, layer),
        d.source_refs@ == source_refs@,
{
    let mut id = owned("diagnostic.");
    push_decimal(&mut id, sequence);
    PortableDiagnostic {
        schema: owned(DIAGNOSTIC_SCHEMA),
        id,
        sequence: sequence as u64,
        severity: DiagnosticSeverity::Error,
        category,
        code: owned(code),
        message,
        blocking: true,
        operation: Some(result.operation),
        request_id: Some(copy_string(&result.request_id)),
        source_refs,
        subject_refs: None,
        cause_ids: Vec::new(),
        related_ids: Vec::new(),
        origin: DiagnosticOrigin {
            layer,
            provider_id: copy_opt_string(&result.provider.provider_id),
            backend_id: None,
            package: None,
            package_version: None,
            native_code: None,
            extra: Metadata::new(),
        },
        data: Metadata::new(),
        extensions: Vec::new(),
        metadata: Metadata::new(),
        extra: Metadata::new(),
    }
}

/// The next blocking error diagnostic of a result: numbered after the
/// diagnostics it has, for its operation, request and provider.
pub fn native_diagnostic(
    result: &OperationResult,
    category: PortableCategory,
    code: &str,
    message: String,
    layer: DiagnosticLayer,
    source_refs: Vec<DiagnosticSourceRef>,
) -> (d: PortableDiagnostic)
    ensures
        plain_diagnostic(d, *result, result.diagnostics@.len(), category, code@, message@, layer),
        d.source_refs@ == source_refs@,
{
    numbered_diagnostic(result, result.diagnostics.len(), category, code, message, layer, source_refs)
}

/// The public message of a parser service failure diagnostic; the native
/// exception text is never copied into it.
pub const SERVICE_FAILURE_MESSAGE: &'static str = "operation could not complete the parser service call";

/// The diagnostic of a parser service failure: its category and stable core
/// code from the runner, with the failing backend and the provider's native
/// code in the origin and the selection report, if any, as data.
pub open spec fn service_diagnostic(d: PortableDiagnostic, result: OperationResult, sequence: nat, e: ServiceError) -> bool {
    &&& error_diagnostic(
        d,
        result,
        sequence,
        service_category(e),
        service_code(e),
        SERVICE_FAILURE_MESSAGE@,
        DiagnosticLayer::Runner,
    )
    &&& d.source_refs@.len() == 0
    &&& opt_view(d.origin.backend_id) == failure_evidence(e).0
    &&& opt_view(d.origin.native_code) == failure_evidence(e).1
    &&& match failure_evidence(e).4 {
        Some(selection) => {
            &&& d.data.entries@.len() == 1
            &&& d.data.entries@[0].key@ == "selection"@
            &&& d.data.entries@[0].value@ == selection
        },
        None => no_entries(d.data),
    }
}

fn numbered_service_diagnostic(result: &OperationResult, sequence: usize, error: &ServiceError) -> (d: PortableDiagnostic)
    ensures
        service_diagnostic(d, *result, sequence as nat, *error),
{
    let category = service_failure_category(error);
    let failure = ParserFailure::from_service(error);
    let mut d = numbered_diagnostic(
        result,
        sequence,
        category,
        failure.code.as_str(),
        owned(SERVICE_FAILURE_MESSAGE),
        DiagnosticLayer::Runner,
        Vec::new(),
    );
    d.origin.backend_id = failure.backend_id;
    d.origin.native_code = failure.native_code;
    if let Some(selection) = failure.selection {
        d.data = Metadata { entries: vec![field("selection", selection)] };
    }
    d
}

/// The next diagnostic of a result whose parser service call failed.
pub fn service_failure_diagnostic(result: &OperationResult, error: &ServiceError) -> (d: PortableDiagnostic)
    ensures
        service_diagnostic(d, *result, result.diagnostics@.len(), *error),
{
    numbered_service_diagnostic(result, result.diagnostics.len(), error)
}

/// What one diagnostic of a stopped native execution says: category, code,
/// message, layer and the source it names, if any.
pub type FailureEntry = (PortableCategory, Seq<char>, Seq<char>, DiagnosticLayer, Option<(Seq<char>, SourceRole)>);

/// One entry per parse a native parser rejected, in parse order.
pub open spec fn rejected_entries(ps: Seq<ParseEvidence>) -> Seq<FailureEntry>
    decreases ps.len(),
{
    if ps.len() == 0 {
        Seq::empty()
    } else {
        let rest = rejected_entries(ps.drop_last());
        if !ps.last().ok {
            rest.push(
                (
                    PortableCategory::ParseError,
                    "parse.rejected"@,
                    "native parser rejected input"@,
                    DiagnosticLayer::Parser,
                    Some((ps.last().source_id@, ps.last().source_role)),
                ),
            )
        } else {
            rest
        }
    }
}

pub open spec fn analysis_entry(f: AnalysisFailure) -> FailureEntry {
    (
        PortableCategory::UnsupportedFeature,
        "analysis.unsupported"@,
        f.message@,
        DiagnosticLayer::Analysis,
        Some((f.source_id@, f.source_role)),
    )
}

/// The diagnostics a stopped native execution is reported with, other than
/// a parser service failure.
pub open spec fn failure_entries(e: NativeMergeError) -> Seq<FailureEntry> {
    match e {
        NativeMergeError::NativeParseRejected { parses, .. } => rejected_entries(parses@),
        NativeMergeError::AnalysisRejected { failures, .. } => failures@.map_values(|f: AnalysisFailure| analysis_entry(f)),
        NativeMergeError::InvalidInputs => seq![
            (
                PortableCategory::InvalidRequest,
                "request.invalid"@,
                "invalid native operation inputs"@,
                DiagnosticLayer::Transport,
                None,
            ),
        ],
        NativeMergeError::Unsupported(message) => seq![
            (PortableCategory::UnsupportedFeature, "operation.unsupported"@, message@, DiagnosticLayer::Provider, None),
        ],
        _ => Seq::empty(),
    }
}

/// The diagnostic of one entry, with the entry's source as its one
/// reference, without a span.
pub open spec fn entry_diagnostic(d: PortableDiagnostic, result: OperationResult, sequence: nat, entry: FailureEntry) -> bool {
    &&& plain_diagnostic(d, result, sequence, entry.0, entry.1, entry.2, entry.3)
    &&& match entry.4 {
        Some((id, role)) => {
            &&& d.source_refs@.len() == 1
            &&& d.source_refs@[0].source_id@ == id
            &&& d.source_refs@[0].role == role
            &&& d.source_refs@[0].span is None
            &&& no_entries(d.source_refs@[0].extra)
        },
        None => d.source_refs@.len() == 0,
    }
}

/// How many diagnostics a stopped native execution can be reported with.
pub open spec fn failure_size(e: NativeMergeError) -> nat {
    match e {
        NativeMergeError::NativeParseRejected { parses, .. } => parses@.len(),
        NativeMergeError::AnalysisRejected { failures, .. } => failures@.len(),
        _ => 1,
    }
}

fn source_ref(source_id: &String, role: SourceRole) -> (r: Vec<DiagnosticSourceRef>)
    ensures
        r@.len() == 1,
        r@[0].source_id@ == source_id@,
        r@[0].role == role,
        r@[0].span is None,
        no_entries(r@[0].extra),
{
    vec![DiagnosticSourceRef { source_id: copy_string(source_id), role, span: None, extra: Metadata::new() }]
}

proof fn lemma_rejected_step(ps: Seq<ParseEvidence>, i: int)
    requires
        0 <= i < ps.len(),
    ensures
        rejected_entries(ps.take(i + 1)) == if !ps[i].ok {
            rejected_entries(ps.take(i)).push(
                (
                    PortableCategory::ParseError,
                    "parse.rejected"@,
                    "native parser rejected input"@,
                    DiagnosticLayer::Parser,
                    Some((ps[i].source_id@, ps[i].source_role)),
                ),
            )
        } else {
            rejected_entries(ps.take(i))
        },
        rejected_entries(ps.take(i)).len() <= i,
    decreases i,
{
    assert(ps.take(i + 1).drop_last() =~= ps.take(i));
    if i > 0 {
        lemma_rejected_step(ps, i - 1);
    }
}

/// The diagnostics a stopped native execution adds to a result, numbered
/// after the diagnostics it has: a parser service failure becomes its
/// service diagnostic; a rejected parse, one parse diagnostic per rejected
/// source; an analysis rejection, one diagnostic per rejected source with
/// the analysis's message; invalid inputs and an unsupported feature, one
/// diagnostic each.
pub fn execution_failure_diagnostics(result: &OperationResult, error: &NativeMergeError) -> (v: Vec<PortableDiagnostic>)
    requires
        result.diagnostics@.len() + failure_size(*error) <= usize::MAX,
    ensures
        match *error {
            NativeMergeError::Parse(e) => v@.len() == 1 && service_diagnostic(v@[0], *result, result.diagnostics@.len(), e),
            NativeMergeError::InputParseFailed { error: e, .. } => v@.len() == 1 && service_diagnostic(
                v@[0],
                *result,
                result.diagnostics@.len(),
                e,
            ),
            _ => {
                &&& v@.len() == failure_entries(*error).len()
                &&& forall|k: int|
                    0 <= k < v@.len() ==> entry_diagnostic(
                        #[trigger] v@[k],
                        *result,
                        (result.diagnostics@.len() + k) as nat,
                        failure_entries(*error)[k],
                    )
            },
        },
{
    let first = result.diagnostics.len();
    match error {
        NativeMergeError::Parse(e) => vec![numbered_service_diagnostic(result, first, e)],
        NativeMergeError::InputParseFailed { error: e, .. } => vec![numbered_service_diagnostic(result, first, e)],
        NativeMergeError::NativeParseRejected { parses, .. } => {
            let ghost ps = parses@;
            let mut out: Vec<PortableDiagnostic> = Vec::new();
            let mut i: usize = 0;
            while i < parses.len()
                invariant
                    ps == parses@,
                    i <= ps.len(),
                    first == result.diagnostics@.len(),
                    first + ps.len() <= usize::MAX,
                    out@.len() == rejected_entries(ps.take(i as int)).len(),
                    out@.len() <= i,
                    forall|k: int|
                        0 <= k < out@.len() ==> entry_diagnostic(
                            #[trigger] out@[k],
                            *result,
                            (first + k) as nat,
                            rejected_entries(ps.take(i as int))[k],
                        ),
                decreases ps.len() - i,
            {
                proof {
                    lemma_rejected_step(ps, i as int);
                }
                let p = &parses[i];
                if !p.ok {
                    let d = numbered_diagnostic(
                        result,
                        first + out.len(),
                        PortableCategory::ParseError,
                        "parse.rejected",
                        owned("native parser rejected input"),
                        DiagnosticLayer::Parser,
                        source_ref(&p.source_id, p.source_role),
                    );
                    let ghost before = out@;
                    out.push(d);
                    proof {
                        assert forall|k: int| 0 <= k < out@.len() implies entry_diagnostic(
                            #[trigger] out@[k],
                            *result,
                            (first + k) as nat,
                            rejected_entries(ps.take(i + 1))[k],
                        ) by {
                            if k < before.len() {
                                assert(out@[k] == before[k]);
                            }
                        }
                    }
                }
                i = i + 1;
            }
            proof {
                assert(ps.take(ps.len() as int) =~= ps);
            }
            out
        },
        NativeMergeError::AnalysisRejected { failures, .. } => {
            let ghost fs = failures@;
            let mut out: Vec<PortableDiagnostic> = Vec::new();
            let mut i: usize = 0;
            while i < failures.len()
                invariant
                    fs == failures@,
                    i <= fs.len(),
                    first == result.diagnostics@.len(),
                    first + fs.len() <= usize::MAX,
                    out@.len() == i,
                    forall|k: int|
                        0 <= k < i ==> entry_diagnostic(
                            #[trigger] out@[k],
                            *result,
                            (first + k) as nat,
                            analysis_entry(fs[k]),
                        ),
                decreases fs.len() - i,
            {
                let f = &failures[i];
                let d = numbered_diagnostic(
                    result,
                    first + i,
                    PortableCategory::UnsupportedFeature,
                    "analysis.unsupported",
                    copy_string(&f.message),
                    DiagnosticLayer::Analysis,
                    source_ref(&f.source_id, f.source_role),
                );
                out.push(d);
                i = i + 1;
            }
            out
        },
        NativeMergeError::InvalidInputs => vec![
            numbered_diagnostic(
                result,
                first,
                PortableCategory::InvalidRequest,
                "request.invalid",
                owned("invalid native operation inputs"),
                DiagnosticLayer::Transport,
                Vec::new(),
            ),
        ],
        NativeMergeError::Unsupported(message) => vec![
            numbered_diagnostic(
                result,
                first,
                PortableCategory::UnsupportedFeature,
                "operation.unsupported",
                copy_string(message),
                DiagnosticLayer::Provider,
                Vec::new(),
            ),
        ],
    }
}

/// The span of a region that matches the request lies in the request's
/// source for the region's role, with exact points.
proof fn lemma_region_span_ok(span: ResultSpan, region: DiffSourceRegion, req: ValidatedOperationRequest)
    requires
        span_of_region(span, region, req),
    ensures
        span_ok(region.source_role, span, req),
{
}

/// An absent span, or one that passes the validator's span check.
pub open spec fn span_checked(o: Option<ResultSpan>, role: SourceRole, req: ValidatedOperationRequest) -> bool {
    match o {
        Some(sp) => span_ok(role, sp, req),
        None => true,
    }
}

/// Spans built from sides whose regions match the request pass the
/// validator's span check under every role.
proof fn lemma_side_spans_ok(
    spans: RoleMap<ResultSpan>,
    before: Option<DiffSide>,
    after: Option<DiffSide>,
    req: ValidatedOperationRequest,
)
    requires
        spans_of_sides(spans, before, after, req),
    ensures
        forall|role: SourceRole| span_checked(#[trigger] spans.spec_get(role), role, req),
{
    assert forall|role: SourceRole| span_checked(#[trigger] spans.spec_get(role), role, req) by {
        if side_in_role(after, role) {
            lemma_region_span_ok(spans.spec_get(role)->0, after->0.region, req);
        } else if side_in_role(before, role) {
            lemma_region_span_ok(spans.spec_get(role)->0, before->0.region, req);
        }
    }
}

proof fn lemma_diff_state_names(m: Metadata, v0: Seq<char>, v1: Seq<char>)
    requires
        two_fields(m, "before"@, v0, "after"@, v1),
    ensures
        role_states_ok(m, kind_roles(OperationKind::Diff2)),
{
    let roles = kind_roles(OperationKind::Diff2);
    assert(role_name_spec(roles[0]) == "before"@);
    assert(role_name_spec(roles[1]) == "after"@);
    assert(names_role(roles, m.entries@[0].key@));
    assert(names_role(roles, m.entries@[1].key@));
}

/// An owner change of a diff, projected from regions that match the
/// request, passes the result validator's check of change records, for
/// an owner with an identity.
pub proof fn law_projected_owner_changes_validate(rc: ResultChange, c: OwnerChange, req: ValidatedOperationRequest)
    requires
        owner_change_projected(rc, c, req),
        side_ok(c.before, req),
        side_ok(c.after, req),
        c.owner_id@.len() > 0,
    ensures
        change_error(rc, kind_roles(OperationKind::Diff2), req) is None,
{
    reveal_strlit("added");
    reveal_strlit("deleted");
    reveal_strlit("edited");
    lemma_diff_state_names(rc.role_states, side_state(c.before), side_state(c.after));
    lemma_side_spans_ok(rc.source_spans, c.before, c.after, req);
}

/// The whole-document summary, projected from regions that match the
/// request, passes the result validator's check of change records.
pub proof fn law_document_change_validates(
    rc: ResultChange,
    before: DiffSide,
    after: DiffSide,
    req: ValidatedOperationRequest,
)
    requires
        document_change_projected(rc, before, after, req),
        diff_region_ok(before.region, req),
        diff_region_ok(after.region, req),
    ensures
        change_error(rc, kind_roles(OperationKind::Diff2), req) is None,
{
    reveal_strlit("edited");
    reveal_strlit("document");
    lemma_diff_state_names(rc.role_states, before.state@, after.state@);
    lemma_side_spans_ok(rc.source_spans, Some(before), Some(after), req);
}

proof fn lemma_numbered_ids_distinct(prefix: Seq<char>, i: nat, j: nat)
    requires
        prefix + decimal(i) == prefix + decimal(j),
    ensures
        i == j,
{
    assert((prefix + decimal(i)).subrange(prefix.len() as int, (prefix + decimal(i)).len() as int) =~= decimal(i));
    assert((prefix + decimal(j)).subrange(prefix.len() as int, (prefix + decimal(j)).len() as int) =~= decimal(j));
    lemma_decimal_injective(i, j);
}

/// The changes a successful directional merge reports have distinct,
/// nonempty identities, and each passes the result validator's check of
/// change records, where every added owner has an identity and its incoming
/// region lies in the incoming source.
pub proof fn law_incoming_additions_validate(v: Seq<ResultChange>, ds: Seq<DirectionalDecision>, req: ValidatedOperationRequest)
    requires
        v.len() == additions(ds).len(),
        forall|k: int| 0 <= k < v.len() ==> addition_projected(#[trigger] v[k], additions(ds)[k], k as nat, req),
        forall|k: int|
            0 <= k < additions(ds).len() ==> (#[trigger] additions(ds)[k]).owner_id@.len() > 0 && side_in_role(
                additions(ds)[k].incoming,
                SourceRole::Incoming,
            ),
    ensures
        unique_nonempty_spec(change_ids(v)),
        forall|k: int| 0 <= k < v.len() ==> change_error(#[trigger] v[k], kind_roles(OperationKind::Merge2), req) is None,
{
    reveal_strlit("added");
    let roles = kind_roles(OperationKind::Merge2);
    assert(role_name_spec(roles[0]) == "incoming"@);
    assert(role_name_spec(roles[1]) == "current"@);
    assert forall|k: int| 0 <= k < v.len() implies change_error(#[trigger] v[k], roles, req) is None by {
        let d = additions(ds)[k];
        assert(addition_projected(v[k], d, k as nat, req));
        assert(names_role(roles, v[k].role_states.entries@[0].key@));
        assert(names_role(roles, v[k].role_states.entries@[1].key@));
        assert forall|role: SourceRole| span_checked(#[trigger] v[k].source_spans.spec_get(role), role, req) by {
            if role == SourceRole::Incoming {
                lemma_region_span_ok(v[k].source_spans.spec_get(role)->0, d.incoming->0.region, req);
            }
        }
    }
    assert forall|i: int| 0 <= i < change_ids(v).len() implies (#[trigger] change_ids(v)[i]).len() > 0 by {
        assert(addition_projected(v[i], additions(ds)[i], i as nat, req));
        lemma_decimal_nonempty(i as nat);
    }
    assert forall|i: int, j: int| 0 <= i < j < change_ids(v).len() implies #[trigger] change_ids(v)[i]
        != #[trigger] change_ids(v)[j] by {
        assert(addition_projected(v[i], additions(ds)[i], i as nat, req));
        assert(addition_projected(v[j], additions(ds)[j], j as nat, req));
        if change_ids(v)[i] == change_ids(v)[j] {
            lemma_numbered_ids_distinct("change-"@, i as nat, j as nat);
        }
    }
}

/// The envelope a native execution starts from, for `request` with
/// `forwarding` the JSON text of its request-only fields.
pub open spec fn empty_envelope(res: OperationResult, request: ValidatedOperationRequest, forwarding: Seq<char>) -> bool {
    &&& res.schema@ == OPERATION_RESULT_SCHEMA@
    &&& res.request_id@ == request.spec_request().request_id@
    &&& res.operation == policy_kind(request.spec_request().operation)
    &&& !res.ok
    &&& res.provider.provider_id is None && res.provider.family is None && res.provider.delegation is None && no_entries(res.provider.extra)
    &&& res.profile.profile_id is None && res.profile.parser is None && no_entries(res.profile.extra)
    &&& res.diagnostics@.len() == 0
    &&& res.changes@.len() == 0
    &&& res.conflicts@.len() == 0
    &&& res.fallbacks@.len() == 0
    &&& no_entries(res.render_report)
    &&& res.verification.consumed_source_roles is None
    &&& res.verification.directional_roles_preserved is None
    &&& res.verification.base_participated is None
    &&& res.verification.classification_reached == Some(false)
    &&& res.verification.output_reparsed is None
    &&& res.verification.structural_equivalence is None
    &&& res.verification.preservation is None
    &&& res.verification.retained_source_regions is None
    &&& no_entries(res.verification.extra)
    &&& res.analysis is None && res.diff is None && res.output is None && res.conflicted_output is None
    &&& same_extensions(request.spec_request().extensions@, res.extensions@)
    &&& same_fields(request.spec_request().metadata, res.metadata)
    &&& res.extra.entries@.len() == 1
    &&& res.extra.entries@[0].key@ == "request_forwarding"@
    &&& res.extra.entries@[0].value@ == forwarding
}

/// The envelope a native execution starts from: the result of the request's
/// operation, not yet successful and with no classification reached,
/// carrying the request's extensions and metadata, and the request-only
/// fields forwarded under `request_forwarding` so that they cannot shadow
/// fields reserved for the result. `forwarding` is the JSON text of those
/// fields: the request's unknown fields, path name, policy and selections.
pub fn empty_result(request: &ValidatedOperationRequest, forwarding: String) -> (res: OperationResult)
    ensures
        empty_envelope(res, *request, forwarding@),
{
    let input = request.request();
    OperationResult {
        schema: owned(OPERATION_RESULT_SCHEMA),
        request_id: copy_string(&input.request_id),
        operation: input.operation.kind(),
        ok: false,
        provider: ResultProvider { provider_id: None, family: None, delegation: None, extra: Metadata::new() },
        profile: ResultProfile { profile_id: None, parser: None, extra: Metadata::new() },
        diagnostics: Vec::new(),
        changes: Vec::new(),
        conflicts: Vec::new(),
        fallbacks: Vec::new(),
        render_report: Metadata::new(),
        verification: ResultVerification {
            consumed_source_roles: None,
            directional_roles_preserved: None,
            base_participated: None,
            classification_reached: Some(false),
            output_reparsed: None,
            structural_equivalence: None,
            preservation: None,
            retained_source_regions: None,
            extra: Metadata::new(),
        },
        analysis: None,
        diff: None,
        output: None,
        conflicted_output: None,
        extensions: copy_extensions(&input.extensions),
        metadata: copy_fields(&input.metadata),
        extra: Metadata { entries: vec![field("request_forwarding", forwarding)] },
    }
}

/// The answer to a native request its profile refuses: the request's empty
/// envelope, and the refusal as the envelope's first diagnostic, a blocking
/// registry error with the refusal's category, code and message, naming no
/// source. `forwarding` is the JSON text of the request-only fields.
pub fn refused_native_result(request: &ValidatedOperationRequest, forwarding: String, refusal: NativeRefusal) -> (r: (
    OperationResult,
    PortableDiagnostic,
))
    ensures
        empty_envelope(r.0, *request, forwarding@),
        plain_diagnostic(
            r.1,
            r.0,
            0,
            refusal_category(refusal),
            refusal_code(refusal),
            refusal_message(refusal),
            DiagnosticLayer::Registry,
        ),
        r.1.source_refs@.len() == 0,
{
    let res = empty_result(request, forwarding);
    let d = native_diagnostic(
        &res,
        refusal.category(),
        refusal.code(),
        owned(refusal.message()),
        refusal.layer(),
        Vec::new(),
    );
    (res, d)
}

/// The parser record a result keeps of its first parse: the backend the
/// parse's selection requested and the one it selected, chosen explicitly
/// when a backend was requested and by policy otherwise.
pub fn retained_parser_selection(first: &CoreParseResult) -> (p: ResultParserSelection)
    ensures
        opt_view(p.requested_backend) == opt_view(first.selection.requested.backend_id),
        opt_view(p.selected_backend) == Some(first.backend.id@),
        opt_view(p.selection_mode) == Some(
            if first.selection.requested.backend_id is Some {
                "explicit"@
            } else {
                "policy"@
            },
        ),
        no_entries(p.extra),
{
    let mode = if first.selection.requested.backend_id.is_some() {
        "explicit"
    } else {
        "policy"
    };
    ResultParserSelection {
        requested_backend: copy_opt_string(&first.selection.requested.backend_id),
        selected_backend: Some(copy_string(&first.backend.id)),
        selection_mode: Some(owned(mode)),
        extra: Metadata::new(),
    }
}

/// The text a result contract violation is reported with: its name.
pub open spec fn contract_error_name(e: ResultContractError) -> Seq<char> {
    match e {
        ResultContractError::UnsupportedSchema => "UnsupportedSchema"@,
        ResultContractError::IdentityMismatch => "IdentityMismatch"@,
        ResultContractError::SelectionMismatch => "SelectionMismatch"@,
        ResultContractError::InvalidSourceRoles => "InvalidSourceRoles"@,
        ResultContractError::DirectionalRoleContractViolation => "DirectionalRoleContractViolation"@,
        ResultContractError::BaseParticipationContractViolation => "BaseParticipationContractViolation"@,
        ResultContractError::ContradictoryOutput => "ContradictoryOutput"@,
        ResultContractError::ContradictoryOutcome => "ContradictoryOutcome"@,
        ResultContractError::MissingPayload => "MissingPayload"@,
        ResultContractError::InvalidRecord => "InvalidRecord"@,
        ResultContractError::InvalidSourceEvidence => "InvalidSourceEvidence"@,
        ResultContractError::UndeclaredFallback => "UndeclaredFallback"@,
        ResultContractError::UnverifiedFallback => "UnverifiedFallback"@,
        ResultContractError::PreservationContractViolation => "PreservationContractViolation"@,
        ResultContractError::VerificationContractViolation => "VerificationContractViolation"@,
    }
}

fn contract_error_text(e: ResultContractError) -> (s: &'static str)
    ensures
        s@ == contract_error_name(e),
{
    match e {
        ResultContractError::UnsupportedSchema => "UnsupportedSchema",
        ResultContractError::IdentityMismatch => "IdentityMismatch",
        ResultContractError::SelectionMismatch => "SelectionMismatch",
        ResultContractError::InvalidSourceRoles => "InvalidSourceRoles",
        ResultContractError::DirectionalRoleContractViolation => "DirectionalRoleContractViolation",
        ResultContractError::BaseParticipationContractViolation => "BaseParticipationContractViolation",
        ResultContractError::ContradictoryOutput => "ContradictoryOutput",
        ResultContractError::ContradictoryOutcome => "ContradictoryOutcome",
        ResultContractError::MissingPayload => "MissingPayload",
        ResultContractError::InvalidRecord => "InvalidRecord",
        ResultContractError::InvalidSourceEvidence => "InvalidSourceEvidence",
        ResultContractError::UndeclaredFallback => "UndeclaredFallback",
        ResultContractError::UnverifiedFallback => "UnverifiedFallback",
        ResultContractError::PreservationContractViolation => "PreservationContractViolation",
        ResultContractError::VerificationContractViolation => "VerificationContractViolation",
    }
}

/// A result replaced because a control stopped the operation: the empty
/// envelope of the request, not successful and with no output, and the
/// service diagnostic of the control failure.
pub open spec fn stopped_by_control(
    res: OperationResult,
    d: Option<PortableDiagnostic>,
    request: ValidatedOperationRequest,
    forwarding: Seq<char>,
    e: ServiceError,
) -> bool {
    &&& empty_envelope(res, request, forwarding)
    &&& d matches Some(diag) && service_diagnostic(diag, res, 0, e)
}

/// Finish a native execution under its controls. `before` and `after` are
/// what the operation's control reported (cancellation or deadline) before
/// and after the result is checked against the request. A control failure
/// replaces whatever was produced by the request's empty envelope and the
/// failure's service diagnostic, so a stopped operation never reports
/// success or output. A produced result is checked against the request; one
/// that breaks its contract is an evidence error naming the violation. The
/// envelope of a stopped operation carries its failure as a separate
/// portable diagnostic and is not checked as a result. `forwarding` is the JSON text of the
/// request-only fields the envelope forwards.
pub fn finalize_native_result(
    draft: OperationResult,
    request: &ValidatedOperationRequest,
    forwarding: String,
    before: Option<ServiceError>,
    after: Option<ServiceError>,
) -> (r: Result<(OperationResult, Option<PortableDiagnostic>), CoreError>)
    ensures
        match r {
            Ok((res, d)) => match after {
                Some(e) => {
                    &&& stopped_by_control(res, d, *request, forwarding@, e)
                    &&& before is None ==> result_error(draft, *request) is None
                },
                None => match before {
                    Some(e) => stopped_by_control(res, d, *request, forwarding@, e),
                    None => res == draft && d is None && result_error(draft, *request) is None,
                },
            },
            Err(ce) => {
                &&& before is None
                &&& result_error(draft, *request) matches Some(v)
                &&& ce.code@ == "operation.invalid_evidence"@
                &&& ce.message@ == contract_error_name(result_error(draft, *request)->0)
            },
        },
{
    let mut result = draft;
    let mut diagnostic: Option<PortableDiagnostic> = None;
    if let Some(e) = &before {
        let envelope = empty_result(request, copy_string(&forwarding));
        diagnostic = Some(numbered_service_diagnostic(&envelope, 0, e));
        result = envelope;
    }
    if before.is_none() {
        match result.validate_against(request) {
            Ok(()) => {},
            Err(v) => {
                return Err(
                    CoreError { code: owned("operation.invalid_evidence"), message: owned(contract_error_text(v)) },
                );
            },
        }
    }
    if let Some(e) = &after {
        let envelope = empty_result(request, forwarding);
        diagnostic = Some(numbered_service_diagnostic(&envelope, 0, e));
        result = envelope;
    }
    Ok((result, diagnostic))
}

} // verus!
