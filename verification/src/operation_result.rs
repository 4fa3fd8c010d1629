//! Result contract and request-correlated evidence checks. Validation checks
//! observable invariants against verified request bytes; it cannot prove that
//! a provider actually ran a semantic algorithm.
use crate::metadata::{Metadata, NativeExtension};
use crate::operation::{
    fallback_spec, policy_kind, ValidatedOperationRequest, OperationRequest,
};
use crate::role_map::RoleMap;
use crate::source::{
    count_lf, digest_hex, line_start, role_name, role_name_spec, valid_range, ByteRange,
    SourceDocument, SourceMap, SourceRole,
};
use crate::role_map::{rank_role, role_of_rank};
use crate::text::{str_eq, utf8_of};
use crate::{kind_roles, OperationKind};
use vstd::prelude::*;

verus! {

pub const OPERATION_RESULT_SCHEMA: &'static str =
    "https://structuredmerge.org/schemas/provider-result/v1.json";

pub const ANALYSIS_RESULT_SCHEMA: &'static str = "structuredmerge.analysis-result/v1";

/// The provider that produced a result. Each delegation entry is the JSON
/// text of a delegated provider record, carried through unchanged.
#[derive(Clone, Debug, PartialEq, Eq)]
pub struct ResultProvider {
    pub provider_id: Option<String>,
    pub family: Option<String>,
    pub delegation: Option<Vec<String>>,
    pub extra: Metadata,
}

#[derive(Clone, Debug, PartialEq, Eq)]
pub struct ResultParserSelection {
    pub requested_backend: Option<String>,
    pub selected_backend: Option<String>,
    pub selection_mode: Option<String>,
    pub extra: Metadata,
}

#[derive(Clone, Debug, PartialEq, Eq)]
pub struct ResultProfile {
    pub profile_id: Option<String>,
    pub parser: Option<ResultParserSelection>,
    pub extra: Metadata,
}

#[derive(Clone, Debug, PartialEq, Eq)]
pub struct ResultRange {
    pub start_byte: usize,
    pub end_byte: usize,
    pub extra: Metadata,
}

impl ResultRange {
    /// The byte range this record names.
    pub(crate) fn bytes(&self) -> (r: ByteRange)
        ensures
            r == byte_range(*self),
    {
        ByteRange { start_byte: self.start_byte, end_byte: self.end_byte }
    }
}

#[derive(Clone, Debug, PartialEq, Eq)]
pub struct ResultPoint {
    pub row: usize,
    pub column: usize,
    pub extra: Metadata,
}

#[derive(Clone, Debug, PartialEq, Eq)]
pub struct ResultSpan {
    pub range: ResultRange,
    pub start_point: ResultPoint,
    pub end_point: ResultPoint,
    pub extra: Metadata,
}

#[derive(Clone, Debug, PartialEq, Eq)]
pub struct ResultSourceRegion {
    pub source_id: String,
    pub source_role: SourceRole,
    pub range: ResultRange,
    pub sha256: Option<String>,
    pub extra: Metadata,
}

#[derive(Clone, Debug, PartialEq, Eq)]
pub struct ResultDiagnostic {
    pub id: String,
    pub severity: String,
    pub category: String,
    pub code: String,
    pub message: String,
    pub blocking: bool,
    pub source_role: Option<SourceRole>,
    pub span: Option<ResultSpan>,
    pub metadata: Metadata,
    pub extra: Metadata,
}

#[derive(Clone, Debug, PartialEq, Eq)]
pub struct ResultChange {
    pub id: String,
    pub classification: String,
    pub subject_ref: Option<String>,
    pub path: Option<String>,
    pub role_states: Metadata,
    pub source_spans: RoleMap<ResultSpan>,
    pub metadata: Metadata,
    pub extra: Metadata,
}

#[derive(Clone, Debug, PartialEq, Eq)]
pub struct ResultConflict {
    pub id: String,
    pub category: String,
    pub subject_ref: Option<String>,
    pub path: Option<String>,
    pub roles: Vec<SourceRole>,
    pub source_regions: Vec<ResultSourceRegion>,
    pub localized: bool,
    pub resolution: String,
    pub metadata: Metadata,
    pub extra: Metadata,
}

#[derive(Clone, Debug, PartialEq, Eq)]
pub struct PreservationProperty {
    pub property: String,
    pub required: bool,
    pub status: String,
    pub extra: Metadata,
}

#[derive(Clone, Debug, PartialEq, Eq)]
pub struct ResultVerification {
    pub consumed_source_roles: Option<Vec<SourceRole>>,
    pub directional_roles_preserved: Option<bool>,
    pub base_participated: Option<bool>,
    pub classification_reached: Option<bool>,
    pub output_reparsed: Option<bool>,
    pub structural_equivalence: Option<bool>,
    pub preservation: Option<Vec<PreservationProperty>>,
    pub retained_source_regions: Option<Vec<ResultSourceRegion>>,
    pub extra: Metadata,
}

#[derive(Clone, Debug, PartialEq, Eq)]
pub struct ResultDiff {
    pub change_ids: Vec<String>,
    pub extra: Metadata,
}

/// An embedded analysis contract, carried through for the analysis validator.
#[derive(Clone, Debug, PartialEq, Eq)]
pub struct ResultAnalysis {
    pub schema: String,
    pub extra: Metadata,
}

#[derive(Clone, Debug, PartialEq, Eq)]
pub struct OperationResult {
    pub schema: String,
    pub request_id: String,
    pub operation: OperationKind,
    pub ok: bool,
    pub provider: ResultProvider,
    pub profile: ResultProfile,
    pub diagnostics: Vec<ResultDiagnostic>,
    pub changes: Vec<ResultChange>,
    pub conflicts: Vec<ResultConflict>,
    pub fallbacks: Vec<Metadata>,
    pub render_report: Metadata,
    pub verification: ResultVerification,
    pub analysis: Option<ResultAnalysis>,
    pub diff: Option<ResultDiff>,
    pub output: Option<String>,
    pub conflicted_output: Option<String>,
    pub extensions: Vec<NativeExtension>,
    pub metadata: Metadata,
    pub extra: Metadata,
}

#[derive(Clone, Copy, Debug, PartialEq, Eq, Structural)]
pub enum ResultContractError {
    UnsupportedSchema,
    IdentityMismatch,
    SelectionMismatch,
    InvalidSourceRoles,
    DirectionalRoleContractViolation,
    BaseParticipationContractViolation,
    ContradictoryOutput,
    ContradictoryOutcome,
    MissingPayload,
    InvalidRecord,
    InvalidSourceEvidence,
    UndeclaredFallback,
    UnverifiedFallback,
    PreservationContractViolation,
    VerificationContractViolation,
}

// ---------------------------------------------------------------------------
// Specification of the checks

pub open spec fn opt_view(o: Option<String>) -> Option<Seq<char>> {
    match o {
        Some(s) => Some(s@),
        None => None,
    }
}

/// Absent or empty.
pub open spec fn none_or_empty(o: Option<String>) -> bool {
    match o {
        Some(s) => s@.len() == 0,
        None => true,
    }
}

/// Nonempty and pairwise distinct.
pub open spec fn unique_nonempty_spec(ids: Seq<Seq<char>>) -> bool {
    &&& forall|i: int| 0 <= i < ids.len() ==> (#[trigger] ids[i]).len() > 0
    &&& forall|i: int, j: int| 0 <= i < j < ids.len() ==> #[trigger] ids[i] != #[trigger] ids[j]
}

pub open spec fn byte_range(r: ResultRange) -> ByteRange {
    ByteRange { start_byte: r.start_byte, end_byte: r.end_byte }
}

/// The document with a given identity.
pub open spec fn doc_with_id(m: SourceMap, id: Seq<char>) -> Option<SourceDocument> {
    m.lookup(id)
}

pub open spec fn point_matches(d: Seq<u8>, offset: int, p: ResultPoint) -> bool {
    p.row == count_lf(d.take(offset)) && p.column == offset - line_start(d.take(offset))
}

/// The span lies in the document and its points are exact.
pub open spec fn span_fits(d: SourceDocument, span: ResultSpan) -> bool {
    &&& valid_range(byte_range(span.range), d.data().len())
    &&& point_matches(d.data(), span.range.start_byte as int, span.start_point)
    &&& point_matches(d.data(), span.range.end_byte as int, span.end_point)
}

/// The span lies in the request's source for `role` and its points are exact.
pub open spec fn span_ok(role: SourceRole, span: ResultSpan, req: ValidatedOperationRequest) -> bool {
    match req.spec_request().sources.spec_get(role) {
        Some(src) => match doc_with_id(req.spec_sources(), src.source_id@) {
            Some(d) => span_fits(d, span),
            None => false,
        },
        None => false,
    }
}

/// The region names the request's source for its role, lies in it, and any
/// digest it carries (a required one when `digest_required`) is exact.
pub open spec fn region_ok(
    region: ResultSourceRegion,
    req: ValidatedOperationRequest,
    digest_required: bool,
) -> bool {
    match req.spec_request().sources.spec_get(region.source_role) {
        Some(src) => {
            &&& src.source_id@ == region.source_id@
            &&& !(digest_required && region.sha256 is None)
            &&& match doc_with_id(req.spec_sources(), region.source_id@) {
                Some(d) => {
                    &&& valid_range(byte_range(region.range), d.data().len())
                    &&& (region.sha256 matches Some(h) ==> utf8_of(h@) == digest_hex(
                        d.data().subrange(region.range.start_byte as int, region.range.end_byte as int),
                    ))
                },
                None => false,
            }
        },
        None => false,
    }
}

pub open spec fn is_merge(k: OperationKind) -> bool {
    k == OperationKind::Merge2 || k == OperationKind::Merge3
}

pub open spec fn any_unresolved(cs: Seq<ResultConflict>) -> bool {
    exists|i: int| 0 <= i < cs.len() && (#[trigger] cs[i]).resolution@ == "unresolved"@
}

pub open spec fn any_blocking(ds: Seq<ResultDiagnostic>) -> bool {
    exists|i: int| 0 <= i < ds.len() && (#[trigger] ds[i]).blocking
}

/// The result claims a classification was reached.
pub open spec fn classified(res: OperationResult) -> bool {
    res.ok || res.changes@.len() > 0 || res.conflicts@.len() > 0
        || res.verification.classification_reached == Some(true)
}

pub open spec fn roles_view(o: Option<Vec<SourceRole>>) -> Option<Seq<SourceRole>> {
    match o {
        Some(v) => Some(v@),
        None => None,
    }
}

pub open spec fn roles_distinct(s: Seq<SourceRole>) -> bool {
    forall|i: int, j: int| 0 <= i < j < s.len() ==> #[trigger] s[i] != #[trigger] s[j]
}

pub open spec fn roles_within(s: Seq<SourceRole>, roles: Seq<SourceRole>) -> bool {
    forall|i: int| 0 <= i < s.len() ==> roles.contains(#[trigger] s[i])
}

/// A requested selector is matched by the result when the result is
/// classified or names one.
pub open spec fn selector_mismatch(requested: Option<String>, actual: Option<String>, classified: bool) -> bool {
    requested is Some && (classified || actual is Some) && opt_view(requested) != opt_view(actual)
}

pub open spec fn parser_mismatch(res: OperationResult, req: OperationRequest) -> bool {
    match req.parser_selection.backend {
        Some(b) => match res.profile.parser {
            Some(p) => {
                ||| opt_view(p.requested_backend) != Some(b@)
                ||| opt_view(p.selection_mode) != Some("explicit"@)
                ||| (p.selected_backend matches Some(s) && s@ != b@)
                ||| (classified(res) && opt_view(p.selected_backend) != Some(b@))
            },
            None => classified(res),
        },
        None => false,
    }
}

/// Checks on the result's envelope, in check order.
pub open spec fn header_error(res: OperationResult, req: ValidatedOperationRequest) -> Option<
    ResultContractError,
> {
    let input = req.spec_request();
    let roles = kind_roles(res.operation);
    let merge = is_merge(res.operation);
    let unresolved = any_unresolved(res.conflicts@);
    let blocking = any_blocking(res.diagnostics@);
    let cl = classified(res);
    let v = res.verification;
    if res.schema@ != OPERATION_RESULT_SCHEMA@ {
        Some(ResultContractError::UnsupportedSchema)
    } else if res.request_id@ != input.request_id@ || res.operation != policy_kind(input.operation) {
        Some(ResultContractError::IdentityMismatch)
    } else if res.output is Some && res.conflicted_output is Some {
        Some(ResultContractError::ContradictoryOutput)
    } else if !merge && (res.output is Some || res.conflicted_output is Some) {
        Some(ResultContractError::ContradictoryOutput)
    } else if res.fallbacks@.len() > 0 {
        if fallback_spec(input.operation) == "none"@ {
            Some(ResultContractError::UndeclaredFallback)
        } else {
            Some(ResultContractError::UnverifiedFallback)
        }
    } else if (res.ok && (unresolved || blocking || res.conflicted_output is Some)) || (!res.ok
        && !unresolved && !blocking) || (!res.ok && res.output is Some) || (
    res.conflicted_output is Some && !unresolved) {
        Some(ResultContractError::ContradictoryOutcome)
    } else if cl && v.classification_reached == Some(false) {
        Some(ResultContractError::ContradictoryOutcome)
    } else if cl && roles_view(v.consumed_source_roles) != Some(roles) {
        if res.operation == OperationKind::Merge2 {
            Some(ResultContractError::DirectionalRoleContractViolation)
        } else {
            Some(ResultContractError::InvalidSourceRoles)
        }
    } else if cl && res.operation == OperationKind::Merge2 && v.directional_roles_preserved != Some(
        true,
    ) {
        Some(ResultContractError::DirectionalRoleContractViolation)
    } else if cl && res.operation == OperationKind::Merge3 && v.base_participated != Some(true) {
        Some(ResultContractError::BaseParticipationContractViolation)
    } else if v.consumed_source_roles matches Some(c) && (!roles_within(c@, roles)
        || !roles_distinct(c@)) {
        Some(ResultContractError::InvalidSourceRoles)
    } else if cl && (none_or_empty(res.provider.provider_id) || none_or_empty(res.provider.family)) {
        Some(ResultContractError::SelectionMismatch)
    } else if res.ok && res.operation == OperationKind::Analyze && (res.analysis is None
        || res.diff is Some) {
        Some(ResultContractError::MissingPayload)
    } else if res.ok && res.operation == OperationKind::Diff2 && (res.diff is None
        || res.analysis is Some) {
        Some(ResultContractError::MissingPayload)
    } else if res.ok && merge && res.output is None {
        Some(ResultContractError::MissingPayload)
    } else if res.ok && merge && (v.output_reparsed != Some(true) || v.structural_equivalence
        != Some(true)) {
        Some(ResultContractError::VerificationContractViolation)
    } else if res.ok && merge && v.preservation is None {
        Some(ResultContractError::PreservationContractViolation)
    } else if (res.operation != OperationKind::Analyze && res.analysis is Some) || (res.operation
        != OperationKind::Diff2 && res.diff is Some) {
        Some(ResultContractError::ContradictoryOutcome)
    } else if res.analysis matches Some(a) && a.schema@ != ANALYSIS_RESULT_SCHEMA@ {
        Some(ResultContractError::UnsupportedSchema)
    } else if selector_mismatch(input.provider_selection.provider_id, res.provider.provider_id, cl)
        || selector_mismatch(input.provider_selection.family, res.provider.family, cl)
        || selector_mismatch(input.provider_selection.profile_id, res.profile.profile_id, cl)
        || parser_mismatch(res, input) {
        Some(ResultContractError::SelectionMismatch)
    } else {
        None
    }
}


pub open spec fn parse_category(c: Seq<char>) -> bool {
    c == "parse-error"@ || c == "parse_error"@ || c == "destination_parse_error"@
}

pub open spec fn severity_ok(s: Seq<char>) -> bool {
    s == "info"@ || s == "warning"@ || s == "error"@
}

pub open spec fn diagnostic_error(
    d: ResultDiagnostic,
    roles: Seq<SourceRole>,
    req: ValidatedOperationRequest,
) -> Option<ResultContractError> {
    if parse_category(d.category@) && d.source_role is None {
        Some(ResultContractError::InvalidSourceEvidence)
    } else if !severity_ok(d.severity@) || d.category@.len() == 0 || d.code@.len() == 0 || (
    d.source_role matches Some(r) && !roles.contains(r)) {
        Some(ResultContractError::InvalidRecord)
    } else if d.span matches Some(sp) && (d.source_role is None || !span_ok(
        d.source_role->0,
        sp,
        req,
    )) {
        Some(ResultContractError::InvalidSourceEvidence)
    } else {
        None
    }
}

pub open spec fn first_diagnostic_error(
    ds: Seq<ResultDiagnostic>,
    roles: Seq<SourceRole>,
    req: ValidatedOperationRequest,
    i: int,
) -> Option<ResultContractError>
    decreases ds.len() - i,
{
    if i < 0 || i >= ds.len() {
        None
    } else if diagnostic_error(ds[i], roles, req) is Some {
        diagnostic_error(ds[i], roles, req)
    } else {
        first_diagnostic_error(ds, roles, req, i + 1)
    }
}

/// Every role-state name is the wire name of one of the operation's roles.
/// Some role of `roles` has the name `key`.
pub open spec fn names_role(roles: Seq<SourceRole>, key: Seq<char>) -> bool {
    exists|k: int| 0 <= k < roles.len() && role_name_spec(roles[k]) == key
}

pub open spec fn role_states_ok(m: Metadata, roles: Seq<SourceRole>) -> bool {
    forall|i: int| 0 <= i < m.entries@.len() ==> names_role(roles, (#[trigger] m.entries@[i]).key@)
}

pub open spec fn change_error(
    c: ResultChange,
    roles: Seq<SourceRole>,
    req: ValidatedOperationRequest,
) -> Option<ResultContractError> {
    if c.classification@.len() == 0 || (none_or_empty(c.subject_ref) && none_or_empty(c.path))
        || !role_states_ok(c.role_states, roles) {
        Some(ResultContractError::InvalidRecord)
    } else if exists|role: SourceRole|
        #[trigger] c.source_spans.spec_get(role) matches Some(sp) && !span_ok(role, sp, req) {
        Some(ResultContractError::InvalidSourceEvidence)
    } else {
        None
    }
}

pub open spec fn first_change_error(
    cs: Seq<ResultChange>,
    roles: Seq<SourceRole>,
    req: ValidatedOperationRequest,
    i: int,
) -> Option<ResultContractError>
    decreases cs.len() - i,
{
    if i < 0 || i >= cs.len() {
        None
    } else if change_error(cs[i], roles, req) is Some {
        change_error(cs[i], roles, req)
    } else {
        first_change_error(cs, roles, req, i + 1)
    }
}

pub open spec fn change_ids(cs: Seq<ResultChange>) -> Seq<Seq<char>> {
    cs.map_values(|c: ResultChange| c.id@)
}

pub open spec fn diagnostic_ids(ds: Seq<ResultDiagnostic>) -> Seq<Seq<char>> {
    ds.map_values(|d: ResultDiagnostic| d.id@)
}

pub open spec fn conflict_ids(cs: Seq<ResultConflict>) -> Seq<Seq<char>> {
    cs.map_values(|c: ResultConflict| c.id@)
}

pub open spec fn string_views(v: Seq<String>) -> Seq<Seq<char>> {
    v.map_values(|s: String| s@)
}

pub open spec fn region_bad(c: ResultConflict, region: ResultSourceRegion, req: ValidatedOperationRequest) -> bool {
    !c.roles@.contains(region.source_role) || !region_ok(region, req, false)
}

pub open spec fn conflict_error(
    c: ResultConflict,
    merge: bool,
    roles: Seq<SourceRole>,
    req: ValidatedOperationRequest,
) -> Option<ResultContractError> {
    if !merge || c.category@.len() == 0 || (none_or_empty(c.subject_ref) && none_or_empty(c.path))
        || c.roles@.len() == 0 || !roles_distinct(c.roles@) || !roles_within(c.roles@, roles) || !(
    c.resolution@ == "resolved"@ || c.resolution@ == "unresolved"@) {
        Some(ResultContractError::InvalidRecord)
    } else if exists|k: int|
        0 <= k < c.source_regions@.len() && #[trigger] region_bad(c, c.source_regions@[k], req) {
        Some(ResultContractError::InvalidSourceEvidence)
    } else {
        None
    }
}

pub open spec fn first_conflict_error(
    cs: Seq<ResultConflict>,
    merge: bool,
    roles: Seq<SourceRole>,
    req: ValidatedOperationRequest,
    i: int,
) -> Option<ResultContractError>
    decreases cs.len() - i,
{
    if i < 0 || i >= cs.len() {
        None
    } else if conflict_error(cs[i], merge, roles, req) is Some {
        conflict_error(cs[i], merge, roles, req)
    } else {
        first_conflict_error(cs, merge, roles, req, i + 1)
    }
}

pub open spec fn status_ok(s: Seq<char>) -> bool {
    s == "passed"@ || s == "failed"@ || s == "unverified"@
}

pub open spec fn property_bad(p: PreservationProperty, ok: bool) -> bool {
    !status_ok(p.status@) || (ok && p.required && p.status@ != "passed"@)
}

pub open spec fn property_names(ps: Seq<PreservationProperty>) -> Seq<Seq<char>> {
    ps.map_values(|p: PreservationProperty| p.property@)
}

/// Checks on the result's records, in check order.
pub open spec fn records_error(res: OperationResult, req: ValidatedOperationRequest) -> Option<
    ResultContractError,
> {
    let roles = kind_roles(res.operation);
    if !unique_nonempty_spec(diagnostic_ids(res.diagnostics@)) || !unique_nonempty_spec(
        change_ids(res.changes@),
    ) || !unique_nonempty_spec(conflict_ids(res.conflicts@)) {
        Some(ResultContractError::InvalidRecord)
    } else if first_diagnostic_error(res.diagnostics@, roles, req, 0) is Some {
        first_diagnostic_error(res.diagnostics@, roles, req, 0)
    } else if first_change_error(res.changes@, roles, req, 0) is Some {
        first_change_error(res.changes@, roles, req, 0)
    } else if res.diff matches Some(d) && string_views(d.change_ids@) != change_ids(res.changes@) {
        Some(ResultContractError::InvalidRecord)
    } else if first_conflict_error(res.conflicts@, is_merge(res.operation), roles, req, 0) is Some {
        first_conflict_error(res.conflicts@, is_merge(res.operation), roles, req, 0)
    } else if res.verification.preservation matches Some(ps) && !unique_nonempty_spec(
        property_names(ps@),
    ) {
        Some(ResultContractError::InvalidRecord)
    } else if res.verification.preservation matches Some(ps) && exists|k: int|
        0 <= k < ps@.len() && #[trigger] property_bad(ps@[k], res.ok) {
        Some(ResultContractError::PreservationContractViolation)
    } else if res.verification.retained_source_regions matches Some(rs) && exists|k: int|
        0 <= k < rs@.len() && !region_ok(#[trigger] rs@[k], req, true) {
        Some(ResultContractError::InvalidSourceEvidence)
    } else {
        None
    }
}

/// The first contract violation of `res` against `req`, if any.
pub open spec fn result_error(res: OperationResult, req: ValidatedOperationRequest) -> Option<
    ResultContractError,
> {
    match header_error(res, req) {
        Some(e) => Some(e),
        None => records_error(res, req),
    }
}


// ---------------------------------------------------------------------------
// Executable checks

pub(crate) fn opt_str_eq(a: &Option<String>, b: &Option<String>) -> (r: bool)
    ensures
        r == (opt_view(*a) == opt_view(*b)),
{
    match (a, b) {
        (Some(x), Some(y)) => *x == *y,
        (None, None) => true,
        _ => false,
    }
}

pub(crate) fn opt_is(a: &Option<String>, b: &str) -> (r: bool)
    ensures
        r == (opt_view(*a) == Some(b@)),
{
    match a {
        Some(x) => str_eq(x.as_str(), b),
        None => false,
    }
}

pub(crate) fn is_none_or_empty(o: &Option<String>) -> (r: bool)
    ensures
        r == none_or_empty(*o),
{
    match o {
        Some(s) => s.as_str().is_empty(),
        None => true,
    }
}

/// Nonempty and pairwise distinct.
pub(crate) fn unique_nonempty(ids: &Vec<&str>) -> (r: bool)
    ensures
        r == unique_nonempty_spec(ids@.map_values(|s: &str| s@)),
{
    let ghost v = ids@.map_values(|s: &str| s@);
    let mut i: usize = 0;
    while i < ids.len()
        invariant
            v == ids@.map_values(|s: &str| s@),
            i <= ids@.len(),
            forall|k: int| 0 <= k < i ==> (#[trigger] v[k]).len() > 0,
            forall|a: int, b: int| 0 <= a < b < ids@.len() && a < i ==> #[trigger] v[a] != #[trigger] v[b],
        decreases ids@.len() - i,
    {
        assert(v[i as int] == ids@[i as int]@);
        if ids[i].is_empty() {
            return false;
        }
        let mut j: usize = i + 1;
        while j < ids.len()
            invariant
                v == ids@.map_values(|s: &str| s@),
                i < j <= ids@.len(),
                forall|b: int| i < b < j ==> v[i as int] != #[trigger] v[b],
            decreases ids@.len() - j,
        {
            if str_eq(ids[i], ids[j]) {
                assert(v[i as int] == v[j as int]);
                return false;
            }
            j = j + 1;
        }
        i = i + 1;
    }
    true
}

fn diagnostic_id_list(ds: &Vec<ResultDiagnostic>) -> (v: Vec<&str>)
    ensures
        v@.map_values(|s: &str| s@) == diagnostic_ids(ds@),
{
    let mut v: Vec<&str> = Vec::new();
    let mut i: usize = 0;
    while i < ds.len()
        invariant
            i <= ds@.len(),
            v@.map_values(|s: &str| s@) == diagnostic_ids(ds@.take(i as int)),
        decreases ds@.len() - i,
    {
        v.push(ds[i].id.as_str());
        assert(diagnostic_ids(ds@.take(i + 1)) =~= diagnostic_ids(ds@.take(i as int)).push(ds@[i as int].id@));
        assert(v@.map_values(|s: &str| s@) =~= diagnostic_ids(ds@.take(i + 1)));
        i = i + 1;
    }
    assert(ds@.take(ds@.len() as int) =~= ds@);
    v
}

fn change_id_list(cs: &Vec<ResultChange>) -> (v: Vec<&str>)
    ensures
        v@.map_values(|s: &str| s@) == change_ids(cs@),
{
    let mut v: Vec<&str> = Vec::new();
    let mut i: usize = 0;
    while i < cs.len()
        invariant
            i <= cs@.len(),
            v@.map_values(|s: &str| s@) == change_ids(cs@.take(i as int)),
        decreases cs@.len() - i,
    {
        v.push(cs[i].id.as_str());
        assert(change_ids(cs@.take(i + 1)) =~= change_ids(cs@.take(i as int)).push(cs@[i as int].id@));
        assert(v@.map_values(|s: &str| s@) =~= change_ids(cs@.take(i + 1)));
        i = i + 1;
    }
    assert(cs@.take(cs@.len() as int) =~= cs@);
    v
}

fn conflict_id_list(cs: &Vec<ResultConflict>) -> (v: Vec<&str>)
    ensures
        v@.map_values(|s: &str| s@) == conflict_ids(cs@),
{
    let mut v: Vec<&str> = Vec::new();
    let mut i: usize = 0;
    while i < cs.len()
        invariant
            i <= cs@.len(),
            v@.map_values(|s: &str| s@) == conflict_ids(cs@.take(i as int)),
        decreases cs@.len() - i,
    {
        v.push(cs[i].id.as_str());
        assert(conflict_ids(cs@.take(i + 1)) =~= conflict_ids(cs@.take(i as int)).push(cs@[i as int].id@));
        assert(v@.map_values(|s: &str| s@) =~= conflict_ids(cs@.take(i + 1)));
        i = i + 1;
    }
    assert(cs@.take(cs@.len() as int) =~= cs@);
    v
}

fn property_name_list(ps: &Vec<PreservationProperty>) -> (v: Vec<&str>)
    ensures
        v@.map_values(|s: &str| s@) == property_names(ps@),
{
    let mut v: Vec<&str> = Vec::new();
    let mut i: usize = 0;
    while i < ps.len()
        invariant
            i <= ps@.len(),
            v@.map_values(|s: &str| s@) == property_names(ps@.take(i as int)),
        decreases ps@.len() - i,
    {
        v.push(ps[i].property.as_str());
        assert(property_names(ps@.take(i + 1)) =~= property_names(ps@.take(i as int)).push(ps@[i as int].property@));
        assert(v@.map_values(|s: &str| s@) =~= property_names(ps@.take(i + 1)));
        i = i + 1;
    }
    assert(ps@.take(ps@.len() as int) =~= ps@);
    v
}

pub(crate) fn role_in(roles: &Vec<SourceRole>, role: SourceRole) -> (r: bool)
    ensures
        r == roles@.contains(role),
{
    let mut i: usize = 0;
    while i < roles.len()
        invariant
            i <= roles@.len(),
            forall|k: int| 0 <= k < i ==> roles@[k] != role,
        decreases roles@.len() - i,
    {
        if roles[i] == role {
            return true;
        }
        i = i + 1;
    }
    false
}

pub(crate) fn roles_equal(a: &Vec<SourceRole>, b: &Vec<SourceRole>) -> (r: bool)
    ensures
        r == (a@ == b@),
{
    if a.len() != b.len() {
        return false;
    }
    let mut i: usize = 0;
    while i < a.len()
        invariant
            a@.len() == b@.len(),
            i <= a@.len(),
            forall|k: int| 0 <= k < i ==> a@[k] == b@[k],
        decreases a@.len() - i,
    {
        if a[i] != b[i] {
            return false;
        }
        i = i + 1;
    }
    assert(a@ =~= b@);
    true
}

pub(crate) fn roles_within_exec(s: &Vec<SourceRole>, roles: &Vec<SourceRole>) -> (r: bool)
    ensures
        r == roles_within(s@, roles@),
{
    let mut i: usize = 0;
    while i < s.len()
        invariant
            i <= s@.len(),
            forall|k: int| 0 <= k < i ==> roles@.contains(#[trigger] s@[k]),
        decreases s@.len() - i,
    {
        if !role_in(roles, s[i]) {
            return false;
        }
        i = i + 1;
    }
    true
}

pub(crate) fn roles_distinct_exec(s: &Vec<SourceRole>) -> (r: bool)
    ensures
        r == roles_distinct(s@),
{
    let mut i: usize = 0;
    while i < s.len()
        invariant
            i <= s@.len(),
            forall|a: int, b: int| 0 <= a < b < s@.len() && a < i ==> #[trigger] s@[a] != #[trigger] s@[b],
        decreases s@.len() - i,
    {
        let mut j: usize = i + 1;
        while j < s.len()
            invariant
                i < j <= s@.len(),
                forall|b: int| i < b < j ==> s@[i as int] != #[trigger] s@[b],
            decreases s@.len() - j,
        {
            if s[i] == s[j] {
                return false;
            }
            j = j + 1;
        }
        i = i + 1;
    }
    true
}

fn point_ok(d: &SourceDocument, offset: usize, p: &ResultPoint) -> (r: bool)
    requires
        offset <= d.data().len(),
    ensures
        r == point_matches(d.data(), offset as int, *p),
{
    match d.point(offset) {
        Ok(actual) => actual.row == p.row && actual.column == p.column,
        Err(_) => false,
    }
}

/// Whether the span lies in the document with exact points.
pub(crate) fn span_in_document(document: &SourceDocument, span: &ResultSpan) -> (r: bool)
    ensures
        r == span_fits(*document, *span),
{
    if document.slice(span.range.bytes()).is_err() {
        return false;
    }
    point_ok(document, span.range.start_byte, &span.start_point) && point_ok(
        document,
        span.range.end_byte,
        &span.end_point,
    )
}

/// `Ok` exactly when `span_ok`.
fn check_span(role: SourceRole, span: &ResultSpan, request: &ValidatedOperationRequest) -> (r:
    Result<(), ResultContractError>)
    ensures
        r.is_ok() == span_ok(role, *span, *request),
        r matches Err(e) ==> e == ResultContractError::InvalidSourceEvidence,
{
    let source = match request.request().sources.get(role) {
        Some(s) => s,
        None => return Err(ResultContractError::InvalidSourceEvidence),
    };
    let document = match request.sources().get(source.source_id.as_str()) {
        Ok(d) => d,
        Err(_) => return Err(ResultContractError::InvalidSourceEvidence),
    };
    if !span_in_document(document, span) {
        return Err(ResultContractError::InvalidSourceEvidence);
    }
    Ok(())
}

/// `Ok` exactly when `region_ok`.
fn check_region(
    region: &ResultSourceRegion,
    request: &ValidatedOperationRequest,
    digest_required: bool,
) -> (r: Result<(), ResultContractError>)
    ensures
        r.is_ok() == region_ok(*region, *request, digest_required),
        r matches Err(e) ==> e == ResultContractError::InvalidSourceEvidence,
{
    let source = match request.request().sources.get(region.source_role) {
        Some(s) => s,
        None => return Err(ResultContractError::InvalidSourceEvidence),
    };
    if source.source_id != region.source_id || (digest_required && region.sha256.is_none()) {
        return Err(ResultContractError::InvalidSourceEvidence);
    }
    let document = match request.sources().get(region.source_id.as_str()) {
        Ok(d) => d,
        Err(_) => return Err(ResultContractError::InvalidSourceEvidence),
    };
    let digest = match document.range_digest(region.range.bytes()) {
        Ok(d) => d,
        Err(_) => return Err(ResultContractError::InvalidSourceEvidence),
    };
    match &region.sha256 {
        Some(expected) => {
            proof {
                broadcast use vstd::utf8::encode_utf8_decode_utf8;
                if utf8_of(expected@) == utf8_of(digest@) {
                    assert(vstd::utf8::decode_utf8(utf8_of(expected@)) == expected@);
                    assert(vstd::utf8::decode_utf8(utf8_of(digest@)) == digest@);
                }
            }
            if *expected != digest {
                return Err(ResultContractError::InvalidSourceEvidence);
            }
        },
        None => {},
    }
    Ok(())
}


fn any_unresolved_exec(cs: &Vec<ResultConflict>) -> (r: bool)
    ensures
        r == any_unresolved(cs@),
{
    let mut i: usize = 0;
    while i < cs.len()
        invariant
            i <= cs@.len(),
            forall|k: int| 0 <= k < i ==> (#[trigger] cs@[k]).resolution@ != "unresolved"@,
        decreases cs@.len() - i,
    {
        if str_eq(cs[i].resolution.as_str(), "unresolved") {
            return true;
        }
        i = i + 1;
    }
    false
}

fn any_blocking_exec(ds: &Vec<ResultDiagnostic>) -> (r: bool)
    ensures
        r == any_blocking(ds@),
{
    let mut i: usize = 0;
    while i < ds.len()
        invariant
            i <= ds@.len(),
            forall|k: int| 0 <= k < i ==> !(#[trigger] ds@[k]).blocking,
        decreases ds@.len() - i,
    {
        if ds[i].blocking {
            return true;
        }
        i = i + 1;
    }
    false
}

fn selector_mismatch_exec(requested: &Option<String>, actual: &Option<String>, classified: bool) -> (r:
    bool)
    ensures
        r == selector_mismatch(*requested, *actual, classified),
{
    requested.is_some() && (classified || actual.is_some()) && !opt_str_eq(requested, actual)
}

fn parser_mismatch_exec(res: &OperationResult, input: &OperationRequest, cl: bool) -> (r: bool)
    requires
        cl == classified(*res),
    ensures
        r == parser_mismatch(*res, *input),
{
    match &input.parser_selection.backend {
        Some(backend) => match &res.profile.parser {
            Some(parser) => {
                let requested = match &parser.requested_backend {
                    Some(v) => *v == *backend,
                    None => false,
                };
                let selected_differs = match &parser.selected_backend {
                    Some(v) => *v != *backend,
                    None => false,
                };
                let selected_is = match &parser.selected_backend {
                    Some(v) => *v == *backend,
                    None => false,
                };
                !requested || !opt_is(&parser.selection_mode, "explicit") || selected_differs || (
                cl && !selected_is)
            },
            None => cl,
        },
        None => false,
    }
}

/// The envelope checks, in check order.
fn header_check(res: &OperationResult, request: &ValidatedOperationRequest) -> (r: Option<
    ResultContractError,
>)
    ensures
        r == header_error(*res, *request),
{
    let input = request.request();
    if !str_eq(res.schema.as_str(), OPERATION_RESULT_SCHEMA) {
        return Some(ResultContractError::UnsupportedSchema);
    }
    if res.request_id != input.request_id || res.operation != input.operation.kind() {
        return Some(ResultContractError::IdentityMismatch);
    }
    if res.output.is_some() && res.conflicted_output.is_some() {
        return Some(ResultContractError::ContradictoryOutput);
    }
    let merge = res.operation == OperationKind::Merge2 || res.operation == OperationKind::Merge3;
    if !merge && (res.output.is_some() || res.conflicted_output.is_some()) {
        return Some(ResultContractError::ContradictoryOutput);
    }
    if res.fallbacks.len() > 0 {
        if str_eq(input.operation.fallback_policy(), "none") {
            return Some(ResultContractError::UndeclaredFallback);
        } else {
            return Some(ResultContractError::UnverifiedFallback);
        }
    }
    let unresolved = any_unresolved_exec(&res.conflicts);
    let blocking = any_blocking_exec(&res.diagnostics);
    if (res.ok && (unresolved || blocking || res.conflicted_output.is_some())) || (!res.ok
        && !unresolved && !blocking) || (!res.ok && res.output.is_some()) || (
    res.conflicted_output.is_some() && !unresolved) {
        return Some(ResultContractError::ContradictoryOutcome);
    }
    let v = &res.verification;
    let cl = res.ok || res.changes.len() > 0 || res.conflicts.len() > 0
        || v.classification_reached == Some(true);
    if cl && v.classification_reached == Some(false) {
        return Some(ResultContractError::ContradictoryOutcome);
    }
    let roles = res.operation.source_roles();
    let consumed_exact = match &v.consumed_source_roles {
        Some(c) => roles_equal(c, &roles),
        None => false,
    };
    if cl && !consumed_exact {
        if res.operation == OperationKind::Merge2 {
            return Some(ResultContractError::DirectionalRoleContractViolation);
        } else {
            return Some(ResultContractError::InvalidSourceRoles);
        }
    }
    if cl && res.operation == OperationKind::Merge2 && v.directional_roles_preserved != Some(true) {
        return Some(ResultContractError::DirectionalRoleContractViolation);
    }
    if cl && res.operation == OperationKind::Merge3 && v.base_participated != Some(true) {
        return Some(ResultContractError::BaseParticipationContractViolation);
    }
    match &v.consumed_source_roles {
        Some(c) => {
            if !roles_within_exec(c, &roles) || !roles_distinct_exec(c) {
                return Some(ResultContractError::InvalidSourceRoles);
            }
        },
        None => {},
    }
    if cl && (is_none_or_empty(&res.provider.provider_id) || is_none_or_empty(&res.provider.family)) {
        return Some(ResultContractError::SelectionMismatch);
    }
    if res.ok {
        if res.operation == OperationKind::Analyze && (res.analysis.is_none() || res.diff.is_some()) {
            return Some(ResultContractError::MissingPayload);
        }
        if res.operation == OperationKind::Diff2 && (res.diff.is_none() || res.analysis.is_some()) {
            return Some(ResultContractError::MissingPayload);
        }
        if merge && res.output.is_none() {
            return Some(ResultContractError::MissingPayload);
        }
        if merge && (v.output_reparsed != Some(true) || v.structural_equivalence != Some(true)) {
            return Some(ResultContractError::VerificationContractViolation);
        }
        if merge && v.preservation.is_none() {
            return Some(ResultContractError::PreservationContractViolation);
        }
    }
    if (res.operation != OperationKind::Analyze && res.analysis.is_some()) || (res.operation
        != OperationKind::Diff2 && res.diff.is_some()) {
        return Some(ResultContractError::ContradictoryOutcome);
    }
    match &res.analysis {
        Some(a) => {
            if !str_eq(a.schema.as_str(), ANALYSIS_RESULT_SCHEMA) {
                return Some(ResultContractError::UnsupportedSchema);
            }
        },
        None => {},
    }
    if selector_mismatch_exec(&input.provider_selection.provider_id, &res.provider.provider_id, cl)
        || selector_mismatch_exec(&input.provider_selection.family, &res.provider.family, cl)
        || selector_mismatch_exec(&input.provider_selection.profile_id, &res.profile.profile_id, cl)
        || parser_mismatch_exec(res, input, cl) {
        return Some(ResultContractError::SelectionMismatch);
    }
    None
}


fn diagnostic_check(d: &ResultDiagnostic, roles: &Vec<SourceRole>, request: &ValidatedOperationRequest) -> (r:
    Option<ResultContractError>)
    ensures
        r == diagnostic_error(*d, roles@, *request),
{
    let c = d.category.as_str();
    if (str_eq(c, "parse-error") || str_eq(c, "parse_error") || str_eq(c, "destination_parse_error"))
        && d.source_role.is_none() {
        return Some(ResultContractError::InvalidSourceEvidence);
    }
    let sv = d.severity.as_str();
    let role_outside = match d.source_role {
        Some(r) => !role_in(roles, r),
        None => false,
    };
    if !(str_eq(sv, "info") || str_eq(sv, "warning") || str_eq(sv, "error")) || c.is_empty()
        || d.code.as_str().is_empty() || role_outside {
        return Some(ResultContractError::InvalidRecord);
    }
    match &d.span {
        Some(span) => match d.source_role {
            Some(role) => {
                if check_span(role, span, request).is_err() {
                    return Some(ResultContractError::InvalidSourceEvidence);
                }
            },
            None => return Some(ResultContractError::InvalidSourceEvidence),
        },
        None => {},
    }
    None
}

fn role_named(roles: &Vec<SourceRole>, key: &str) -> (r: bool)
    ensures
        r == names_role(roles@, key@),
{
    let mut k: usize = 0;
    while k < roles.len()
        invariant
            k <= roles@.len(),
            forall|j: int| 0 <= j < k ==> role_name_spec(roles@[j]) != key@,
        decreases roles@.len() - k,
    {
        if str_eq(role_name(roles[k]), key) {
            return true;
        }
        k = k + 1;
    }
    false
}

fn role_states_ok_exec(m: &Metadata, roles: &Vec<SourceRole>) -> (r: bool)
    ensures
        r == role_states_ok(*m, roles@),
{
    let mut i: usize = 0;
    while i < m.entries.len()
        invariant
            i <= m.entries@.len(),
            forall|a: int| 0 <= a < i ==> names_role(roles@, (#[trigger] m.entries@[a]).key@),
        decreases m.entries@.len() - i,
    {
        if !role_named(roles, m.entries[i].key.as_str()) {
            return false;
        }
        i = i + 1;
    }
    true
}

#[verifier::loop_isolation(false)]
fn change_check(c: &ResultChange, roles: &Vec<SourceRole>, request: &ValidatedOperationRequest) -> (r:
    Option<ResultContractError>)
    ensures
        r == change_error(*c, roles@, *request),
{
    if c.classification.as_str().is_empty() || (is_none_or_empty(&c.subject_ref)
        && is_none_or_empty(&c.path)) || !role_states_ok_exec(&c.role_states, roles) {
        return Some(ResultContractError::InvalidRecord);
    }
    let mut k: usize = 0;
    while k < 9
        invariant
            k <= 9,
            forall|j: int|
                0 <= j < k ==> !(#[trigger] c.source_spans.spec_get(rank_role(j)) matches Some(sp)
                    && !span_ok(rank_role(j), sp, *request)),
        decreases 9 - k,
    {
        let role = role_of_rank(k);
        match c.source_spans.get(role) {
            Some(span) => {
                if check_span(role, span, request).is_err() {
                    assert(c.source_spans.spec_get(role) == Some(*span));
                    return Some(ResultContractError::InvalidSourceEvidence);
                }
            },
            None => {},
        }
        k = k + 1;
    }
    assert forall|role: SourceRole| !(#[trigger] c.source_spans.spec_get(role) matches Some(sp)
        && !span_ok(role, sp, *request)) by {
        crate::role_map::lemma_rank_role(role);
        assert(rank_role(crate::source::role_rank(role)) == role);
    }
    None
}

#[verifier::loop_isolation(false)]
fn conflict_check(
    c: &ResultConflict,
    merge: bool,
    roles: &Vec<SourceRole>,
    request: &ValidatedOperationRequest,
) -> (r: Option<ResultContractError>)
    ensures
        r == conflict_error(*c, merge, roles@, *request),
{
    let res = c.resolution.as_str();
    if !merge || c.category.as_str().is_empty() || (is_none_or_empty(&c.subject_ref)
        && is_none_or_empty(&c.path)) || c.roles.len() == 0 || !roles_distinct_exec(&c.roles)
        || !roles_within_exec(&c.roles, roles) || !(str_eq(res, "resolved") || str_eq(
        res,
        "unresolved",
    )) {
        return Some(ResultContractError::InvalidRecord);
    }
    let mut k: usize = 0;
    while k < c.source_regions.len()
        invariant
            k <= c.source_regions@.len(),
            forall|j: int| 0 <= j < k ==> !#[trigger] region_bad(*c, c.source_regions@[j], *request),
        decreases c.source_regions@.len() - k,
    {
        let region = &c.source_regions[k];
        if !role_in(&c.roles, region.source_role) {
            assert(region_bad(*c, c.source_regions@[k as int], *request));
            return Some(ResultContractError::InvalidSourceEvidence);
        }
        if check_region(region, request, false).is_err() {
            assert(region_bad(*c, c.source_regions@[k as int], *request));
            return Some(ResultContractError::InvalidSourceEvidence);
        }
        k = k + 1;
    }
    None
}

/// The record checks, in check order.
#[verifier::loop_isolation(false)]
fn records_check(res: &OperationResult, request: &ValidatedOperationRequest) -> (r: Option<
    ResultContractError,
>)
    ensures
        r == records_error(*res, *request),
{
    let roles = res.operation.source_roles();
    if !unique_nonempty(&diagnostic_id_list(&res.diagnostics)) || !unique_nonempty(
        &change_id_list(&res.changes),
    ) || !unique_nonempty(&conflict_id_list(&res.conflicts)) {
        return Some(ResultContractError::InvalidRecord);
    }
    let mut i: usize = 0;
    while i < res.diagnostics.len()
        invariant
            roles@ == kind_roles(res.operation),
            i <= res.diagnostics@.len(),
            first_diagnostic_error(res.diagnostics@, roles@, *request, 0)
                == first_diagnostic_error(res.diagnostics@, roles@, *request, i as int),
        decreases res.diagnostics@.len() - i,
    {
        let e = diagnostic_check(&res.diagnostics[i], &roles, request);
        if e.is_some() {
            return e;
        }
        i = i + 1;
    }
    let mut i: usize = 0;
    while i < res.changes.len()
        invariant
            roles@ == kind_roles(res.operation),
            i <= res.changes@.len(),
            first_change_error(res.changes@, roles@, *request, 0) == first_change_error(
                res.changes@,
                roles@,
                *request,
                i as int,
            ),
        decreases res.changes@.len() - i,
    {
        let e = change_check(&res.changes[i], &roles, request);
        if e.is_some() {
            return e;
        }
        i = i + 1;
    }
    match &res.diff {
        Some(d) => {
            let listed = change_id_list(&res.changes);
            if d.change_ids.len() != listed.len() {
                assert(string_views(d.change_ids@).len() != change_ids(res.changes@).len());
                return Some(ResultContractError::InvalidRecord);
            }
            let mut same = true;
            let mut k: usize = 0;
            while k < listed.len() && same
                invariant
                    listed@.map_values(|s: &str| s@) == change_ids(res.changes@),
                    k <= listed@.len(),
                    same ==> d.change_ids@.len() == listed@.len() && forall|j: int|
                        0 <= j < k ==> #[trigger] d.change_ids@[j]@ == listed@[j]@,
                    !same ==> string_views(d.change_ids@) != change_ids(res.changes@),
                decreases listed@.len() - k,
            {
                if !str_eq(d.change_ids[k].as_str(), listed[k]) {
                    assert(string_views(d.change_ids@)[k as int] != change_ids(res.changes@)[k as int]);
                    same = false;
                }
                k = k + 1;
            }
            if same {
                assert(string_views(d.change_ids@) =~= change_ids(res.changes@));
            } else {
                return Some(ResultContractError::InvalidRecord);
            }
            if !same {
                return Some(ResultContractError::InvalidRecord);
            }
        },
        None => {},
    }
    let merge = res.operation == OperationKind::Merge2 || res.operation == OperationKind::Merge3;
    let mut i: usize = 0;
    while i < res.conflicts.len()
        invariant
            roles@ == kind_roles(res.operation),
            merge == is_merge(res.operation),
            i <= res.conflicts@.len(),
            first_conflict_error(res.conflicts@, merge, roles@, *request, 0)
                == first_conflict_error(res.conflicts@, merge, roles@, *request, i as int),
        decreases res.conflicts@.len() - i,
    {
        let e = conflict_check(&res.conflicts[i], merge, &roles, request);
        if e.is_some() {
            return e;
        }
        i = i + 1;
    }
    match &res.verification.preservation {
        Some(ps) => {
            if !unique_nonempty(&property_name_list(ps)) {
                return Some(ResultContractError::InvalidRecord);
            }
            let mut k: usize = 0;
            while k < ps.len()
                invariant
                    k <= ps@.len(),
                    forall|j: int| 0 <= j < k ==> !#[trigger] property_bad(ps@[j], res.ok),
                decreases ps@.len() - k,
            {
                let st = ps[k].status.as_str();
                if !(str_eq(st, "passed") || str_eq(st, "failed") || str_eq(st, "unverified")) || (
                res.ok && ps[k].required && !str_eq(st, "passed")) {
                    assert(property_bad(ps@[k as int], res.ok));
                    return Some(ResultContractError::PreservationContractViolation);
                }
                k = k + 1;
            }
        },
        None => {},
    }
    match &res.verification.retained_source_regions {
        Some(rs) => {
            let mut k: usize = 0;
            while k < rs.len()
                invariant
                    k <= rs@.len(),
                    forall|j: int| 0 <= j < k ==> region_ok(#[trigger] rs@[j], *request, true),
                decreases rs@.len() - k,
            {
                if check_region(&rs[k], request, true).is_err() {
                    assert(!region_ok(rs@[k as int], *request, true));
                    return Some(ResultContractError::InvalidSourceEvidence);
                }
                k = k + 1;
            }
        },
        None => {},
    }
    None
}

impl OperationResult {
    /// Check observable contract invariants against verified request bytes.
    /// This is not a semantic verifier or registry negotiation; nonempty
    /// fallbacks fail closed even when named.
    pub fn validate_against(&self, request: &ValidatedOperationRequest) -> (r: Result<
        (),
        ResultContractError,
    >)
        ensures
            match result_error(*self, *request) {
                Some(e) => r == Err::<(), ResultContractError>(e),
                None => r is Ok,
            },
    {
        match header_check(self, request) {
            Some(e) => return Err(e),
            None => {},
        }
        match records_check(self, request) {
            Some(e) => Err(e),
            None => Ok(()),
        }
    }
}


// ---------------------------------------------------------------------------
// Batches of results

pub open spec fn request_ids(reqs: Seq<ValidatedOperationRequest>) -> Seq<Seq<char>> {
    reqs.map_values(|r: ValidatedOperationRequest| r.spec_request().request_id@)
}

pub open spec fn result_ids(rs: Seq<OperationResult>) -> Seq<Seq<char>> {
    rs.map_values(|r: OperationResult| r.request_id@)
}

/// Same count of requests and results, and identities that are nonempty and
/// distinct on each side.
pub open spec fn batch_identity_ok(reqs: Seq<ValidatedOperationRequest>, rs: Seq<OperationResult>) -> bool {
    &&& reqs.len() == rs.len()
    &&& unique_nonempty_spec(request_ids(reqs))
    &&& unique_nonempty_spec(result_ids(rs))
}

/// The position of a result answering `id`.
pub open spec fn result_position(rs: Seq<OperationResult>, id: Seq<char>) -> Option<int> {
    if exists|j: int| 0 <= j < rs.len() && (#[trigger] rs[j]).request_id@ == id {
        Some(choose|j: int| 0 <= j < rs.len() && (#[trigger] rs[j]).request_id@ == id)
    } else {
        None
    }
}

/// The first failure met when the requests from `i` on are answered in order:
/// a request with no result, or a result that breaks its request's contract.
pub open spec fn correlation_error(
    reqs: Seq<ValidatedOperationRequest>,
    rs: Seq<OperationResult>,
    i: int,
) -> Option<ResultContractError>
    decreases reqs.len() - i,
{
    if i < 0 || i >= reqs.len() {
        None
    } else {
        match result_position(rs, reqs[i].spec_request().request_id@) {
            None => Some(ResultContractError::IdentityMismatch),
            Some(j) => match result_error(rs[j], reqs[i]) {
                Some(e) => Some(e),
                None => correlation_error(reqs, rs, i + 1),
            },
        }
    }
}

fn find_result(results: &Vec<OperationResult>, id: &str) -> (r: Option<usize>)
    ensures
        match r {
            Some(j) => j < results@.len() && results@[j as int].request_id@ == id@,
            None => forall|j: int| 0 <= j < results@.len() ==> (#[trigger] results@[j]).request_id@ != id@,
        },
{
    let mut j: usize = 0;
    while j < results.len()
        invariant
            j <= results@.len(),
            forall|k: int| 0 <= k < j ==> (#[trigger] results@[k]).request_id@ != id@,
        decreases results@.len() - j,
    {
        if str_eq(results[j].request_id.as_str(), id) {
            return Some(j);
        }
        j = j + 1;
    }
    None
}

fn request_id_list(requests: &[ValidatedOperationRequest]) -> (v: Vec<&str>)
    ensures
        v@.map_values(|s: &str| s@) == request_ids(requests@),
{
    let mut v: Vec<&str> = Vec::new();
    let mut i: usize = 0;
    while i < requests.len()
        invariant
            i <= requests@.len(),
            v@.len() == i,
            forall|k: int| 0 <= k < i ==> (#[trigger] v@[k])@ == requests@[k].spec_request().request_id@,
        decreases requests@.len() - i,
    {
        v.push(requests[i].request().request_id.as_str());
        i = i + 1;
    }
    assert(v@.map_values(|s: &str| s@) =~= request_ids(requests@));
    v
}

fn result_id_list(results: &Vec<OperationResult>) -> (v: Vec<&str>)
    ensures
        v@.map_values(|s: &str| s@) == result_ids(results@),
{
    let mut v: Vec<&str> = Vec::new();
    let mut i: usize = 0;
    while i < results.len()
        invariant
            i <= results@.len(),
            v@.len() == i,
            forall|k: int| 0 <= k < i ==> (#[trigger] v@[k])@ == results@[k].request_id@,
        decreases results@.len() - i,
    {
        v.push(results[i].request_id.as_str());
        i = i + 1;
    }
    assert(v@.map_values(|s: &str| s@) =~= result_ids(results@));
    v
}

/// Under distinct result identities, the position found is the one named.
proof fn lemma_position_unique(rs: Seq<OperationResult>, id: Seq<char>, j: int)
    requires
        unique_nonempty_spec(result_ids(rs)),
        0 <= j < rs.len(),
        rs[j].request_id@ == id,
    ensures
        result_position(rs, id) == Some(j),
{
    assert(exists|q: int| 0 <= q < rs.len() && (#[trigger] rs[q]).request_id@ == id);
    let k = result_position(rs, id)->0;
    assert(0 <= k < rs.len() && rs[k].request_id@ == id);
    if k != j {
        assert(result_ids(rs)[k] == result_ids(rs)[j]);
        if k < j {
            assert(result_ids(rs)[k] != result_ids(rs)[j]);
        } else {
            assert(result_ids(rs)[j] != result_ids(rs)[k]);
        }
    }
}

proof fn lemma_correlation_prefix(
    reqs: Seq<ValidatedOperationRequest>,
    rs: Seq<OperationResult>,
    i: int,
)
    requires
        0 <= i <= reqs.len(),
        forall|k: int| 0 <= k < i ==> ((#[trigger] result_position(rs, reqs[k].spec_request().request_id@)) matches Some(j)
            && result_error(rs[j], reqs[k]) is None),
    ensures
        correlation_error(reqs, rs, 0) == correlation_error(reqs, rs, i),
    decreases i,
{
    if i > 0 {
        lemma_correlation_prefix(reqs, rs, i - 1);
        let _ = result_position(rs, reqs[i - 1].spec_request().request_id@);
    }
}

/// Some request before `i` was answered by the result at `j`.
pub open spec fn picked_before(picks: Seq<usize>, i: int, j: int) -> bool {
    exists|m: int| 0 <= m < i && picks[m] == j
}

/// Correlate an out-of-order batch of results by identity, validate every
/// member against its request, and return them in the caller's request order.
/// Missing, extra or duplicate results reject the whole batch.
pub fn validate_operation_results(
    requests: &[ValidatedOperationRequest],
    results: Vec<OperationResult>,
) -> (r: Result<Vec<OperationResult>, ResultContractError>)
    ensures
        !batch_identity_ok(requests@, results@) ==> r == Err::<Vec<OperationResult>, ResultContractError>(
            ResultContractError::IdentityMismatch,
        ),
        batch_identity_ok(requests@, results@) ==> match correlation_error(requests@, results@, 0) {
            Some(e) => r == Err::<Vec<OperationResult>, ResultContractError>(e),
            None => r matches Ok(v) && v@.len() == requests@.len() && forall|i: int|
                0 <= i < v@.len() ==> (result_position(results@, requests@[i].spec_request().request_id@)
                    matches Some(j) && #[trigger] v@[i] == results@[j]),
        },
        r matches Ok(v) ==> is_permutation(results@, v@),
        r matches Ok(v) ==> accepted_in_order(requests@, v@),
{
    if requests.len() != results.len() {
        return Err(ResultContractError::IdentityMismatch);
    }
    let req_ids = request_id_list(requests);
    let res_ids = result_id_list(&results);
    if !unique_nonempty(&req_ids) || !unique_nonempty(&res_ids) {
        return Err(ResultContractError::IdentityMismatch);
    }
    let ghost orig = results@;
    let n = results.len();
    // Answer each request in order, by reference first.
    let mut picks: Vec<usize> = Vec::new();
    let mut i: usize = 0;
    while i < n
        invariant
            batch_identity_ok(requests@, orig),
            results@ == orig,
            n == orig.len(),
            i <= n,
            picks@.len() == i,
            forall|k: int| 0 <= k < i ==> (#[trigger] picks@[k]) < n,
            forall|k: int| 0 <= k < i ==> orig[#[trigger] picks@[k] as int].request_id@
                == requests@[k].spec_request().request_id@,
            forall|k: int| 0 <= k < i ==> (#[trigger] result_position(orig, requests@[k].spec_request().request_id@))
                == Some(picks@[k] as int) && result_error(orig[picks@[k] as int], requests@[k]) is None,
        decreases n - i,
    {
        let id = requests[i].request().request_id.as_str();
        match find_result(&results, id) {
            None => {
                proof {
                    lemma_correlation_prefix(requests@, orig, i as int);
                    assert(result_position(orig, id@) is None);
                }
                return Err(ResultContractError::IdentityMismatch);
            },
            Some(j) => {
                proof {
                    lemma_position_unique(orig, id@, j as int);
                }
                match results[j].validate_against(&requests[i]) {
                    Err(e) => {
                        proof {
                            lemma_correlation_prefix(requests@, orig, i as int);
                        }
                        return Err(e);
                    },
                    Ok(()) => {},
                }
                picks.push(j);
            },
        }
        i = i + 1;
    }
    proof {
        lemma_correlation_prefix(requests@, orig, n as int);
        assert forall|a: int, b: int| 0 <= a < b < n implies picks@[a] != picks@[b] by {
            assert(request_ids(requests@)[a] != request_ids(requests@)[b]);
            assert(orig[picks@[a] as int].request_id@ == requests@[a].spec_request().request_id@);
            assert(orig[picks@[b] as int].request_id@ == requests@[b].spec_request().request_id@);
        }
    }
    // Take ownership: slot `k` holds the result at `n - 1 - k`.
    let mut rest = results;
    let mut slots: Vec<Option<OperationResult>> = Vec::new();
    while rest.len() > 0
        invariant
            n == orig.len(),
            rest@ == orig.take(rest@.len() as int),
            slots@.len() + rest@.len() == n,
            forall|k: int| 0 <= k < slots@.len() ==> #[trigger] slots@[k] == Some(orig[n - 1 - k]),
        decreases rest@.len(),
    {
        let x = rest.pop();
        slots.push(x);
    }
    let mut ordered: Vec<OperationResult> = Vec::new();
    let mut i: usize = 0;
    while i < n
        invariant
            n == orig.len(),
            picks@.len() == n,
            slots@.len() == n,
            i <= n,
            ordered@.len() == i,
            forall|k: int| 0 <= k < n ==> (#[trigger] picks@[k]) < n,
            forall|a: int, b: int| 0 <= a < b < n ==> picks@[a] != picks@[b],
            forall|k: int| 0 <= k < i ==> #[trigger] ordered@[k] == orig[picks@[k] as int],
            forall|k: int| 0 <= k < n ==> #[trigger] slots@[k] == if picked_before(picks@, i as int, n - 1 - k) {
                None
            } else {
                Some(orig[n - 1 - k])
            },
        decreases n - i,
    {
        let j = picks[i];
        let k = n - 1 - j;
        proof {
            if picked_before(picks@, i as int, j as int) {
                let m = choose|m: int| 0 <= m < i && picks@[m] == j;
                assert(picks@[m] != picks@[i as int]);
            }
        }
        let x = slots.remove(k);
        slots.insert(k, None);
        match x {
            Some(res) => {
                ordered.push(res);
            },
            None => {
                assert(false);
                return Err(ResultContractError::IdentityMismatch);
            },
        }
        proof {
            assert forall|q: int| 0 <= q < n implies #[trigger] slots@[q] == if picked_before(picks@, i + 1, n - 1 - q) {
                None
            } else {
                Some(orig[n - 1 - q])
            } by {
                if q == k {
                    assert(picks@[i as int] == n - 1 - q);
                } else {
                    if picked_before(picks@, i + 1, n - 1 - q) {
                        let m = choose|m: int| 0 <= m < i + 1 && picks@[m] == n - 1 - q;
                        assert(m != i);
                    }
                }
            }
        }
        i = i + 1;
    }
    proof {
        law_accepted_results_are_a_permutation(requests@, orig, ordered@);
        law_accepted_results_answer_in_order(requests@, orig, ordered@);
        assert(is_permutation(results@, ordered@));
    }
    Ok(ordered)
}

// ---------------------------------------------------------------------------
// What an accepted result guarantees

/// An accepted result answers its request, reports an outcome consistent
/// with its records, and an accepted successful merge carries verified
/// output: success means no unresolved conflict and no blocking diagnostic;
/// failure means at least one of them and no output; conflicted output comes
/// only with an unresolved conflict.
pub proof fn law_accepted_result_outcome(res: OperationResult, req: ValidatedOperationRequest)
    requires
        result_error(res, req) is None,
    ensures
        res.request_id@ == req.spec_request().request_id@,
        res.operation == policy_kind(req.spec_request().operation),
        res.fallbacks@.len() == 0,
        res.ok ==> !any_unresolved(res.conflicts@) && !any_blocking(res.diagnostics@)
            && res.conflicted_output is None,
        !res.ok ==> (any_unresolved(res.conflicts@) || any_blocking(res.diagnostics@))
            && res.output is None,
        res.conflicted_output is Some ==> any_unresolved(res.conflicts@),
        res.ok && is_merge(res.operation) ==> {
            &&& res.output is Some
            &&& res.verification.output_reparsed == Some(true)
            &&& res.verification.structural_equivalence == Some(true)
            &&& res.verification.preservation is Some
        },
        !is_merge(res.operation) ==> res.output is None && res.conflicted_output is None,
{
}

/// An accepted batch of results comes back in the caller's request order.
pub proof fn law_results_in_request_order(
    requests: Seq<ValidatedOperationRequest>,
    results: Seq<OperationResult>,
    ordered: Seq<OperationResult>,
)
    requires
        batch_identity_ok(requests, results),
        correlation_error(requests, results, 0) is None,
        ordered.len() == requests.len(),
        forall|i: int|
            0 <= i < ordered.len() ==> (result_position(results, requests[i].spec_request().request_id@)
                matches Some(j) && #[trigger] ordered[i] == results[j]),
    ensures
        forall|i: int|
            0 <= i < ordered.len() ==> (#[trigger] ordered[i]).request_id@
                == requests[i].spec_request().request_id@ && result_error(ordered[i], requests[i]) is None,
{
    assert forall|i: int| 0 <= i < ordered.len() implies (#[trigger] ordered[i]).request_id@
        == requests[i].spec_request().request_id@ && result_error(ordered[i], requests[i]) is None by {
        lemma_correlation_member(requests, results, 0, i);
    }
}

/// `rs2` holds the results of `rs` in the order `perm`, whose inverse is
/// `inv`.
pub open spec fn permuted(rs: Seq<OperationResult>, rs2: Seq<OperationResult>, perm: Seq<int>, inv: Seq<int>) -> bool {
    &&& rs2.len() == rs.len()
    &&& perm.len() == rs.len()
    &&& inv.len() == rs.len()
    &&& forall|i: int| 0 <= i < rs.len() ==> 0 <= #[trigger] perm[i] < rs.len() && rs2[i] == rs[perm[i]]
    &&& forall|j: int| 0 <= j < rs.len() ==> 0 <= #[trigger] inv[j] < rs.len() && perm[inv[j]] == j
    &&& forall|i: int| 0 <= i < rs.len() ==> inv[#[trigger] perm[i]] == i
}

proof fn lemma_permuted_position(
    rs: Seq<OperationResult>,
    rs2: Seq<OperationResult>,
    perm: Seq<int>,
    inv: Seq<int>,
    id: Seq<char>,
)
    requires
        permuted(rs, rs2, perm, inv),
        unique_nonempty_spec(result_ids(rs)),
    ensures
        unique_nonempty_spec(result_ids(rs2)),
        (result_position(rs, id) is None) == (result_position(rs2, id) is None),
        result_position(rs, id) matches Some(j) ==> result_position(rs2, id) matches Some(j2) && rs2[j2] == rs[j],
{
    assert forall|i: int| 0 <= i < result_ids(rs2).len() implies (#[trigger] result_ids(rs2)[i]).len() > 0 by {
        assert(result_ids(rs2)[i] == result_ids(rs)[perm[i]]);
    }
    assert forall|i: int, j: int| 0 <= i < j < result_ids(rs2).len() implies #[trigger] result_ids(rs2)[i]
        != #[trigger] result_ids(rs2)[j] by {
        assert(result_ids(rs2)[i] == result_ids(rs)[perm[i]]);
        assert(result_ids(rs2)[j] == result_ids(rs)[perm[j]]);
        assert(inv[perm[i]] == i && inv[perm[j]] == j);
        if perm[i] < perm[j] {
            assert(result_ids(rs)[perm[i]] != result_ids(rs)[perm[j]]);
        } else {
            assert(perm[i] != perm[j]);
            assert(result_ids(rs)[perm[j]] != result_ids(rs)[perm[i]]);
        }
    }
    if let Some(j) = result_position(rs, id) {
        assert(rs[j].request_id@ == id);
        let k = inv[j];
        assert(rs2[k] == rs[j]);
        assert(rs2[k].request_id@ == id);
        let j2 = result_position(rs2, id)->0;
        assert(rs2[j2].request_id@ == id);
        let p = perm[j2];
        assert(rs[p] == rs2[j2]);
        if p != j {
            assert(result_ids(rs)[p] == result_ids(rs)[j]);
            if p < j {
                assert(result_ids(rs)[p] != result_ids(rs)[j]);
            } else {
                assert(result_ids(rs)[j] != result_ids(rs)[p]);
            }
        }
    } else {
        if exists|j2: int| 0 <= j2 < rs2.len() && (#[trigger] rs2[j2]).request_id@ == id {
            let j2 = choose|j2: int| 0 <= j2 < rs2.len() && (#[trigger] rs2[j2]).request_id@ == id;
            assert(rs[perm[j2]].request_id@ == id);
        }
    }
}

proof fn lemma_permuted_correlation(
    reqs: Seq<ValidatedOperationRequest>,
    rs: Seq<OperationResult>,
    rs2: Seq<OperationResult>,
    perm: Seq<int>,
    inv: Seq<int>,
    i: int,
)
    requires
        permuted(rs, rs2, perm, inv),
        unique_nonempty_spec(result_ids(rs)),
    ensures
        correlation_error(reqs, rs, i) == correlation_error(reqs, rs2, i),
    decreases reqs.len() - i,
{
    if 0 <= i < reqs.len() {
        lemma_permuted_position(rs, rs2, perm, inv, reqs[i].spec_request().request_id@);
        lemma_permuted_correlation(reqs, rs, rs2, perm, inv, i + 1);
    }
}

/// Validation does not depend on the order in which results arrive: the
/// same results in any order are accepted or refused alike, with the same
/// error, and an accepted batch answers each request with the same result.
pub proof fn law_result_arrival_order_is_irrelevant(
    requests: Seq<ValidatedOperationRequest>,
    results: Seq<OperationResult>,
    reordered: Seq<OperationResult>,
    perm: Seq<int>,
    inv: Seq<int>,
)
    requires
        permuted(results, reordered, perm, inv),
    ensures
        batch_identity_ok(requests, results) == batch_identity_ok(requests, reordered),
        batch_identity_ok(requests, results) ==> correlation_error(requests, results, 0) == correlation_error(
            requests,
            reordered,
            0,
        ),
        batch_identity_ok(requests, results) ==> forall|i: int|
            0 <= i < requests.len() ==> (#[trigger] result_position(results, requests[i].spec_request().request_id@)
                matches Some(j) ==> result_position(reordered, requests[i].spec_request().request_id@) matches Some(
                j2,
            ) && reordered[j2] == results[j]),
{
    if unique_nonempty_spec(result_ids(results)) {
        lemma_permuted_position(results, reordered, perm, inv, Seq::empty());
        lemma_permuted_correlation(requests, results, reordered, perm, inv, 0);
        assert forall|i: int|
            0 <= i < requests.len() implies (#[trigger] result_position(
                results,
                requests[i].spec_request().request_id@,
            ) matches Some(j) ==> result_position(reordered, requests[i].spec_request().request_id@) matches Some(
                j2,
            ) && reordered[j2] == results[j]) by {
            lemma_permuted_position(results, reordered, perm, inv, requests[i].spec_request().request_id@);
        }
    } else if unique_nonempty_spec(result_ids(reordered)) {
        let back = Seq::new(results.len(), |j: int| inv[j]);
        assert(permuted(reordered, results, back, perm));
        lemma_permuted_position(reordered, results, back, perm, Seq::empty());
    }
}

proof fn lemma_correlation_member(
    reqs: Seq<ValidatedOperationRequest>,
    rs: Seq<OperationResult>,
    from: int,
    i: int,
)
    requires
        0 <= from <= i < reqs.len(),
        correlation_error(reqs, rs, from) is None,
    ensures
        result_position(rs, reqs[i].spec_request().request_id@) matches Some(j) && 0 <= j < rs.len()
            && rs[j].request_id@ == reqs[i].spec_request().request_id@ && result_error(rs[j], reqs[i]) is None,
    decreases i - from,
{
    let id = reqs[from].spec_request().request_id@;
    if result_position(rs, id) is Some {
        let j = result_position(rs, id)->0;
        assert(exists|q: int| 0 <= q < rs.len() && (#[trigger] rs[q]).request_id@ == id);
    }
    if from < i {
        lemma_correlation_member(reqs, rs, from + 1, i);
    }
}

/// The `i`-th result answers the `i`-th request and passes its check.
pub open spec fn accepted_in_order(reqs: Seq<ValidatedOperationRequest>, out: Seq<OperationResult>) -> bool {
    &&& out.len() == reqs.len()
    &&& forall|i: int|
        0 <= i < out.len() ==> (#[trigger] out[i]).request_id@ == reqs[i].spec_request().request_id@
            && result_error(out[i], reqs[i]) is None
}

/// An accepted batch answers each request in request order, with a result
/// that carries the request's identity and passes the request's check.
pub proof fn law_accepted_results_answer_in_order(
    requests: Seq<ValidatedOperationRequest>,
    results: Seq<OperationResult>,
    out: Seq<OperationResult>,
)
    requires
        correlation_error(requests, results, 0) is None,
        out.len() == requests.len(),
        forall|i: int|
            0 <= i < out.len() ==> (result_position(results, requests[i].spec_request().request_id@) matches Some(j)
                && #[trigger] out[i] == results[j]),
    ensures
        accepted_in_order(requests, out),
{
    assert forall|i: int| 0 <= i < out.len() implies (#[trigger] out[i]).request_id@
        == requests[i].spec_request().request_id@ && result_error(out[i], requests[i]) is None by {
        lemma_correlation_member(requests, results, 0, i);
    }
}

/// `rs2` holds the results of `rs`, each once, in some order.
pub open spec fn is_permutation(rs: Seq<OperationResult>, rs2: Seq<OperationResult>) -> bool {
    exists|perm: Seq<int>, inv: Seq<int>| #[trigger] permuted(rs, rs2, perm, inv)
}

/// An accepted batch hands back exactly the results it was given, each
/// once, rearranged into request order: the output is a permutation of the
/// input results.
pub proof fn law_accepted_results_are_a_permutation(
    requests: Seq<ValidatedOperationRequest>,
    results: Seq<OperationResult>,
    out: Seq<OperationResult>,
)
    requires
        batch_identity_ok(requests, results),
        correlation_error(requests, results, 0) is None,
        out.len() == requests.len(),
        forall|i: int|
            0 <= i < out.len() ==> (result_position(results, requests[i].spec_request().request_id@) matches Some(j)
                && #[trigger] out[i] == results[j]),
    ensures
        is_permutation(results, out),
{
    let n = results.len() as int;
    let perm = Seq::new(n as nat, |i: int| result_position(results, requests[i].spec_request().request_id@)->0);
    assert forall|i: int| 0 <= i < n implies 0 <= #[trigger] perm[i] < n && results[perm[i]].request_id@
        == requests[i].spec_request().request_id@ && out[i] == results[perm[i]] by {
        lemma_correlation_member(requests, results, 0, i);
    }
    assert forall|a: int, b: int| 0 <= a < n && 0 <= b < n && #[trigger] perm[a] == #[trigger] perm[b] implies a == b by {
        if a != b {
            if a < b {
                assert(request_ids(requests)[a] != request_ids(requests)[b]);
            } else {
                assert(request_ids(requests)[b] != request_ids(requests)[a]);
            }
        }
    }
    let range = vstd::set_lib::set_int_range(0, n);
    let f = |i: int| perm[i];
    let image = range.map(f);
    vstd::set_lib::lemma_int_range(0, n);
    assert(vstd::relations::injective_on(f, range));
    vstd::set_lib::lemma_map_size(range, image, f);
    assert(image.subset_of(range));
    vstd::set_lib::lemma_subset_equality(image, range);
    let inv = Seq::new(n as nat, |j: int| choose|i: int| 0 <= i < n && perm[i] == j);
    assert forall|j: int| 0 <= j < n implies 0 <= #[trigger] inv[j] < n && perm[inv[j]] == j by {
        assert(range.contains(j));
        assert(image.contains(j));
    }
    assert forall|i: int| 0 <= i < n implies inv[#[trigger] perm[i]] == i by {
        let j = perm[i];
        assert(0 <= inv[j] < n && perm[inv[j]] == j);
    }
    assert(permuted(results, out, perm, inv));
}

} // verus!
