//! Canonical diagnostic records. Native codes are opaque origin evidence;
//! human messages never select categories or portable codes.
use crate::metadata::{Metadata, NativeExtension};
use crate::operation::ValidatedOperationRequest;
use crate::operation::policy_kind;
use crate::operation_result::{
    span_fits, span_in_document, string_views, unique_nonempty, unique_nonempty_spec, ResultDiagnostic,
    ResultSpan,
};
use crate::source::{SourceMap, SourceRole};
use crate::text::{owned, str_bytes, str_eq, utf8_of};
use crate::{kind_has_role, kind_roles, OperationKind};
use vstd::prelude::*;

verus! {

pub const DIAGNOSTIC_SCHEMA: &'static str = "structuredmerge.diagnostic/v1";

pub const MIGRATION_DIAGNOSTIC_SCHEMA: &'static str = "structuredmerge.migration-diagnostic/v1";

pub const MIGRATION_NAMESPACE: &'static str = "structuredmerge.migration";

/// How serious a diagnostic is.
#[derive(Clone, Copy, Debug, PartialEq, Eq, Structural)]
pub enum DiagnosticSeverity {
    Info,
    Warning,
    Error,
}

#[derive(Clone, Copy, Debug, PartialEq, Eq, Structural)]
pub enum PortableCategory {
    ParseError,
    DestinationParseError,
    InvalidRequest,
    ConfigurationError,
    SelectionError,
    BackendUnavailable,
    UnsupportedFeature,
    Ambiguity,
    AnalysisError,
    MergeConflict,
    RenderError,
    PreservationError,
    VerificationError,
    FallbackApplied,
    AssumedDefault,
    Cancelled,
    DeadlineExceeded,
    ResourceLimit,
    ReplayRejected,
    InternalError,
}

#[derive(Clone, Copy, Debug, PartialEq, Eq, Structural)]
pub enum DiagnosticLayer {
    Transport,
    Registry,
    Parser,
    Analysis,
    Provider,
    Renderer,
    Verifier,
    Adapter,
    Runner,
}

#[derive(Clone, Debug, PartialEq, Eq)]
pub struct DiagnosticOrigin {
    pub layer: DiagnosticLayer,
    pub provider_id: Option<String>,
    pub backend_id: Option<String>,
    pub package: Option<String>,
    pub package_version: Option<String>,
    pub native_code: Option<String>,
    pub extra: Metadata,
}

#[derive(Clone, Debug, PartialEq, Eq)]
pub struct DiagnosticSourceRef {
    pub source_id: String,
    pub role: SourceRole,
    pub span: Option<ResultSpan>,
    pub extra: Metadata,
}

#[derive(Clone, Debug, PartialEq, Eq)]
pub struct DiagnosticSubjectRef {
    pub kind: String,
    pub id: String,
    pub extra: Metadata,
}

#[derive(Clone, Debug, PartialEq, Eq)]
pub struct PortableDiagnostic {
    pub schema: String,
    pub id: String,
    pub sequence: u64,
    pub severity: DiagnosticSeverity,
    pub category: PortableCategory,
    pub code: String,
    pub message: String,
    pub blocking: bool,
    pub operation: Option<OperationKind>,
    pub request_id: Option<String>,
    pub source_refs: Vec<DiagnosticSourceRef>,
    pub subject_refs: Option<Vec<DiagnosticSubjectRef>>,
    pub cause_ids: Vec<String>,
    pub related_ids: Vec<String>,
    pub origin: DiagnosticOrigin,
    pub data: Metadata,
    pub extensions: Vec<NativeExtension>,
    pub metadata: Metadata,
    pub extra: Metadata,
}

/// A diagnostic in either the canonical or the historical migration shape.
/// A record that carries a schema is always the canonical shape.
#[derive(Clone, Debug, PartialEq, Eq)]
pub enum DiagnosticRecord {
    Canonical(PortableDiagnostic),
    Migration(ResultDiagnostic),
}

impl DiagnosticRecord {
    pub fn id(&self) -> (r: &str)
        ensures
            r@ == match self {
                DiagnosticRecord::Canonical(d) => d.id@,
                DiagnosticRecord::Migration(d) => d.id@,
            },
    {
        match self {
            DiagnosticRecord::Canonical(record) => record.id.as_str(),
            DiagnosticRecord::Migration(record) => record.id.as_str(),
        }
    }

    pub fn blocking(&self) -> (r: bool)
        ensures
            r == match self {
                DiagnosticRecord::Canonical(d) => d.blocking,
                DiagnosticRecord::Migration(d) => d.blocking,
            },
    {
        match self {
            DiagnosticRecord::Canonical(record) => record.blocking,
            DiagnosticRecord::Migration(record) => record.blocking,
        }
    }
}

#[derive(Clone, Copy, Debug, PartialEq, Eq, Structural)]
pub enum DiagnosticContractError {
    Schema,
    Identity,
    Code,
    Sequence,
    SemanticOrder,
    Causality,
    RelatedReference,
    SourceReference,
    SubjectReference,
    RequestIdentity,
    UnmappedMigration,
}

// ---------------------------------------------------------------------------
// Portable codes

pub open spec fn is_lower_byte(b: u8) -> bool {
    97 <= b <= 122
}

pub open spec fn is_code_byte(b: u8) -> bool {
    is_lower_byte(b) || (48 <= b <= 57) || b == 95
}

/// Two or more segments separated by `.`, each a lowercase ASCII letter
/// followed by lowercase letters, digits and `_`.
pub open spec fn portable_code_bytes(b: Seq<u8>) -> bool {
    &&& b.len() > 0
    &&& is_lower_byte(b[0])
    &&& exists|i: int| 0 <= i < b.len() && b[i] == 46
    &&& forall|i: int| 0 <= i < b.len() ==> is_code_byte(#[trigger] b[i]) || b[i] == 46
    &&& forall|i: int|
        0 <= i < b.len() && #[trigger] b[i] == 46 ==> i + 1 < b.len() && is_lower_byte(b[i + 1])
}

fn is_lower(b: u8) -> (r: bool)
    ensures
        r == is_lower_byte(b),
{
    97 <= b && b <= 122
}

/// Whether `code` has the shape of a portable code.
pub(crate) fn portable_code(code: &str) -> (r: bool)
    ensures
        r == portable_code_bytes(utf8_of(code@)),
{
    let b = str_bytes(code);
    if b.len() == 0 || !is_lower(b[0]) {
        return false;
    }
    let mut dotted = false;
    let mut i: usize = 0;
    while i < b.len()
        invariant
            b@ == utf8_of(code@),
            b@.len() > 0,
            is_lower_byte(b@[0]),
            i <= b@.len(),
            dotted == exists|k: int| 0 <= k < i && b@[k] == 46,
            forall|k: int| 0 <= k < i ==> is_code_byte(#[trigger] b@[k]) || b@[k] == 46,
            forall|k: int|
                0 <= k < i && #[trigger] b@[k] == 46 ==> k + 1 < b@.len() && is_lower_byte(b@[k + 1]),
        decreases b@.len() - i,
    {
        let c = b[i];
        if c == 46 {
            if i + 1 >= b.len() || !is_lower(b[i + 1]) {
                return false;
            }
            dotted = true;
        } else if !(is_lower(c) || (48 <= c && c <= 57) || c == 95) {
            return false;
        }
        i = i + 1;
    }
    dotted
}

// ---------------------------------------------------------------------------
// Semantic order

/// The pipeline phase a diagnostic belongs to: its category decides, and for
/// the categories that name no phase, the layer it came from.
pub open spec fn phase_of(category: PortableCategory, layer: DiagnosticLayer) -> int {
    match category {
        PortableCategory::InvalidRequest | PortableCategory::ConfigurationError
        | PortableCategory::SelectionError | PortableCategory::BackendUnavailable => 0,
        PortableCategory::ParseError | PortableCategory::DestinationParseError => 1,
        PortableCategory::AnalysisError => 2,
        PortableCategory::MergeConflict | PortableCategory::Ambiguity => 3,
        PortableCategory::RenderError => 4,
        PortableCategory::PreservationError => 5,
        PortableCategory::VerificationError => 6,
        _ => match layer {
            DiagnosticLayer::Transport | DiagnosticLayer::Registry => 0,
            DiagnosticLayer::Parser => 1,
            DiagnosticLayer::Analysis => 2,
            DiagnosticLayer::Provider => 3,
            DiagnosticLayer::Renderer => 4,
            DiagnosticLayer::Verifier => 6,
            DiagnosticLayer::Adapter => 7,
            DiagnosticLayer::Runner => 8,
        },
    }
}

fn phase(diagnostic: &PortableDiagnostic) -> (r: u8)
    ensures
        r == phase_of(diagnostic.category, diagnostic.origin.layer),
{
    match diagnostic.category {
        PortableCategory::InvalidRequest | PortableCategory::ConfigurationError
        | PortableCategory::SelectionError | PortableCategory::BackendUnavailable => 0,
        PortableCategory::ParseError | PortableCategory::DestinationParseError => 1,
        PortableCategory::AnalysisError => 2,
        PortableCategory::MergeConflict | PortableCategory::Ambiguity => 3,
        PortableCategory::RenderError => 4,
        PortableCategory::PreservationError => 5,
        PortableCategory::VerificationError => 6,
        _ => match diagnostic.origin.layer {
            DiagnosticLayer::Transport | DiagnosticLayer::Registry => 0,
            DiagnosticLayer::Parser => 1,
            DiagnosticLayer::Analysis => 2,
            DiagnosticLayer::Provider => 3,
            DiagnosticLayer::Renderer => 4,
            DiagnosticLayer::Verifier => 6,
            DiagnosticLayer::Adapter => 7,
            DiagnosticLayer::Runner => 8,
        },
    }
}

/// The position of `role` among the operation's roles.
pub open spec fn role_position(op: OperationKind, role: SourceRole) -> Option<int> {
    match (op, role) {
        (OperationKind::Analyze, SourceRole::Source) => Some(0),
        (OperationKind::Diff2, SourceRole::Before) => Some(0),
        (OperationKind::Diff2, SourceRole::After) => Some(1),
        (OperationKind::Merge2, SourceRole::Incoming) => Some(0),
        (OperationKind::Merge2, SourceRole::Current) => Some(1),
        (OperationKind::Merge3, SourceRole::Base) => Some(0),
        (OperationKind::Merge3, SourceRole::Ours) => Some(1),
        (OperationKind::Merge3, SourceRole::Theirs) => Some(2),
        _ => None,
    }
}

/// The least position among the operation's roles of the roles the
/// references name, if any names one.
pub open spec fn min_role_position(refs: Seq<DiagnosticSourceRef>, op: OperationKind) -> Option<int>
    decreases refs.len(),
{
    if refs.len() == 0 {
        None
    } else {
        let rest = min_role_position(refs.drop_last(), op);
        match role_position(op, refs.last().role) {
            None => rest,
            Some(p) => match rest {
                None => Some(p),
                Some(q) => Some(if p <= q { p } else { q }),
            },
        }
    }
}

/// Within the parse phase, diagnostics are ordered by the earliest source
/// role they reference.
pub open spec fn role_order(d: PortableDiagnostic, op: OperationKind) -> int {
    if phase_of(d.category, d.origin.layer) == 1 {
        match min_role_position(d.source_refs@, op) {
            Some(p) => p,
            None => 0,
        }
    } else {
        0
    }
}

/// `(phase, role order)` of `a` comes after that of `b`.
pub open spec fn order_after(a: PortableDiagnostic, b: PortableDiagnostic, op: OperationKind) -> bool {
    let pa = phase_of(a.category, a.origin.layer);
    let pb = phase_of(b.category, b.origin.layer);
    pa > pb || (pa == pb && role_order(a, op) > role_order(b, op))
}

fn position_of(op: OperationKind, role: SourceRole) -> (r: Option<usize>)
    ensures
        match role_position(op, role) {
            Some(p) => r == Some(p as usize),
            None => r is None,
        },
{
    match (op, role) {
        (OperationKind::Analyze, SourceRole::Source) => Some(0),
        (OperationKind::Diff2, SourceRole::Before) => Some(0),
        (OperationKind::Diff2, SourceRole::After) => Some(1),
        (OperationKind::Merge2, SourceRole::Incoming) => Some(0),
        (OperationKind::Merge2, SourceRole::Current) => Some(1),
        (OperationKind::Merge3, SourceRole::Base) => Some(0),
        (OperationKind::Merge3, SourceRole::Ours) => Some(1),
        (OperationKind::Merge3, SourceRole::Theirs) => Some(2),
        _ => None,
    }
}

fn semantic_role_order(d: &PortableDiagnostic, operation: OperationKind) -> (r: usize)
    ensures
        r == role_order(*d, operation),
{
    if phase(d) != 1 {
        return 0;
    }
    let mut best: Option<usize> = None;
    let mut i: usize = 0;
    while i < d.source_refs.len()
        invariant
            i <= d.source_refs@.len(),
            match (min_role_position(d.source_refs@.take(i as int), operation), best) {
                (Some(p), Some(b)) => b == p,
                (None, None) => true,
                _ => false,
            },
        decreases d.source_refs@.len() - i,
    {
        let p = position_of(operation, d.source_refs[i].role);
        proof {
            let t = d.source_refs@.take(i + 1);
            assert(t.drop_last() =~= d.source_refs@.take(i as int));
            assert(t.last() == d.source_refs@[i as int]);
        }
        match p {
            Some(q) => {
                best = match best {
                    Some(b) => Some(if q <= b { q } else { b }),
                    None => Some(q),
                };
            },
            None => {},
        }
        i = i + 1;
    }
    proof {
        assert(d.source_refs@.take(i as int) =~= d.source_refs@);
    }
    match best {
        Some(b) => b,
        None => 0,
    }
}

// ---------------------------------------------------------------------------
// Scope validation

pub open spec fn diagnostic_ids(ds: Seq<&PortableDiagnostic>) -> Seq<Seq<char>> {
    ds.map_values(|d: &PortableDiagnostic| d.id@)
}

pub open spec fn distinct(ids: Seq<Seq<char>>) -> bool {
    forall|i: int, j: int| 0 <= i < j < ids.len() ==> #[trigger] ids[i] != #[trigger] ids[j]
}

/// Every reference names one of `ids`, and none is repeated.
pub open spec fn references_ok(refs: Seq<Seq<char>>, ids: Seq<Seq<char>>) -> bool {
    &&& forall|k: int| 0 <= k < refs.len() ==> ids.contains(#[trigger] refs[k])
    &&& distinct(refs)
}

pub open spec fn is_parse_category(c: PortableCategory) -> bool {
    c == PortableCategory::ParseError || c == PortableCategory::DestinationParseError
}

/// The reference names a document of the scope, with that document's role,
/// a role of the operation, and a span (if any) that lies in it exactly.
pub open spec fn source_ref_ok(r: DiagnosticSourceRef, op: OperationKind, m: SourceMap) -> bool {
    match m.lookup(r.source_id@) {
        Some(d) => {
            &&& r.role == d.desc().role
            &&& kind_roles(op).contains(r.role)
            &&& (r.span matches Some(sp) ==> span_fits(d, sp))
        },
        None => false,
    }
}

/// The subject reference is filled in and the owning result resolves it.
pub open spec fn subject_ok(s: DiagnosticSubjectRef, found: spec_fn(DiagnosticSubjectRef) -> bool) -> bool {
    s.id@.len() > 0 && s.kind@.len() > 0 && found(s)
}

/// The first violation of diagnostic `i` found before its subject
/// references are resolved: schema, sequence, code, request identity,
/// causes, related diagnostics and source references.
pub open spec fn pre_fault(
    ds: Seq<&PortableDiagnostic>,
    i: int,
    request_id: Seq<char>,
    op: OperationKind,
    m: SourceMap,
) -> Option<DiagnosticContractError> {
    let d = ds[i];
    if d.schema@ != DIAGNOSTIC_SCHEMA@ {
        Some(DiagnosticContractError::Schema)
    } else if d.sequence != i {
        Some(DiagnosticContractError::Sequence)
    } else if !portable_code_bytes(utf8_of(d.code@)) {
        Some(DiagnosticContractError::Code)
    } else if (d.request_id matches Some(x) && x@ != request_id) || (d.operation matches Some(k) && k != op) {
        Some(DiagnosticContractError::RequestIdentity)
    } else if !references_ok(string_views(d.cause_ids@), diagnostic_ids(ds).take(i)) {
        Some(DiagnosticContractError::Causality)
    } else if !references_ok(string_views(d.related_ids@), diagnostic_ids(ds)) {
        Some(DiagnosticContractError::RelatedReference)
    } else if is_parse_category(d.category) && d.source_refs@.len() == 0 {
        Some(DiagnosticContractError::SourceReference)
    } else if exists|k: int| 0 <= k < d.source_refs@.len() && !source_ref_ok(#[trigger] d.source_refs@[k], op, m) {
        Some(DiagnosticContractError::SourceReference)
    } else {
        None
    }
}

/// The first violation of diagnostic `i` of the scope, ignoring the order
/// it keeps with the one before it, where `found` says which subjects the
/// owning result resolves.
pub open spec fn record_fault(
    ds: Seq<&PortableDiagnostic>,
    i: int,
    request_id: Seq<char>,
    op: OperationKind,
    m: SourceMap,
    found: spec_fn(DiagnosticSubjectRef) -> bool,
) -> Option<DiagnosticContractError> {
    let d = ds[i];
    match pre_fault(ds, i, request_id, op, m) {
        Some(e) => Some(e),
        None => if d.subject_refs matches Some(ss) && exists|k: int|
            0 <= k < ss@.len() && !subject_ok(#[trigger] ss@[k], found) {
            Some(DiagnosticContractError::SubjectReference)
        } else {
            None
        },
    }
}

/// A subject reference with both its kind and its identity filled in.
pub open spec fn subject_filled(s: DiagnosticSubjectRef) -> bool {
    s.id@.len() > 0 && s.kind@.len() > 0
}

/// The outcome of checking the subject references `ss` in order, given the
/// owning result's answers `ans` to the resolutions asked, in the order
/// asked: a reference with an empty kind or identity fails without being
/// asked, a `false` answer fails, and the check passes when every reference
/// was asked and answered `true`. `None` where `ans` are not exactly the
/// answers this check asks for.
pub open spec fn subjects_outcome(ss: Seq<DiagnosticSubjectRef>, ans: Seq<bool>) -> Option<bool> {
    let n = ans.len() as int;
    if n > ss.len() || (exists|k: int| 0 <= k < n && !subject_filled(#[trigger] ss[k])) || (exists|k: int|
        0 <= k < n - 1 && !#[trigger] ans[k]) {
        None
    } else if n > 0 && !ans[n - 1] {
        Some(false)
    } else if n == ss.len() {
        Some(true)
    } else if !subject_filled(ss[n as int]) {
        Some(false)
    } else {
        None
    }
}

/// The callback answered `ans[k]` for the `k`-th subject reference.
pub open spec fn subjects_answered<F: Fn(&DiagnosticSubjectRef) -> bool>(
    f: F,
    ss: Seq<DiagnosticSubjectRef>,
    ans: Seq<bool>,
) -> bool {
    &&& ans.len() <= ss.len()
    &&& forall|k: int| 0 <= k < ans.len() ==> call_ensures(f, (&ss[k],), #[trigger] ans[k])
}

/// The outcome of diagnostic `i`, ignoring its order, given the answers to
/// the resolutions of its subjects: its first violation, or `None` where it
/// has none; the outer `None` where `ans` are not exactly the answers its
/// check asks for (none at all when an earlier check fails).
pub open spec fn record_run(
    ds: Seq<&PortableDiagnostic>,
    i: int,
    request_id: Seq<char>,
    op: OperationKind,
    m: SourceMap,
    ans: Seq<bool>,
) -> Option<Option<DiagnosticContractError>> {
    match pre_fault(ds, i, request_id, op, m) {
        Some(e) => if ans.len() == 0 {
            Some(Some(e))
        } else {
            None
        },
        None => match ds[i].subject_refs {
            None => if ans.len() == 0 {
                Some(None)
            } else {
                None
            },
            Some(ss) => match subjects_outcome(ss@, ans) {
                Some(true) => Some(None),
                Some(false) => Some(Some(DiagnosticContractError::SubjectReference)),
                None => None,
            },
        },
    }
}

/// The answers `ans` are what the callback answered for the subject
/// references of `d`, in order.
pub open spec fn record_answered<F: Fn(&DiagnosticSubjectRef) -> bool>(
    f: F,
    d: &PortableDiagnostic,
    ans: Seq<bool>,
) -> bool {
    ans.len() == 0 || (d.subject_refs matches Some(ss) && subjects_answered(f, ss@, ans))
}

/// The answers `per[i]` are what the callback answered for diagnostic `i`.
pub open spec fn scope_answered<F: Fn(&DiagnosticSubjectRef) -> bool>(
    f: F,
    ds: Seq<&PortableDiagnostic>,
    per: Seq<Seq<bool>>,
) -> bool {
    &&& per.len() == ds.len()
    &&& forall|i: int| 0 <= i < ds.len() ==> record_answered(f, ds[i], #[trigger] per[i])
}

/// The first violation among the diagnostics from `i` on, in scope order,
/// given the answers `per[k]` to the subject resolutions of diagnostic `k`;
/// the outer `None` where some answers are not exactly those asked.
pub open spec fn scope_run_from(
    ds: Seq<&PortableDiagnostic>,
    i: int,
    request_id: Seq<char>,
    op: OperationKind,
    m: SourceMap,
    per: Seq<Seq<bool>>,
) -> Option<Option<DiagnosticContractError>>
    decreases ds.len() - i,
{
    if i < 0 || i >= ds.len() {
        Some(None)
    } else {
        match record_run(ds, i, request_id, op, m, per[i]) {
            None => None,
            Some(Some(e)) => Some(Some(e)),
            Some(None) => if i > 0 && order_after(*ds[i - 1], *ds[i], op) {
                Some(Some(DiagnosticContractError::SemanticOrder))
            } else {
                scope_run_from(ds, i + 1, request_id, op, m, per)
            },
        }
    }
}

/// The stage of the operation pipeline a category names, if it names one:
/// request and selection, then parse, analysis, merge conflicts and
/// ambiguity, render, preservation and verification, in that order.
pub open spec fn pipeline_stage(c: PortableCategory) -> Option<int> {
    if c == PortableCategory::InvalidRequest || c == PortableCategory::ConfigurationError || c
        == PortableCategory::SelectionError || c == PortableCategory::BackendUnavailable {
        Some(0)
    } else if c == PortableCategory::ParseError || c == PortableCategory::DestinationParseError {
        Some(1)
    } else if c == PortableCategory::AnalysisError {
        Some(2)
    } else if c == PortableCategory::MergeConflict || c == PortableCategory::Ambiguity {
        Some(3)
    } else if c == PortableCategory::RenderError {
        Some(4)
    } else if c == PortableCategory::PreservationError {
        Some(5)
    } else if c == PortableCategory::VerificationError {
        Some(6)
    } else {
        None
    }
}

/// The stage a diagnostic of a category that names no stage belongs to, by
/// the layer it came from: transport and registry with requests, then
/// parser, analysis, provider (with merges), renderer, verifier, adapter and
/// runner.
pub open spec fn layer_stage(l: DiagnosticLayer) -> int {
    if l == DiagnosticLayer::Transport || l == DiagnosticLayer::Registry {
        0
    } else if l == DiagnosticLayer::Parser {
        1
    } else if l == DiagnosticLayer::Analysis {
        2
    } else if l == DiagnosticLayer::Provider {
        3
    } else if l == DiagnosticLayer::Renderer {
        4
    } else if l == DiagnosticLayer::Verifier {
        6
    } else if l == DiagnosticLayer::Adapter {
        7
    } else {
        8
    }
}

/// The pipeline stage of a diagnostic: its category's, or its layer's where
/// the category names none.
pub open spec fn diagnostic_stage(d: PortableDiagnostic) -> int {
    match pipeline_stage(d.category) {
        Some(s) => s,
        None => layer_stage(d.origin.layer),
    }
}

/// Diagnostics follow the pipeline. Of two diagnostics of different stages
/// (by category, or by layer where the category names no stage), one of an
/// earlier stage never comes after one of a later stage, and one of a later
/// stage always does, whatever their references.
pub proof fn law_stages_order_diagnostics(a: PortableDiagnostic, b: PortableDiagnostic, op: OperationKind)
    requires
        diagnostic_stage(a) < diagnostic_stage(b),
    ensures
        !order_after(a, b, op),
        order_after(b, a, op),
{
}

/// Diagnostics follow the pipeline. Of two diagnostics whose categories
/// name pipeline stages, one of an earlier stage never comes after one of a
/// later stage, and one of a later stage always does, whatever their
/// layers and references. So, when the `i`-th diagnostic of a scope passed
/// its own checks, validation goes on past it if it belongs to a later
/// stage than its predecessor, and stops with `SemanticOrder` if it belongs
/// to an earlier one.
pub proof fn law_diagnostics_follow_the_pipeline(
    ds: Seq<&PortableDiagnostic>,
    i: int,
    request_id: Seq<char>,
    op: OperationKind,
    m: SourceMap,
    per: Seq<Seq<bool>>,
)
    requires
        0 < i < ds.len(),
        pipeline_stage(ds[i - 1].category) is Some,
        pipeline_stage(ds[i].category) is Some,
        pipeline_stage(ds[i - 1].category) != pipeline_stage(ds[i].category),
    ensures
        pipeline_stage(ds[i - 1].category)->0 < pipeline_stage(ds[i].category)->0 ==> !order_after(*ds[i - 1], *ds[i], op)
            && order_after(*ds[i], *ds[i - 1], op),
        pipeline_stage(ds[i - 1].category)->0 > pipeline_stage(ds[i].category)->0 ==> order_after(*ds[i - 1], *ds[i], op),
        record_run(ds, i, request_id, op, m, per[i]) == Some(None::<DiagnosticContractError>) ==> (
        pipeline_stage(ds[i - 1].category)->0 < pipeline_stage(ds[i].category)->0 ==> scope_run_from(
            ds,
            i,
            request_id,
            op,
            m,
            per,
        ) == scope_run_from(ds, i + 1, request_id, op, m, per)),
        record_run(ds, i, request_id, op, m, per[i]) == Some(None::<DiagnosticContractError>) ==> (
        pipeline_stage(ds[i - 1].category)->0 > pipeline_stage(ds[i].category)->0 ==> scope_run_from(
            ds,
            i,
            request_id,
            op,
            m,
            per,
        ) == Some(Some(DiagnosticContractError::SemanticOrder))),
{
}

/// A diagnostic that passed every check before the next one.
pub open spec fn record_passed(
    ds: Seq<&PortableDiagnostic>,
    k: int,
    request_id: Seq<char>,
    op: OperationKind,
    m: SourceMap,
    ans: Seq<bool>,
) -> bool {
    record_run(ds, k, request_id, op, m, ans) == Some(None::<DiagnosticContractError>) && !(k > 0 && order_after(
        *ds[k - 1],
        *ds[k],
        op,
    ))
}

proof fn lemma_run_prefix(
    ds: Seq<&PortableDiagnostic>,
    i: int,
    request_id: Seq<char>,
    op: OperationKind,
    m: SourceMap,
    per: Seq<Seq<bool>>,
)
    requires
        0 <= i <= ds.len(),
        forall|k: int| 0 <= k < i ==> #[trigger] record_passed(ds, k, request_id, op, m, per[k]),
    ensures
        scope_run_from(ds, 0, request_id, op, m, per) == scope_run_from(ds, i, request_id, op, m, per),
    decreases i,
{
    if i > 0 {
        lemma_run_prefix(ds, i - 1, request_id, op, m, per);
        assert(record_passed(ds, i - 1, request_id, op, m, per[i - 1]));
    }
}

/// The outcome a result stands for.
pub open spec fn outcome(r: Result<(), DiagnosticContractError>) -> Option<DiagnosticContractError> {
    match r {
        Ok(_) => None,
        Err(e) => Some(e),
    }
}

/// The first violation of diagnostic `i` of the scope.
pub open spec fn record_error(
    ds: Seq<&PortableDiagnostic>,
    i: int,
    request_id: Seq<char>,
    op: OperationKind,
    m: SourceMap,
    found: spec_fn(DiagnosticSubjectRef) -> bool,
) -> Option<DiagnosticContractError> {
    match record_fault(ds, i, request_id, op, m, found) {
        Some(e) => Some(e),
        None => if i > 0 && order_after(*ds[i - 1], *ds[i], op) {
            Some(DiagnosticContractError::SemanticOrder)
        } else {
            None
        },
    }
}

/// The first violation among the diagnostics from `i` on, in scope order.
pub open spec fn scope_error_from(
    ds: Seq<&PortableDiagnostic>,
    i: int,
    request_id: Seq<char>,
    op: OperationKind,
    m: SourceMap,
    found: spec_fn(DiagnosticSubjectRef) -> bool,
) -> Option<DiagnosticContractError>
    decreases ds.len() - i,
{
    if i < 0 || i >= ds.len() {
        None
    } else {
        match record_error(ds, i, request_id, op, m, found) {
            Some(e) => Some(e),
            None => scope_error_from(ds, i + 1, request_id, op, m, found),
        }
    }
}

/// The first violation of a result-local diagnostic scope: identities first,
/// then each diagnostic in scope order.
pub open spec fn scope_error(
    ds: Seq<&PortableDiagnostic>,
    request_id: Seq<char>,
    op: OperationKind,
    m: SourceMap,
    found: spec_fn(DiagnosticSubjectRef) -> bool,
) -> Option<DiagnosticContractError> {
    if !unique_nonempty_spec(diagnostic_ids(ds)) {
        Some(DiagnosticContractError::Identity)
    } else {
        scope_error_from(ds, 0, request_id, op, m, found)
    }
}

/// The callback gives one answer for each subject.
pub open spec fn decides<F: Fn(&DiagnosticSubjectRef) -> bool>(f: F) -> bool {
    forall|s: DiagnosticSubjectRef, b: bool|
        #[trigger] call_ensures(f, (&s,), b) ==> b == call_ensures(f, (&s,), true)
}

/// What the callback answers for a subject.
pub open spec fn answers<F: Fn(&DiagnosticSubjectRef) -> bool>(f: F) -> spec_fn(DiagnosticSubjectRef) -> bool {
    |s: DiagnosticSubjectRef| call_ensures(f, (&s,), true)
}

/// Any callback: every subject resolves.
pub open spec fn any_subject() -> spec_fn(DiagnosticSubjectRef) -> bool {
    |s: DiagnosticSubjectRef| true
}

proof fn lemma_scope_prefix(
    ds: Seq<&PortableDiagnostic>,
    i: int,
    request_id: Seq<char>,
    op: OperationKind,
    m: SourceMap,
    found: spec_fn(DiagnosticSubjectRef) -> bool,
)
    requires
        0 <= i <= ds.len(),
        forall|k: int| 0 <= k < i ==> (#[trigger] record_error(ds, k, request_id, op, m, found)) is None,
    ensures
        scope_error_from(ds, 0, request_id, op, m, found) == scope_error_from(ds, i, request_id, op, m, found),
    decreases i,
{
    if i > 0 {
        lemma_scope_prefix(ds, i - 1, request_id, op, m, found);
        assert(record_error(ds, i - 1, request_id, op, m, found) is None);
    }
}

fn diagnostic_id_list<'a>(ds: &[&'a PortableDiagnostic]) -> (v: Vec<&'a str>)
    ensures
        v@.map_values(|s: &str| s@) == diagnostic_ids(ds@),
{
    let mut v: Vec<&str> = Vec::new();
    let mut i: usize = 0;
    while i < ds.len()
        invariant
            i <= ds@.len(),
            v@.len() == i,
            forall|k: int| 0 <= k < i ==> (#[trigger] v@[k])@ == ds@[k].id@,
        decreases ds@.len() - i,
    {
        v.push(ds[i].id.as_str());
        i = i + 1;
    }
    assert(v@.map_values(|s: &str| s@) =~= diagnostic_ids(ds@));
    v
}

/// Whether `name` is the identity of one of the first `bound` diagnostics.
fn names_diagnostic(ds: &[&PortableDiagnostic], bound: usize, name: &str) -> (r: bool)
    requires
        bound <= ds@.len(),
    ensures
        r == diagnostic_ids(ds@).take(bound as int).contains(name@),
{
    let mut k: usize = 0;
    while k < bound
        invariant
            bound <= ds@.len(),
            k <= bound,
            forall|j: int| 0 <= j < k ==> diagnostic_ids(ds@)[j] != name@,
        decreases bound - k,
    {
        if str_eq(ds[k].id.as_str(), name) {
            assert(diagnostic_ids(ds@).take(bound as int)[k as int] == name@);
            return true;
        }
        k = k + 1;
    }
    proof {
        if diagnostic_ids(ds@).take(bound as int).contains(name@) {
            let j = choose|j: int| 0 <= j < bound && diagnostic_ids(ds@).take(bound as int)[j] == name@;
            assert(diagnostic_ids(ds@)[j] == name@);
        }
    }
    false
}

/// Whether every reference names one of the first `bound` diagnostics and
/// none is repeated.
fn references_check(refs: &Vec<String>, ds: &[&PortableDiagnostic], bound: usize) -> (r: bool)
    requires
        bound <= ds@.len(),
    ensures
        r == references_ok(string_views(refs@), diagnostic_ids(ds@).take(bound as int)),
{
    let ghost v = string_views(refs@);
    let ghost ids = diagnostic_ids(ds@).take(bound as int);
    let mut k: usize = 0;
    while k < refs.len()
        invariant
            v == string_views(refs@),
            ids == diagnostic_ids(ds@).take(bound as int),
            bound <= ds@.len(),
            k <= refs@.len(),
            forall|j: int| 0 <= j < k ==> ids.contains(#[trigger] v[j]),
            forall|a: int, b: int| 0 <= a < b < k ==> #[trigger] v[a] != #[trigger] v[b],
        decreases refs@.len() - k,
    {
        assert(v[k as int] == refs@[k as int]@);
        if !names_diagnostic(ds, bound, refs[k].as_str()) {
            return false;
        }
        let mut j: usize = 0;
        while j < k
            invariant
                v == string_views(refs@),
                k < refs@.len(),
                j <= k,
                forall|a: int| 0 <= a < j ==> v[a] != v[k as int],
            decreases k - j,
        {
            if str_eq(refs[j].as_str(), refs[k].as_str()) {
                assert(v[j as int] == v[k as int]);
                return false;
            }
            j = j + 1;
        }
        k = k + 1;
    }
    true
}

fn source_ref_check(r: &DiagnosticSourceRef, operation: OperationKind, sources: &SourceMap) -> (ok: bool)
    ensures
        ok == source_ref_ok(*r, operation, *sources),
{
    let document = match sources.get(r.source_id.as_str()) {
        Ok(d) => d,
        Err(_) => return false,
    };
    if r.role != document.descriptor().role || !kind_has_role(operation, r.role) {
        return false;
    }
    match &r.span {
        Some(span) => span_in_document(document, span),
        None => true,
    }
}

fn subjects_check<F: Fn(&DiagnosticSubjectRef) -> bool>(
    subjects: &Vec<DiagnosticSubjectRef>,
    subject_exists: &F,
) -> (r: (bool, Ghost<Seq<bool>>))
    requires
        forall|s: &DiagnosticSubjectRef| call_requires(*subject_exists, (s,)),
    ensures
        subjects_outcome(subjects@, r.1@) == Some(r.0),
        subjects_answered(*subject_exists, subjects@, r.1@),
        r.0 ==> forall|k: int| 0 <= k < subjects@.len() ==> subject_ok(#[trigger] subjects@[k], any_subject()),
        decides(*subject_exists) ==> r.0 == forall|k: int|
            0 <= k < subjects@.len() ==> subject_ok(#[trigger] subjects@[k], answers(*subject_exists)),
{
    let ghost mut ans: Seq<bool> = Seq::empty();
    let mut k: usize = 0;
    while k < subjects.len()
        invariant
            forall|s: &DiagnosticSubjectRef| call_requires(*subject_exists, (s,)),
            k <= subjects@.len(),
            ans.len() == k,
            forall|j: int| 0 <= j < k ==> #[trigger] ans[j],
            forall|j: int| 0 <= j < k ==> subject_filled(#[trigger] subjects@[j]),
            subjects_answered(*subject_exists, subjects@, ans),
            forall|j: int| 0 <= j < k ==> subject_ok(#[trigger] subjects@[j], any_subject()),
            decides(*subject_exists) ==> forall|j: int|
                0 <= j < k ==> subject_ok(#[trigger] subjects@[j], answers(*subject_exists)),
        decreases subjects@.len() - k,
    {
        let s = &subjects[k];
        if s.id.as_str().is_empty() || s.kind.as_str().is_empty() {
            proof {
                assert(!subject_filled(subjects@[k as int]));
                assert(!(exists|j: int| 0 <= j < ans.len() && !subject_filled(#[trigger] subjects@[j])));
                assert(!(exists|j: int| 0 <= j < ans.len() - 1 && !#[trigger] ans[j]));
            }
            return (false, Ghost(ans));
        }
        let found = subject_exists(s);
        let ghost before = ans;
        proof {
            ans = ans.push(found);
            assert(subject_filled(subjects@[k as int]));
            assert forall|j: int| 0 <= j < ans.len() implies call_ensures(
                *subject_exists,
                (&subjects@[j],),
                #[trigger] ans[j],
            ) by {
                if j < k {
                    assert(ans[j] == before[j]);
                }
            }
        }
        if !found {
            proof {
                if decides(*subject_exists) {
                    assert(call_ensures(*subject_exists, (s,), found));
                    assert(!answers(*subject_exists)(*s));
                }
                assert(!(exists|j: int| 0 <= j < ans.len() && !subject_filled(#[trigger] subjects@[j])));
                assert(!(exists|j: int| 0 <= j < ans.len() - 1 && !#[trigger] ans[j]));
            }
            return (false, Ghost(ans));
        }
        proof {
            if decides(*subject_exists) {
                assert(call_ensures(*subject_exists, (s,), found));
            }
        }
        k = k + 1;
    }
    proof {
        assert(!(exists|j: int| 0 <= j < ans.len() && !subject_filled(#[trigger] subjects@[j])));
        assert(!(exists|j: int| 0 <= j < ans.len() - 1 && !#[trigger] ans[j]));
    }
    (true, Ghost(ans))
}

/// The first violation of diagnostic `i`, ignoring its order.
#[verifier::loop_isolation(false)]
fn record_check<F: Fn(&DiagnosticSubjectRef) -> bool>(
    ds: &[&PortableDiagnostic],
    i: usize,
    request_id: &str,
    operation: OperationKind,
    sources: &SourceMap,
    subject_exists: &F,
) -> (res: (Option<DiagnosticContractError>, Ghost<Seq<bool>>))
    requires
        i < ds@.len(),
        forall|s: &DiagnosticSubjectRef| call_requires(*subject_exists, (s,)),
    ensures
        ({
            let r = res.0;
            &&& r != Some(DiagnosticContractError::Identity)
            &&& r is None ==> record_fault(ds@, i as int, request_id@, operation, *sources, any_subject()) is None
            &&& decides(*subject_exists) ==> r == record_fault(
                ds@,
                i as int,
                request_id@,
                operation,
                *sources,
                answers(*subject_exists),
            )
            &&& ds@[i as int].subject_refs is None ==> r == record_fault(
                ds@,
                i as int,
                request_id@,
                operation,
                *sources,
                any_subject(),
            )
            &&& record_run(ds@, i as int, request_id@, operation, *sources, res.1@) == Some(r)
            &&& record_answered(*subject_exists, ds@[i as int], res.1@)
        }),
{
    let d = ds[i];
    if !str_eq(d.schema.as_str(), DIAGNOSTIC_SCHEMA) {
        return (Some(DiagnosticContractError::Schema), Ghost(Seq::empty()));
    }
    if d.sequence != i as u64 {
        return (Some(DiagnosticContractError::Sequence), Ghost(Seq::empty()));
    }
    if !portable_code(d.code.as_str()) {
        return (Some(DiagnosticContractError::Code), Ghost(Seq::empty()));
    }
    let other_request = match &d.request_id {
        Some(x) => !str_eq(x.as_str(), request_id),
        None => false,
    };
    let other_operation = match d.operation {
        Some(k) => k != operation,
        None => false,
    };
    if other_request || other_operation {
        return (Some(DiagnosticContractError::RequestIdentity), Ghost(Seq::empty()));
    }
    if !references_check(&d.cause_ids, ds, i) {
        return (Some(DiagnosticContractError::Causality), Ghost(Seq::empty()));
    }
    if !references_check(&d.related_ids, ds, ds.len()) {
        proof {
            assert(diagnostic_ids(ds@).take(ds@.len() as int) =~= diagnostic_ids(ds@));
        }
        return (Some(DiagnosticContractError::RelatedReference), Ghost(Seq::empty()));
    }
    proof {
        assert(diagnostic_ids(ds@).take(ds@.len() as int) =~= diagnostic_ids(ds@));
    }
    let parse = match d.category {
        PortableCategory::ParseError | PortableCategory::DestinationParseError => true,
        _ => false,
    };
    if parse && d.source_refs.len() == 0 {
        return (Some(DiagnosticContractError::SourceReference), Ghost(Seq::empty()));
    }
    let mut k: usize = 0;
    while k < d.source_refs.len()
        invariant
            k <= d.source_refs@.len(),
            forall|j: int| 0 <= j < k ==> source_ref_ok(#[trigger] d.source_refs@[j], operation, *sources),
        decreases d.source_refs@.len() - k,
    {
        if !source_ref_check(&d.source_refs[k], operation, sources) {
            assert(!source_ref_ok(d.source_refs@[k as int], operation, *sources));
            return (Some(DiagnosticContractError::SourceReference), Ghost(Seq::empty()));
        }
        k = k + 1;
    }
    match &d.subject_refs {
        Some(subjects) => {
            let (ok, ans) = subjects_check(subjects, subject_exists);
            if !ok {
                return (Some(DiagnosticContractError::SubjectReference), ans);
            }
            (None, ans)
        },
        None => (None, Ghost(Seq::empty())),
    }
}

/// Validate an entire result-local diagnostic scope. The owning result
/// supplies subject resolution through `subject_exists`; a structural path
/// cannot validate itself. Identities are checked over the whole slice
/// first; then each diagnostic in order, its subject references last,
/// resolving each through `subject_exists` until one fails, then its order
/// after the one before. The outcome is `scope_run_from` over the answers
/// the callback gave to the resolutions asked.
pub fn validate_diagnostics<F: Fn(&DiagnosticSubjectRef) -> bool>(
    diagnostics: &[&PortableDiagnostic],
    request_id: &str,
    operation: OperationKind,
    sources: &SourceMap,
    subject_exists: F,
) -> (r: Result<(), DiagnosticContractError>)
    requires
        forall|s: &DiagnosticSubjectRef| call_requires(subject_exists, (s,)),
    ensures
        (r == Err::<(), DiagnosticContractError>(DiagnosticContractError::Identity)) == !unique_nonempty_spec(
            diagnostic_ids(diagnostics@),
        ),
        unique_nonempty_spec(diagnostic_ids(diagnostics@)) ==> exists|per: Seq<Seq<bool>>|
            #![trigger scope_answered(subject_exists, diagnostics@, per)]
            scope_answered(subject_exists, diagnostics@, per) && scope_run_from(
                diagnostics@,
                0,
                request_id@,
                operation,
                *sources,
                per,
            ) == Some(outcome(r)),
        diagnostics@.len() == 0 ==> r is Ok,
        (forall|i: int| 0 <= i < diagnostics@.len() ==> (#[trigger] diagnostics@[i]).subject_refs is None)
            ==> outcome(r) == scope_error(diagnostics@, request_id@, operation, *sources, any_subject()),
        r is Ok ==> scope_error(diagnostics@, request_id@, operation, *sources, any_subject()) is None,
        decides(subject_exists) ==> match scope_error(
            diagnostics@,
            request_id@,
            operation,
            *sources,
            answers(subject_exists),
        ) {
            Some(e) => r == Err::<(), DiagnosticContractError>(e),
            None => r is Ok,
        },
{
    let ids = diagnostic_id_list(diagnostics);
    if !unique_nonempty(&ids) {
        return Err(DiagnosticContractError::Identity);
    }
    let ghost any = any_subject();
    let ghost found = answers(subject_exists);
    let ghost ds = diagnostics@;
    let ghost mut per: Seq<Seq<bool>> = Seq::empty();
    let mut previous: Option<(u8, usize)> = None;
    let mut i: usize = 0;
    while i < diagnostics.len()
        invariant
            ds == diagnostics@,
            forall|s: &DiagnosticSubjectRef| call_requires(subject_exists, (s,)),
            unique_nonempty_spec(diagnostic_ids(diagnostics@)),
            any == any_subject(),
            found == answers(subject_exists),
            i <= diagnostics@.len(),
            per.len() == i,
            forall|k: int| 0 <= k < i ==> #[trigger] record_passed(ds, k, request_id@, operation, *sources, per[k]),
            forall|k: int| 0 <= k < i ==> record_answered(subject_exists, ds[k], #[trigger] per[k]),
            forall|k: int| 0 <= k < i ==> (#[trigger] record_error(diagnostics@, k, request_id@, operation, *sources, any)) is None,
            decides(subject_exists) ==> forall|k: int| 0 <= k < i ==> (#[trigger] record_error(
                diagnostics@,
                k,
                request_id@,
                operation,
                *sources,
                found,
            )) is None,
            match previous {
                Some((p, o)) => i > 0 && p == phase_of(diagnostics@[i - 1].category, diagnostics@[i - 1].origin.layer)
                    && o == role_order(*diagnostics@[i - 1], operation),
                None => i == 0,
            },
        decreases diagnostics@.len() - i,
    {
        let (fault, Ghost(ans)) = record_check(diagnostics, i, request_id, operation, sources, &subject_exists);
        let ghost full = per.push(ans) + Seq::new((ds.len() - i - 1) as nat, |k: int| Seq::<bool>::empty());
        proof {
            assert forall|k: int| 0 <= k < ds.len() implies record_answered(subject_exists, ds[k], #[trigger] full[k]) by {
                if k < i {
                    assert(full[k] == per[k]);
                } else if k == i {
                    assert(full[k] == ans);
                } else {
                    assert(full[k] == Seq::<bool>::empty());
                }
            }
            assert forall|k: int| 0 <= k < i implies #[trigger] record_passed(ds, k, request_id@, operation, *sources, full[k]) by {
                assert(full[k] == per[k]);
                assert(record_passed(ds, k, request_id@, operation, *sources, per[k]));
            }
            assert(full[i as int] == ans);
            lemma_run_prefix(ds, i as int, request_id@, operation, *sources, full);
        }
        match fault {
            Some(e) => {
                proof {
                    if decides(subject_exists) {
                        lemma_scope_prefix(diagnostics@, i as int, request_id@, operation, *sources, found);
                    }
                    lemma_scope_prefix(diagnostics@, i as int, request_id@, operation, *sources, any);
                    assert(scope_answered(subject_exists, diagnostics@, full));
                }
                return Err(e);
            },
            None => {},
        }
        let d = diagnostics[i];
        let order = (phase(d), semantic_role_order(d, operation));
        let out_of_order = match previous {
            Some((p, o)) => p > order.0 || (p == order.0 && o > order.1),
            None => false,
        };
        if out_of_order {
            proof {
                if decides(subject_exists) {
                    lemma_scope_prefix(diagnostics@, i as int, request_id@, operation, *sources, found);
                }
                lemma_scope_prefix(diagnostics@, i as int, request_id@, operation, *sources, any);
                assert(scope_answered(subject_exists, diagnostics@, full));
            }
            return Err(DiagnosticContractError::SemanticOrder);
        }
        proof {
            per = per.push(ans);
            assert forall|k: int| 0 <= k < i + 1 implies #[trigger] record_passed(ds, k, request_id@, operation, *sources, per[k]) by {
                if k < i {
                    assert(per[k] == full[k]);
                }
            }
            assert forall|k: int| 0 <= k < i + 1 implies record_answered(subject_exists, ds[k], #[trigger] per[k]) by {
                if k < i {
                    assert(per[k] == full[k]);
                }
            }
        }
        previous = Some(order);
        i = i + 1;
    }
    proof {
        lemma_scope_prefix(diagnostics@, i as int, request_id@, operation, *sources, any);
        if decides(subject_exists) {
            lemma_scope_prefix(diagnostics@, i as int, request_id@, operation, *sources, found);
        }
        lemma_run_prefix(ds, i as int, request_id@, operation, *sources, per);
        assert(scope_answered(subject_exists, diagnostics@, per));
    }
    Ok(())
}

// ---------------------------------------------------------------------------
// Migration

/// The canonical category and portable code for a historical
/// `(category, code)` pair, for the pairs with an explicit mapping.
pub open spec fn migrated_kind(category: Seq<char>, code: Seq<char>) -> Option<(PortableCategory, Seq<char>)> {
    if category == "parse-error"@ && code == "unexpected-eof"@ {
        Some((PortableCategory::ParseError, "parse.unexpected_eof"@))
    } else if category == "merge-conflict"@ && code == "edit-edit"@ {
        Some((PortableCategory::MergeConflict, "merge.edit_edit"@))
    } else {
        None
    }
}

pub open spec fn migrated_severity(s: Seq<char>) -> Option<DiagnosticSeverity> {
    if s == "info"@ {
        Some(DiagnosticSeverity::Info)
    } else if s == "warning"@ {
        Some(DiagnosticSeverity::Warning)
    } else if s == "error"@ {
        Some(DiagnosticSeverity::Error)
    } else {
        None
    }
}

/// Why a historical record cannot be migrated, if it cannot.
pub open spec fn migration_error(legacy: ResultDiagnostic, request: ValidatedOperationRequest) -> Option<
    DiagnosticContractError,
> {
    if migrated_kind(legacy.category@, legacy.code@) is None || migrated_severity(legacy.severity@) is None {
        Some(DiagnosticContractError::UnmappedMigration)
    } else {
        match legacy.source_role {
            Some(role) => if request.spec_request().sources.spec_get(role) is None {
                Some(DiagnosticContractError::SourceReference)
            } else {
                None
            },
            None => if legacy.span is Some || (migrated_kind(legacy.category@, legacy.code@) matches Some(
                (c, _),
            ) && c == PortableCategory::ParseError) {
                Some(DiagnosticContractError::SourceReference)
            } else {
                None
            },
        }
    }
}

/// The canonical record a migration produces: mapped category, code and
/// severity; the request's identity and operation; a source reference for
/// the legacy role; the legacy record kept as an opaque extension (`payload`,
/// its JSON text); and nothing invented beyond that.
pub open spec fn migrated(
    d: PortableDiagnostic,
    legacy: ResultDiagnostic,
    sequence: u64,
    request: ValidatedOperationRequest,
    origin: DiagnosticOrigin,
    payload: String,
) -> bool {
    let req = request.spec_request();
    &&& d.schema@ == DIAGNOSTIC_SCHEMA@
    &&& d.id == legacy.id
    &&& d.sequence == sequence
    &&& Some(d.severity) == migrated_severity(legacy.severity@)
    &&& Some((d.category, d.code@)) == migrated_kind(legacy.category@, legacy.code@)
    &&& d.message == legacy.message
    &&& d.blocking == legacy.blocking
    &&& d.operation == Some(policy_kind(req.operation))
    &&& (d.request_id matches Some(x) && x@ == req.request_id@)
    &&& match legacy.source_role {
        Some(role) => {
            &&& d.source_refs@.len() == 1
            &&& d.source_refs@[0].role == role
            &&& (req.sources.spec_get(role) matches Some(src) && d.source_refs@[0].source_id@ == src.source_id@)
            &&& d.source_refs@[0].span == legacy.span
            &&& d.source_refs@[0].extra.entries@.len() == 0
        },
        None => d.source_refs@.len() == 0,
    }
    &&& d.subject_refs is None
    &&& d.cause_ids@.len() == 0
    &&& d.related_ids@.len() == 0
    &&& d.origin == origin
    &&& d.data.entries@.len() == 0
    &&& d.extensions@.len() == 1
    &&& d.extensions@[0].schema@ == MIGRATION_DIAGNOSTIC_SCHEMA@
    &&& d.extensions@[0].namespace@ == MIGRATION_NAMESPACE@
    &&& d.extensions@[0].capabilities@.len() == 0
    &&& d.extensions@[0].payload == payload
    &&& d.extensions@[0].extra.entries@.len() == 0
    &&& d.metadata == legacy.metadata
    &&& d.extra.entries@.len() == 0
}

/// Explicit migration for the historical reasons with a mapping. Unknown
/// reasons fail closed: neither English text nor punctuation rewriting assigns
/// semantics. The caller supplies the actual origin identity and the legacy
/// record's JSON text, which stays attached as an opaque extension.
pub fn migrate_diagnostic(
    legacy: ResultDiagnostic,
    sequence: u64,
    request: &ValidatedOperationRequest,
    origin: DiagnosticOrigin,
    payload: String,
) -> (r: Result<PortableDiagnostic, DiagnosticContractError>)
    ensures
        match migration_error(legacy, *request) {
            Some(e) => r == Err::<PortableDiagnostic, DiagnosticContractError>(e),
            None => r matches Ok(d) && migrated(d, legacy, sequence, *request, origin, payload),
        },
{
    let category = legacy.category.as_str();
    let code = legacy.code.as_str();
    let (category, code) = if str_eq(category, "parse-error") && str_eq(code, "unexpected-eof") {
        (PortableCategory::ParseError, "parse.unexpected_eof")
    } else if str_eq(category, "merge-conflict") && str_eq(code, "edit-edit") {
        (PortableCategory::MergeConflict, "merge.edit_edit")
    } else {
        return Err(DiagnosticContractError::UnmappedMigration);
    };
    let sv = legacy.severity.as_str();
    let severity = if str_eq(sv, "info") {
        DiagnosticSeverity::Info
    } else if str_eq(sv, "warning") {
        DiagnosticSeverity::Warning
    } else if str_eq(sv, "error") {
        DiagnosticSeverity::Error
    } else {
        return Err(DiagnosticContractError::UnmappedMigration);
    };
    let input = request.request();
    let mut source_refs: Vec<DiagnosticSourceRef> = Vec::new();
    match legacy.source_role {
        Some(role) => {
            let source = match input.sources.get(role) {
                Some(s) => s,
                None => return Err(DiagnosticContractError::SourceReference),
            };
            source_refs.push(
                DiagnosticSourceRef {
                    source_id: source.source_id.clone(),
                    role,
                    span: legacy.span,
                    extra: Metadata::new(),
                },
            );
        },
        None => {
            if legacy.span.is_some() || category == PortableCategory::ParseError {
                return Err(DiagnosticContractError::SourceReference);
            }
        },
    }
    let extension = NativeExtension {
        schema: owned(MIGRATION_DIAGNOSTIC_SCHEMA),
        namespace: owned(MIGRATION_NAMESPACE),
        capabilities: Vec::new(),
        payload,
        extra: Metadata::new(),
    };
    let mut extensions: Vec<NativeExtension> = Vec::new();
    extensions.push(extension);
    Ok(
        PortableDiagnostic {
            schema: owned(DIAGNOSTIC_SCHEMA),
            id: legacy.id,
            sequence,
            severity,
            category,
            code: owned(code),
            message: legacy.message,
            blocking: legacy.blocking,
            operation: Some(input.operation.kind()),
            request_id: Some(input.request_id.clone()),
            source_refs,
            subject_refs: None,
            cause_ids: Vec::new(),
            related_ids: Vec::new(),
            origin,
            data: Metadata::new(),
            extensions,
            metadata: legacy.metadata,
            extra: Metadata::new(),
        },
    )
}

// ---------------------------------------------------------------------------
// What an accepted scope guarantees

proof fn lemma_scope_accepted(
    ds: Seq<&PortableDiagnostic>,
    request_id: Seq<char>,
    op: OperationKind,
    m: SourceMap,
    found: spec_fn(DiagnosticSubjectRef) -> bool,
    from: int,
    i: int,
)
    requires
        0 <= from <= i < ds.len(),
        scope_error_from(ds, from, request_id, op, m, found) is None,
    ensures
        record_error(ds, i, request_id, op, m, found) is None,
    decreases i - from,
{
    if from < i {
        lemma_scope_accepted(ds, request_id, op, m, found, from + 1, i);
    }
}

/// In an accepted diagnostic scope the records are numbered by position,
/// identities are distinct, every cause names an earlier diagnostic of the
/// scope and every related identity one of the scope, and the records never
/// step back in `(phase, role order)`.
pub proof fn law_accepted_diagnostics(
    ds: Seq<&PortableDiagnostic>,
    request_id: Seq<char>,
    op: OperationKind,
    m: SourceMap,
    found: spec_fn(DiagnosticSubjectRef) -> bool,
)
    requires
        scope_error(ds, request_id, op, m, found) is None,
    ensures
        unique_nonempty_spec(diagnostic_ids(ds)),
        forall|i: int| 0 <= i < ds.len() ==> (#[trigger] ds[i]).sequence == i,
        forall|i: int, k: int|
            0 <= i < ds.len() && 0 <= k < ds[i].cause_ids@.len() ==> diagnostic_ids(ds).take(i).contains(
                (#[trigger] ds[i].cause_ids@[k])@,
            ),
        forall|i: int, k: int|
            0 <= i < ds.len() && 0 <= k < ds[i].related_ids@.len() ==> diagnostic_ids(ds).contains(
                (#[trigger] ds[i].related_ids@[k])@,
            ),
        forall|i: int| 0 < i < ds.len() ==> !order_after(*ds[i - 1], *(#[trigger] ds[i]), op),
{
    assert forall|i: int| 0 <= i < ds.len() implies record_error(ds, i, request_id, op, m, found) is None by {
        lemma_scope_accepted(ds, request_id, op, m, found, 0, i);
    }
    assert forall|i: int, k: int|
        0 <= i < ds.len() && 0 <= k < ds[i].cause_ids@.len() implies diagnostic_ids(ds).take(i).contains(
        (#[trigger] ds[i].cause_ids@[k])@,
    ) by {
        assert(record_error(ds, i, request_id, op, m, found) is None);
        assert(string_views(ds[i].cause_ids@)[k] == ds[i].cause_ids@[k]@);
    }
    assert forall|i: int, k: int|
        0 <= i < ds.len() && 0 <= k < ds[i].related_ids@.len() implies diagnostic_ids(ds).contains(
        (#[trigger] ds[i].related_ids@[k])@,
    ) by {
        assert(record_error(ds, i, request_id, op, m, found) is None);
        assert(string_views(ds[i].related_ids@)[k] == ds[i].related_ids@[k]@);
    }
    assert forall|i: int| 0 <= i < ds.len() implies (#[trigger] ds[i]).sequence == i by {
        assert(record_error(ds, i, request_id, op, m, found) is None);
    }
    assert forall|i: int| 0 < i < ds.len() implies !order_after(*ds[i - 1], *(#[trigger] ds[i]), op) by {
        assert(record_error(ds, i, request_id, op, m, found) is None);
    }
}

} // verus!
