//! Projection of an executed three-way owner classification into portable
//! conflicts and diagnostics. Decisions come from the executed classification,
//! never from legacy messages, generic categories or marker text.
use crate::metadata::{Metadata, MetadataEntry};
use crate::operation::{policy_kind, ValidatedOperationRequest};
use crate::operation_result::{opt_view, string_views, ResultPoint, ResultRange, ResultSpan};
use crate::portable_conflict::{
    AlternativeState, ConflictCategory, ConflictClassification, ConflictEvidence, ConflictLocalization,
    ConflictResolution, ConflictSourceAlternative, ConflictSubject, ExactConflictRegion, LocalizationStatus,
    PortableConflict, ResolutionStatus, ResolutionStrategy, CONFLICT_SCHEMA,
};
use crate::portable_diagnostic::{
    DiagnosticLayer, DiagnosticOrigin, DiagnosticSeverity, DiagnosticSourceRef, DiagnosticSubjectRef,
    PortableCategory, PortableDiagnostic, DIAGNOSTIC_SCHEMA,
};
use crate::source::{
    count_lf, descriptors_equal, digest_hex, line_start, same_descriptor, valid_range, ByteRange,
    SourceDescriptor, SourceDocument, SourceRole,
};
use crate::text::{copy_string, owned, str_eq, utf8_of};
use crate::OperationKind;
use vstd::prelude::*;
use vstd::string::StringExecFns;

verus! {

/// The revision a merge alternative was taken from.
#[derive(Clone, Copy, Debug, PartialEq, Eq, Structural)]
pub enum SourceRevision {
    Base,
    Ours,
    Theirs,
}

/// Whether a revision has content for a conflicting owner.
#[derive(Clone, Copy, Debug, PartialEq, Eq, Structural)]
pub enum ConflictAlternativeState {
    Present,
    Absent,
}

/// What the shared engine decided for one owner.
#[derive(Clone, Copy, Debug, PartialEq, Eq, Structural)]
pub enum OwnerDecisionKind {
    ConflictEditEdit,
    ConflictDeleteModify,
    ConflictAddAdd,
    /// Any decision that is not a conflict.
    Settled,
}

/// The overall outcome of a three-way merge.
#[derive(Clone, Copy, Debug, PartialEq, Eq, Structural)]
pub enum MergeOutcome {
    Merged,
    Conflict,
    Error,
}

/// One revision's side of a conflicting owner, with its source byte regions.
#[derive(Clone, Debug, PartialEq, Eq)]
pub struct MergeAlternative {
    pub revision: SourceRevision,
    pub state: ConflictAlternativeState,
    pub regions: Vec<ByteRange>,
}

/// One owner decision of the executed classification; `record` is the JSON
/// text of the decision as the engine reported it.
#[derive(Clone, Debug, PartialEq, Eq)]
pub struct OwnerDecision {
    pub id: String,
    pub kind: OwnerDecisionKind,
    pub conflict_id: Option<String>,
    pub alternatives: Vec<MergeAlternative>,
    pub path: String,
    pub owner_id: String,
    pub record: String,
}

/// The executed owner classification and its source comparisons.
#[derive(Clone, Debug, PartialEq, Eq)]
pub struct OwnerClassification {
    pub whole_source_selection: bool,
    pub base_equals_ours: bool,
    pub base_equals_theirs: bool,
    pub ours_equals_theirs: bool,
    pub decisions: Vec<OwnerDecision>,
}

/// A conflict as the renderer reported it.
#[derive(Clone, Debug, PartialEq, Eq)]
pub struct RenderedConflict {
    pub conflict_id: String,
    pub alternatives: Vec<MergeAlternative>,
    pub path: String,
    pub message: String,
}

/// What a native three-way execution reports: the source descriptors it
/// merged, the rendered outcome and conflicts, and the owner classification.
#[derive(Clone, Debug, PartialEq, Eq)]
pub struct NativeMergeExecution {
    pub sources: Vec<SourceDescriptor>,
    pub outcome: MergeOutcome,
    pub conflicts: Vec<RenderedConflict>,
    pub classification: Option<OwnerClassification>,
}

#[derive(Clone, Debug, PartialEq, Eq)]
pub struct NativeConflictProjection {
    pub conflicts: Vec<PortableConflict>,
    pub diagnostics: Vec<PortableDiagnostic>,
    pub evidence: ConflictEvidence,
}

#[derive(Clone, Copy, Debug, PartialEq, Eq, Structural)]
pub enum ConflictProjectionError {
    Operation,
    Source,
    Classification,
    Provider,
}

// ---------------------------------------------------------------------------
// What the projection checks and produces

pub open spec fn three_roles() -> Seq<SourceRole> {
    seq![SourceRole::Base, SourceRole::Ours, SourceRole::Theirs]
}

pub open spec fn three_revisions() -> Seq<SourceRevision> {
    seq![SourceRevision::Base, SourceRevision::Ours, SourceRevision::Theirs]
}

/// The request's document for a role.
pub open spec fn role_document(req: ValidatedOperationRequest, role: SourceRole) -> Option<SourceDocument> {
    match req.spec_request().sources.spec_get(role) {
        Some(src) => req.spec_sources().lookup(src.source_id@),
        None => None,
    }
}

/// The request's source identity for a role.
pub open spec fn role_source_id(req: ValidatedOperationRequest, role: SourceRole) -> Seq<char> {
    req.spec_request().sources.spec_get(role)->0.source_id@
}

/// The execution merged exactly the request's base, ours and theirs.
pub open spec fn sources_match(exec: NativeMergeExecution, req: ValidatedOperationRequest) -> bool {
    &&& exec.sources@.len() == 3
    &&& forall|k: int|
        0 <= k < 3 ==> (role_document(req, #[trigger] three_roles()[k]) matches Some(d) && same_descriptor(
            exec.sources@[k],
            d.desc(),
        ))
}

pub open spec fn role_bytes(req: ValidatedOperationRequest, role: SourceRole) -> Seq<u8> {
    role_document(req, role)->0.data()
}

/// The classification's source comparisons are the actual byte comparisons.
pub open spec fn comparisons_ok(c: OwnerClassification, req: ValidatedOperationRequest) -> bool {
    let base = role_bytes(req, SourceRole::Base);
    let ours = role_bytes(req, SourceRole::Ours);
    let theirs = role_bytes(req, SourceRole::Theirs);
    &&& c.base_equals_ours == (base == ours)
    &&& c.base_equals_theirs == (base == theirs)
    &&& c.ours_equals_theirs == (ours == theirs)
}

pub open spec fn is_conflict_kind(k: OwnerDecisionKind) -> bool {
    k != OwnerDecisionKind::Settled
}

/// The portable category and code of a conflict decision.
pub open spec fn conflict_kind(k: OwnerDecisionKind) -> (ConflictCategory, Seq<char>) {
    match k {
        OwnerDecisionKind::ConflictEditEdit => (ConflictCategory::Content, "merge.edit_edit"@),
        OwnerDecisionKind::ConflictDeleteModify => (ConflictCategory::DeleteModify, "merge.delete_edit"@),
        _ => (ConflictCategory::AddAdd, "merge.add_add"@),
    }
}

/// The first rendered conflict with identity `id`.
pub open spec fn rendered_conflict(cs: Seq<RenderedConflict>, id: Seq<char>) -> Option<RenderedConflict>
    decreases cs.len(),
{
    if cs.len() == 0 {
        None
    } else if cs[0].conflict_id@ == id {
        Some(cs[0])
    } else {
        rendered_conflict(cs.drop_first(), id)
    }
}

pub open spec fn alternatives_same(a: Seq<MergeAlternative>, b: Seq<MergeAlternative>) -> bool {
    &&& a.len() == b.len()
    &&& forall|k: int|
        0 <= k < a.len() ==> (#[trigger] a[k]).revision == b[k].revision && a[k].state == b[k].state
            && a[k].regions@ == b[k].regions@
}

pub open spec fn revisions(alts: Seq<MergeAlternative>) -> Seq<SourceRevision> {
    alts.map_values(|a: MergeAlternative| a.revision)
}

/// Alternative `k` of a decision: content exactly when it is present, and
/// regions that lie in the revision's document.
pub open spec fn alternative_error(a: MergeAlternative, role: SourceRole, req: ValidatedOperationRequest) -> Option<
    ConflictProjectionError,
> {
    match role_document(req, role) {
        None => Some(ConflictProjectionError::Source),
        Some(d) => if (a.state == ConflictAlternativeState::Present) == (a.regions@.len() == 0) {
            Some(ConflictProjectionError::Classification)
        } else if exists|j: int| 0 <= j < a.regions@.len() && !valid_range(#[trigger] a.regions@[j], d.data().len()) {
            Some(ConflictProjectionError::Source)
        } else {
            None
        },
    }
}

pub open spec fn alternatives_error_from(
    alts: Seq<MergeAlternative>,
    req: ValidatedOperationRequest,
    k: int,
) -> Option<ConflictProjectionError>
    decreases alts.len() - k,
{
    if k < 0 || k >= alts.len() || k >= 3 {
        None
    } else {
        match alternative_error(alts[k], three_roles()[k], req) {
            Some(e) => Some(e),
            None => alternatives_error_from(alts, req, k + 1),
        }
    }
}

/// An earlier decision claimed the same conflict identity.
pub open spec fn conflict_claimed_before(ds: Seq<OwnerDecision>, i: int, id: Seq<char>) -> bool {
    exists|j: int|
        0 <= j < i && is_conflict_kind((#[trigger] ds[j]).kind) && opt_view(ds[j].conflict_id) == Some(id)
}

/// The first failure decision `i` of the classification meets.
pub open spec fn decision_error(
    exec: NativeMergeExecution,
    ds: Seq<OwnerDecision>,
    i: int,
    req: ValidatedOperationRequest,
) -> Option<ConflictProjectionError> {
    let d = ds[i];
    if d.id@.len() == 0 || exists|j: int| 0 <= j < i && (#[trigger] ds[j]).id@ == d.id@ {
        Some(ConflictProjectionError::Classification)
    } else if !is_conflict_kind(d.kind) {
        if d.conflict_id is Some {
            Some(ConflictProjectionError::Classification)
        } else {
            None
        }
    } else {
        match d.conflict_id {
            None => Some(ConflictProjectionError::Classification),
            Some(cid) => if conflict_claimed_before(ds, i, cid@) {
                Some(ConflictProjectionError::Classification)
            } else {
                match rendered_conflict(exec.conflicts@, cid@) {
                    None => Some(ConflictProjectionError::Classification),
                    Some(actual) => if !alternatives_same(actual.alternatives@, d.alternatives@) || actual.path@
                        != d.path@ {
                        Some(ConflictProjectionError::Classification)
                    } else if revisions(d.alternatives@) != three_revisions() {
                        Some(ConflictProjectionError::Classification)
                    } else {
                        alternatives_error_from(d.alternatives@, req, 0)
                    },
                }
            },
        }
    }
}

pub open spec fn decisions_error_from(
    exec: NativeMergeExecution,
    ds: Seq<OwnerDecision>,
    i: int,
    req: ValidatedOperationRequest,
) -> Option<ConflictProjectionError>
    decreases ds.len() - i,
{
    if i < 0 || i >= ds.len() {
        None
    } else {
        match decision_error(exec, ds, i, req) {
            Some(e) => Some(e),
            None => decisions_error_from(exec, ds, i + 1, req),
        }
    }
}

/// The conflict decisions, in classification order.
pub open spec fn conflict_decisions(ds: Seq<OwnerDecision>) -> Seq<OwnerDecision>
    decreases ds.len(),
{
    if ds.len() == 0 {
        Seq::empty()
    } else {
        let rest = conflict_decisions(ds.drop_last());
        if is_conflict_kind(ds.last().kind) {
            rest.push(ds.last())
        } else {
            rest
        }
    }
}

/// The first failure of the projection, in check order: the operation, the
/// selected provider, the merged sources, the classification, each decision,
/// and finally the conflict count.
pub open spec fn projection_error(
    exec: NativeMergeExecution,
    req: ValidatedOperationRequest,
    provider_id: Seq<char>,
) -> Option<ConflictProjectionError> {
    let requested = req.spec_request().provider_selection.provider_id;
    if policy_kind(req.spec_request().operation) != OperationKind::Merge3 || exec.outcome != MergeOutcome::Conflict {
        Some(ConflictProjectionError::Operation)
    } else if provider_id.len() == 0 || (requested matches Some(p) && p@ != provider_id) {
        Some(ConflictProjectionError::Provider)
    } else if !sources_match(exec, req) {
        Some(ConflictProjectionError::Source)
    } else {
        match exec.classification {
            None => Some(ConflictProjectionError::Classification),
            Some(c) => if c.whole_source_selection || !comparisons_ok(c, req) {
                Some(ConflictProjectionError::Classification)
            } else if decisions_error_from(exec, c.decisions@, 0, req) is Some {
                decisions_error_from(exec, c.decisions@, 0, req)
            } else if conflict_decisions(c.decisions@).len() == 0 || conflict_decisions(c.decisions@).len()
                != exec.conflicts@.len() {
                Some(ConflictProjectionError::Classification)
            } else {
                None
            },
        }
    }
}

pub open spec fn bool_text(b: bool) -> Seq<char> {
    if b {
        "true"@
    } else {
        "false"@
    }
}

/// The JSON text of the classification's source comparisons.
pub open spec fn comparisons_text(c: OwnerClassification) -> Seq<char> {
    "{\"base_equals_ours\":"@ + bool_text(c.base_equals_ours) + ",\"base_equals_theirs\":"@ + bool_text(
        c.base_equals_theirs,
    ) + ",\"ours_equals_theirs\":"@ + bool_text(c.ours_equals_theirs) + "}"@
}

pub open spec fn no_entries(m: Metadata) -> bool {
    m.entries@.len() == 0
}

/// An exact region of the document: its range, length and digest.
pub open spec fn region_projected(r: ExactConflictRegion, range: ByteRange, d: SourceDocument) -> bool {
    &&& r.range.start_byte == range.start_byte
    &&& r.range.end_byte == range.end_byte
    &&& no_entries(r.range.extra)
    &&& r.byte_length == range.end_byte - range.start_byte
    &&& utf8_of(r.sha256@) == digest_hex(d.data().subrange(range.start_byte as int, range.end_byte as int))
    &&& no_entries(r.extra)
}

pub open spec fn alternative_projected(
    a: ConflictSourceAlternative,
    m: MergeAlternative,
    role: SourceRole,
    req: ValidatedOperationRequest,
) -> bool {
    let present = m.state == ConflictAlternativeState::Present;
    &&& a.role == role
    &&& a.state == (if present { AlternativeState::Present } else { AlternativeState::Absent })
    &&& opt_view(a.source_id) == (if present { Some(role_source_id(req, role)) } else { None })
    &&& a.regions@.len() == m.regions@.len()
    &&& forall|j: int|
        0 <= j < a.regions@.len() ==> region_projected(
            #[trigger] a.regions@[j],
            m.regions@[j],
            role_document(req, role)->0,
        )
    &&& a.change_ids@.len() == 0
    &&& no_entries(a.extra)
}

/// The portable conflict of a conflict decision.
pub open spec fn conflict_projected(
    c: PortableConflict,
    d: OwnerDecision,
    actual: RenderedConflict,
    cls: OwnerClassification,
    req: ValidatedOperationRequest,
) -> bool {
    &&& c.schema@ == CONFLICT_SCHEMA@
    &&& opt_view(d.conflict_id) == Some(c.id@)
    &&& c.operation == OperationKind::Merge3
    &&& (c.category, c.code@) == conflict_kind(d.kind)
    &&& opt_view(c.message) == Some(actual.message@)
    &&& opt_view(c.subject.structural_path) == Some(d.path@)
    &&& opt_view(c.subject.owner_ref) == Some(d.owner_id@)
    &&& c.subject.node_ref is None
    &&& c.subject.archive_entry is None
    &&& c.subject.binary_region is None
    &&& c.subject.whole_document == Some(false)
    &&& no_entries(c.subject.extra)
    &&& c.roles@ == three_roles()
    &&& c.alternatives@.len() == 3
    &&& forall|k: int|
        0 <= k < 3 ==> alternative_projected(
            #[trigger] c.alternatives@[k],
            d.alternatives@[k],
            three_roles()[k],
            req,
        )
    &&& c.classification.base_participated == Some(true)
    &&& c.classification.change_ids@.len() == 0
    &&& string_views(c.classification.decision_ids@) == seq![d.id@]
    &&& c.classification.extra.entries@.len() == 2
    &&& c.classification.extra.entries@[0].key@ == "owner_decision"@
    &&& c.classification.extra.entries@[0].value@ == d.record@
    &&& c.classification.extra.entries@[1].key@ == "source_comparisons"@
    &&& c.classification.extra.entries@[1].value@ == comparisons_text(cls)
    &&& c.localization.status == LocalizationStatus::Owner
    &&& c.localization.verified
    &&& c.localization.output_regions@.len() == 0
    &&& no_entries(c.localization.extra)
    &&& c.resolution.status == ResolutionStatus::Unresolved
    &&& c.resolution.strategy == ResolutionStrategy::NoStrategy
    &&& c.resolution.selected_roles@.len() == 0
    &&& c.resolution.decision_id is None
    &&& c.resolution.resolver is None
    &&& c.resolution.reason is None
    &&& no_entries(c.resolution.extra)
    &&& string_views(c.diagnostic_ids@) == seq!["diagnostic."@ + d.id@]
    &&& c.change_ids@.len() == 0
    &&& string_views(c.decision_ids@) == seq![d.id@]
    &&& c.render_fragment_ids@.len() == 0
    &&& c.extensions@.len() == 0
    &&& no_entries(c.metadata)
    &&& no_entries(c.extra)
}

/// The regions of the alternatives, in order, each with its alternative's role.
pub open spec fn region_refs(alts: Seq<MergeAlternative>) -> Seq<(SourceRole, ByteRange)>
    decreases alts.len(),
{
    if alts.len() == 0 {
        Seq::empty()
    } else {
        let role = three_roles()[alts.len() - 1];
        region_refs(alts.drop_last()) + alts.last().regions@.map_values(|r: ByteRange| (role, r))
    }
}

pub open spec fn point_at(p: ResultPoint, data: Seq<u8>, offset: int) -> bool {
    &&& p.row == count_lf(data.take(offset))
    &&& p.column == offset - line_start(data.take(offset))
    &&& no_entries(p.extra)
}

/// A source reference to one region, with its exact span.
pub open spec fn source_ref_projected(
    s: DiagnosticSourceRef,
    role: SourceRole,
    range: ByteRange,
    req: ValidatedOperationRequest,
) -> bool {
    let data = role_document(req, role)->0.data();
    &&& s.source_id@ == role_source_id(req, role)
    &&& s.role == role
    &&& no_entries(s.extra)
    &&& s.span matches Some(sp) && {
        &&& sp.range.start_byte == range.start_byte
        &&& sp.range.end_byte == range.end_byte
        &&& no_entries(sp.range.extra)
        &&& point_at(sp.start_point, data, range.start_byte as int)
        &&& point_at(sp.end_point, data, range.end_byte as int)
        &&& no_entries(sp.extra)
    }
}

/// The blocking merge-conflict diagnostic of the `k`-th conflict decision.
pub open spec fn diagnostic_projected(
    g: PortableDiagnostic,
    d: OwnerDecision,
    actual: RenderedConflict,
    k: int,
    req: ValidatedOperationRequest,
    provider_id: Seq<char>,
) -> bool {
    let refs = region_refs(d.alternatives@);
    &&& g.schema@ == DIAGNOSTIC_SCHEMA@
    &&& g.id@ == "diagnostic."@ + d.id@
    &&& g.sequence == k
    &&& g.severity == DiagnosticSeverity::Error
    &&& g.category == PortableCategory::MergeConflict
    &&& g.code@ == conflict_kind(d.kind).1
    &&& g.message@ == actual.message@
    &&& g.blocking
    &&& g.operation == Some(OperationKind::Merge3)
    &&& opt_view(g.request_id) == Some(req.spec_request().request_id@)
    &&& g.source_refs@.len() == refs.len()
    &&& forall|j: int|
        0 <= j < refs.len() ==> source_ref_projected(#[trigger] g.source_refs@[j], refs[j].0, refs[j].1, req)
    &&& g.subject_refs matches Some(ss) && ss@.len() == 1 && ss@[0].kind@ == "conflict"@ && opt_view(
        d.conflict_id,
    ) == Some(ss@[0].id@) && no_entries(ss@[0].extra)
    &&& g.cause_ids@.len() == 0
    &&& g.related_ids@.len() == 0
    &&& g.origin.layer == DiagnosticLayer::Provider
    &&& opt_view(g.origin.provider_id) == Some(provider_id)
    &&& g.origin.backend_id is None
    &&& g.origin.package is None
    &&& g.origin.package_version is None
    &&& g.origin.native_code is None
    &&& no_entries(g.origin.extra)
    &&& no_entries(g.data)
    &&& g.extensions@.len() == 0
    &&& no_entries(g.metadata)
    &&& no_entries(g.extra)
}

pub open spec fn decision_ids(ds: Seq<OwnerDecision>) -> Seq<Seq<char>> {
    ds.map_values(|d: OwnerDecision| d.id@)
}

/// The projection of an accepted classification: one conflict and one
/// diagnostic per conflict decision, in order, and every decision identity as
/// evidence.
pub open spec fn projected(
    p: NativeConflictProjection,
    exec: NativeMergeExecution,
    req: ValidatedOperationRequest,
    provider_id: Seq<char>,
) -> bool {
    let c = exec.classification->0;
    let cds = conflict_decisions(c.decisions@);
    &&& p.conflicts@.len() == cds.len()
    &&& p.diagnostics@.len() == cds.len()
    &&& forall|k: int|
        0 <= k < cds.len() ==> conflict_projected(
            #[trigger] p.conflicts@[k],
            cds[k],
            rendered_conflict(exec.conflicts@, cds[k].conflict_id->0@)->0,
            c,
            req,
        )
    &&& forall|k: int|
        0 <= k < cds.len() ==> diagnostic_projected(
            #[trigger] p.diagnostics@[k],
            cds[k],
            rendered_conflict(exec.conflicts@, cds[k].conflict_id->0@)->0,
            k,
            req,
            provider_id,
        )
    &&& string_views(p.evidence.decisions@) == decision_ids(c.decisions@)
    &&& p.evidence.render_fragments@.len() == 0
    &&& p.evidence.authorizations@.len() == 0
}

// ---------------------------------------------------------------------------
// Executable projection

pub(crate) fn role_doc<'a>(request: &'a ValidatedOperationRequest, role: SourceRole) -> (r: Option<&'a SourceDocument>)
    ensures
        match (r, role_document(*request, role)) {
            (Some(a), Some(b)) => *a == b,
            (None, None) => true,
            _ => false,
        },
{
    match request.request().sources.get(role) {
        Some(src) => match request.sources().get(src.source_id.as_str()) {
            Ok(d) => Some(d),
            Err(_) => None,
        },
        None => None,
    }
}

pub(crate) fn role_id(request: &ValidatedOperationRequest, role: SourceRole) -> (r: String)
    requires
        request.spec_request().sources.spec_get(role) is Some,
    ensures
        r@ == role_source_id(*request, role),
{
    copy_string(&request.request().sources.get_present(role).source_id)
}

fn bool_json(b: bool) -> (r: &'static str)
    ensures
        r@ == bool_text(b),
{
    if b {
        "true"
    } else {
        "false"
    }
}

fn comparisons_json(c: &OwnerClassification) -> (r: String)
    ensures
        r@ == comparisons_text(*c),
{
    let mut s = owned("{\"base_equals_ours\":");
    s.append(bool_json(c.base_equals_ours));
    s.append(",\"base_equals_theirs\":");
    s.append(bool_json(c.base_equals_theirs));
    s.append(",\"ours_equals_theirs\":");
    s.append(bool_json(c.ours_equals_theirs));
    s.append("}");
    s
}

fn find_rendered<'a>(cs: &'a Vec<RenderedConflict>, id: &str) -> (r: Option<&'a RenderedConflict>)
    ensures
        match (r, rendered_conflict(cs@, id@)) {
            (Some(a), Some(b)) => *a == b,
            (None, None) => true,
            _ => false,
        },
{
    assert(cs@.skip(0) =~= cs@);
    let mut k: usize = 0;
    while k < cs.len()
        invariant
            k <= cs@.len(),
            rendered_conflict(cs@, id@) == rendered_conflict(cs@.skip(k as int), id@),
        decreases cs@.len() - k,
    {
        assert(cs@.skip(k as int).drop_first() =~= cs@.skip(k + 1));
        if str_eq(cs[k].conflict_id.as_str(), id) {
            return Some(&cs[k]);
        }
        k = k + 1;
    }
    None
}

fn ranges_equal(a: &Vec<ByteRange>, b: &Vec<ByteRange>) -> (r: bool)
    ensures
        r == (a@ == b@),
{
    if a.len() != b.len() {
        return false;
    }
    let mut k: usize = 0;
    while k < a.len()
        invariant
            a@.len() == b@.len(),
            k <= a@.len(),
            forall|j: int| 0 <= j < k ==> a@[j] == b@[j],
        decreases a@.len() - k,
    {
        if a[k] != b[k] {
            return false;
        }
        k = k + 1;
    }
    assert(a@ =~= b@);
    true
}

fn alternatives_equal(a: &Vec<MergeAlternative>, b: &Vec<MergeAlternative>) -> (r: bool)
    ensures
        r == alternatives_same(a@, b@),
{
    if a.len() != b.len() {
        return false;
    }
    let mut k: usize = 0;
    while k < a.len()
        invariant
            a@.len() == b@.len(),
            k <= a@.len(),
            forall|j: int|
                0 <= j < k ==> (#[trigger] a@[j]).revision == b@[j].revision && a@[j].state == b@[j].state
                    && a@[j].regions@ == b@[j].regions@,
        decreases a@.len() - k,
    {
        if a[k].revision != b[k].revision || a[k].state != b[k].state || !ranges_equal(&a[k].regions, &b[k].regions) {
            return false;
        }
        k = k + 1;
    }
    true
}

fn revisions_canonical(alts: &Vec<MergeAlternative>) -> (r: bool)
    ensures
        r == (revisions(alts@) == three_revisions()),
{
    if alts.len() != 3 {
        proof {
            assert(revisions(alts@).len() != three_revisions().len());
        }
        return false;
    }
    let r = alts[0].revision == SourceRevision::Base && alts[1].revision == SourceRevision::Ours
        && alts[2].revision == SourceRevision::Theirs;
    proof {
        if r {
            assert(revisions(alts@) =~= three_revisions());
        } else {
            assert(revisions(alts@)[0] != three_revisions()[0] || revisions(alts@)[1] != three_revisions()[1]
                || revisions(alts@)[2] != three_revisions()[2]);
        }
    }
    r
}

fn result_point(d: &SourceDocument, offset: usize) -> (r: Result<ResultPoint, ConflictProjectionError>)
    ensures
        r.is_ok() == (offset <= d.data().len()),
        match r {
            Ok(p) => point_at(p, d.data(), offset as int),
            Err(e) => e == ConflictProjectionError::Source,
        },
{
    match d.point(offset) {
        Ok(p) => Ok(ResultPoint { row: p.row, column: p.column, extra: Metadata::new() }),
        Err(_) => Err(ConflictProjectionError::Source),
    }
}

/// Project one alternative: its portable form, and one source reference per
/// region appended to `refs`.
#[verifier::loop_isolation(false)]
fn project_alternative(
    m: &MergeAlternative,
    role: SourceRole,
    request: &ValidatedOperationRequest,
    refs: &mut Vec<DiagnosticSourceRef>,
) -> (r: Result<ConflictSourceAlternative, ConflictProjectionError>)
    ensures
        match alternative_error(*m, role, *request) {
            Some(e) => r == Err::<ConflictSourceAlternative, ConflictProjectionError>(e),
            None => r is Ok,
        },
        r matches Ok(a) ==> {
            &&& alternative_projected(a, *m, role, *request)
            &&& final(refs)@.len() == old(refs)@.len() + m.regions@.len()
            &&& final(refs)@.take(old(refs)@.len() as int) == old(refs)@
            &&& forall|j: int|
                0 <= j < m.regions@.len() ==> source_ref_projected(
                    #[trigger] final(refs)@[old(refs)@.len() + j],
                    role,
                    m.regions@[j],
                    *request,
                )
        },
{
    let document = match role_doc(request, role) {
        Some(d) => d,
        None => return Err(ConflictProjectionError::Source),
    };
    let present = m.state == ConflictAlternativeState::Present;
    if present == (m.regions.len() == 0) {
        return Err(ConflictProjectionError::Classification);
    }
    let source_id = role_id(request, role);
    let ghost start_refs = refs@;
    let mut regions: Vec<ExactConflictRegion> = Vec::new();
    let mut k: usize = 0;
    while k < m.regions.len()
        invariant
            k <= m.regions@.len(),
            regions@.len() == k,
            refs@.len() == start_refs.len() + k,
            refs@.take(start_refs.len() as int) == start_refs,
            forall|j: int| 0 <= j < k ==> valid_range(#[trigger] m.regions@[j], document.data().len()),
            forall|j: int|
                0 <= j < k ==> region_projected(#[trigger] regions@[j], m.regions@[j], role_document(*request, role)->0),
            forall|j: int|
                0 <= j < k ==> source_ref_projected(#[trigger] refs@[start_refs.len() + j], role, m.regions@[j], *request),
        decreases m.regions@.len() - k,
    {
        let range = m.regions[k];
        let bytes = match document.slice(range) {
            Ok(b) => b,
            Err(_) => {
                assert(!valid_range(m.regions@[k as int], document.data().len()));
                return Err(ConflictProjectionError::Source);
            },
        };
        let byte_length = bytes.len() as u64;
        let sha256 = match document.range_digest(range) {
            Ok(h) => h,
            Err(_) => return Err(ConflictProjectionError::Source),
        };
        let start = result_point(document, range.start_byte)?;
        let end = result_point(document, range.end_byte)?;
        regions.push(
            ExactConflictRegion {
                range: ResultRange { start_byte: range.start_byte, end_byte: range.end_byte, extra: Metadata::new() },
                byte_length,
                sha256,
                extra: Metadata::new(),
            },
        );
        let span = ResultSpan {
            range: ResultRange { start_byte: range.start_byte, end_byte: range.end_byte, extra: Metadata::new() },
            start_point: start,
            end_point: end,
            extra: Metadata::new(),
        };
        let ghost before = refs@;
        refs.push(
            DiagnosticSourceRef { source_id: copy_string(&source_id), role, span: Some(span), extra: Metadata::new() },
        );
        proof {
            assert(refs@.take(start_refs.len() as int) =~= before.take(start_refs.len() as int));
            assert forall|j: int| 0 <= j < k + 1 implies source_ref_projected(
                #[trigger] refs@[start_refs.len() + j],
                role,
                m.regions@[j],
                *request,
            ) by {
                if j < k {
                    assert(refs@[start_refs.len() + j] == before[start_refs.len() + j]);
                }
            }
        }
        k = k + 1;
    }
    Ok(
        ConflictSourceAlternative {
            role,
            state: if present {
                AlternativeState::Present
            } else {
                AlternativeState::Absent
            },
            source_id: if present {
                Some(source_id)
            } else {
                None
            },
            regions,
            change_ids: Vec::new(),
            extra: Metadata::new(),
        },
    )
}

proof fn lemma_conflict_decisions_step(ds: Seq<OwnerDecision>, i: int)
    requires
        0 <= i < ds.len(),
    ensures
        conflict_decisions(ds.take(i + 1)) == if is_conflict_kind(ds[i].kind) {
            conflict_decisions(ds.take(i)).push(ds[i])
        } else {
            conflict_decisions(ds.take(i))
        },
{
    assert(ds.take(i + 1).drop_last() =~= ds.take(i));
    assert(ds.take(i + 1).last() == ds[i]);
}

proof fn lemma_region_refs_step(alts: Seq<MergeAlternative>, k: int)
    requires
        0 <= k < alts.len(),
    ensures
        region_refs(alts.take(k + 1)) == region_refs(alts.take(k)) + alts[k].regions@.map_values(
            |r: ByteRange| (three_roles()[k], r),
        ),
{
    assert(alts.take(k + 1).drop_last() =~= alts.take(k));
    assert(alts.take(k + 1).last() == alts[k]);
}

proof fn lemma_decisions_prefix(
    exec: NativeMergeExecution,
    ds: Seq<OwnerDecision>,
    req: ValidatedOperationRequest,
    i: int,
)
    requires
        0 <= i <= ds.len(),
        forall|j: int| 0 <= j < i ==> (#[trigger] decision_error(exec, ds, j, req)) is None,
    ensures
        decisions_error_from(exec, ds, 0, req) == decisions_error_from(exec, ds, i, req),
    decreases i,
{
    if i > 0 {
        lemma_decisions_prefix(exec, ds, req, i - 1);
        assert(decision_error(exec, ds, i - 1, req) is None);
    }
}

pub(crate) fn string_listed(v: &Vec<String>, s: &str) -> (r: bool)
    ensures
        r == string_views(v@).contains(s@),
{
    let mut k: usize = 0;
    while k < v.len()
        invariant
            k <= v@.len(),
            forall|j: int| 0 <= j < k ==> string_views(v@)[j] != s@,
        decreases v@.len() - k,
    {
        if str_eq(v[k].as_str(), s) {
            assert(string_views(v@)[k as int] == s@);
            return true;
        }
        k = k + 1;
    }
    false
}

fn claimed_before(ds: &Vec<OwnerDecision>, i: usize, id: &str) -> (r: bool)
    requires
        i <= ds@.len(),
    ensures
        r == conflict_claimed_before(ds@, i as int, id@),
{
    let mut j: usize = 0;
    while j < i
        invariant
            i <= ds@.len(),
            j <= i,
            forall|q: int|
                0 <= q < j ==> !(is_conflict_kind((#[trigger] ds@[q]).kind) && opt_view(ds@[q].conflict_id) == Some(id@)),
        decreases i - j,
    {
        let conflict = ds[j].kind != OwnerDecisionKind::Settled;
        if conflict && crate::operation_result::opt_is(&ds[j].conflict_id, id) {
            return true;
        }
        j = j + 1;
    }
    false
}

/// The alternatives of a canonical decision, projected in role order, and
/// the source references of all their regions.
#[verifier::loop_isolation(false)]
fn project_alternatives(
    d: &OwnerDecision,
    request: &ValidatedOperationRequest,
) -> (r: Result<(Vec<ConflictSourceAlternative>, Vec<DiagnosticSourceRef>), ConflictProjectionError>)
    requires
        d.alternatives@.len() == 3,
    ensures
        match alternatives_error_from(d.alternatives@, *request, 0) {
            Some(e) => r == Err::<(Vec<ConflictSourceAlternative>, Vec<DiagnosticSourceRef>), ConflictProjectionError>(e),
            None => r is Ok,
        },
        r matches Ok((alts, refs)) ==> {
            &&& alts@.len() == 3
            &&& forall|k: int|
                0 <= k < 3 ==> alternative_projected(#[trigger] alts@[k], d.alternatives@[k], three_roles()[k], *request)
            &&& refs@.len() == region_refs(d.alternatives@).len()
            &&& forall|j: int|
                0 <= j < refs@.len() ==> source_ref_projected(
                    #[trigger] refs@[j],
                    region_refs(d.alternatives@)[j].0,
                    region_refs(d.alternatives@)[j].1,
                    *request,
                )
        },
{
    let roles = OperationKind::Merge3.source_roles();
    let ghost alts_in = d.alternatives@;
    let mut alternatives: Vec<ConflictSourceAlternative> = Vec::new();
    let mut refs: Vec<DiagnosticSourceRef> = Vec::new();
    assert(alts_in.take(0) =~= Seq::<MergeAlternative>::empty());
    let mut k: usize = 0;
    while k < 3
        invariant
            roles@ == three_roles(),
            alts_in == d.alternatives@,
            alts_in.len() == 3,
            k <= 3,
            alternatives_error_from(alts_in, *request, 0) == alternatives_error_from(alts_in, *request, k as int),
            alternatives@.len() == k,
            forall|q: int|
                0 <= q < k ==> alternative_projected(#[trigger] alternatives@[q], alts_in[q], three_roles()[q], *request),
            refs@.len() == region_refs(alts_in.take(k as int)).len(),
            forall|j: int|
                0 <= j < refs@.len() ==> source_ref_projected(
                    #[trigger] refs@[j],
                    region_refs(alts_in.take(k as int))[j].0,
                    region_refs(alts_in.take(k as int))[j].1,
                    *request,
                ),
        decreases 3 - k,
    {
        let ghost before = refs@;
        let a = match project_alternative(&d.alternatives[k], roles[k], request, &mut refs) {
            Ok(a) => a,
            Err(e) => return Err(e),
        };
        proof {
            lemma_region_refs_step(alts_in, k as int);
            let prev = region_refs(alts_in.take(k as int));
            let next = region_refs(alts_in.take(k + 1));
            let added = alts_in[k as int].regions@.map_values(|r: ByteRange| (three_roles()[k as int], r));
            assert(next == prev + added);
            assert forall|j: int| 0 <= j < refs@.len() implies source_ref_projected(
                #[trigger] refs@[j],
                next[j].0,
                next[j].1,
                *request,
            ) by {
                if j < before.len() {
                    assert(refs@.take(before.len() as int)[j] == refs@[j]);
                    assert(refs@[j] == before[j]);
                } else {
                    let q = j - before.len();
                    assert(refs@[before.len() + q] == refs@[j]);
                    assert(next[j] == added[q]);
                }
            }
        }
        alternatives.push(a);
        k = k + 1;
    }
    assert(alts_in.take(3) =~= alts_in);
    Ok((alternatives, refs))
}

fn conflict_code(kind: OwnerDecisionKind) -> (r: (ConflictCategory, &'static str))
    requires
        kind != OwnerDecisionKind::Settled,
    ensures
        (r.0, r.1@) == conflict_kind(kind),
{
    match kind {
        OwnerDecisionKind::ConflictEditEdit => (ConflictCategory::Content, "merge.edit_edit"),
        OwnerDecisionKind::ConflictDeleteModify => (ConflictCategory::DeleteModify, "merge.delete_edit"),
        _ => (ConflictCategory::AddAdd, "merge.add_add"),
    }
}

fn single_string(s: String) -> (v: Vec<String>)
    ensures
        string_views(v@) == seq![s@],
{
    let v = vec![s];
    assert(string_views(v@) =~= seq![s@]);
    v
}

fn diagnostic_id(d: &OwnerDecision) -> (r: String)
    ensures
        r@ == "diagnostic."@ + d.id@,
{
    let mut s = owned("diagnostic.");
    s.append(d.id.as_str());
    s
}

fn build_diagnostic(
    d: &OwnerDecision,
    actual: &RenderedConflict,
    sequence: u64,
    code: &str,
    source_refs: Vec<DiagnosticSourceRef>,
    request: &ValidatedOperationRequest,
    provider_id: &str,
) -> (g: PortableDiagnostic)
    requires
        d.conflict_id is Some,
        code@ == conflict_kind(d.kind).1,
        source_refs@.len() == region_refs(d.alternatives@).len(),
        forall|j: int|
            0 <= j < source_refs@.len() ==> source_ref_projected(
                #[trigger] source_refs@[j],
                region_refs(d.alternatives@)[j].0,
                region_refs(d.alternatives@)[j].1,
                *request,
            ),
    ensures
        diagnostic_projected(g, *d, *actual, sequence as int, *request, provider_id@),
{
    let subject_id = match &d.conflict_id {
        Some(c) => copy_string(c),
        None => owned(""),
    };
    let subjects = vec![DiagnosticSubjectRef { kind: owned("conflict"), id: subject_id, extra: Metadata::new() }];
    PortableDiagnostic {
        schema: owned(DIAGNOSTIC_SCHEMA),
        id: diagnostic_id(d),
        sequence,
        severity: DiagnosticSeverity::Error,
        category: PortableCategory::MergeConflict,
        code: owned(code),
        message: copy_string(&actual.message),
        blocking: true,
        operation: Some(OperationKind::Merge3),
        request_id: Some(copy_string(&request.request().request_id)),
        source_refs,
        subject_refs: Some(subjects),
        cause_ids: Vec::new(),
        related_ids: Vec::new(),
        origin: DiagnosticOrigin {
            layer: DiagnosticLayer::Provider,
            provider_id: Some(owned(provider_id)),
            backend_id: None,
            package: None,
            package_version: None,
            native_code: None,
            extra: Metadata::new(),
        },
        data: Metadata::new(),
        extensions: Vec::new(),
        metadata: Metadata::new(),
        extra: Metadata::new(),
    }
}

fn build_conflict(
    d: &OwnerDecision,
    actual: &RenderedConflict,
    category: ConflictCategory,
    code: &str,
    alternatives: Vec<ConflictSourceAlternative>,
    cls: &OwnerClassification,
    request: &ValidatedOperationRequest,
) -> (c: PortableConflict)
    requires
        d.conflict_id is Some,
        (category, code@) == conflict_kind(d.kind),
        alternatives@.len() == 3,
        forall|k: int|
            0 <= k < 3 ==> alternative_projected(#[trigger] alternatives@[k], d.alternatives@[k], three_roles()[k], *request),
    ensures
        conflict_projected(c, *d, *actual, *cls, *request),
{
    let id = match &d.conflict_id {
        Some(c) => copy_string(c),
        None => owned(""),
    };
    let extra = Metadata {
        entries: vec![
            MetadataEntry { key: owned("owner_decision"), value: copy_string(&d.record) },
            MetadataEntry { key: owned("source_comparisons"), value: comparisons_json(cls) },
        ],
    };
    let roles = OperationKind::Merge3.source_roles();
    PortableConflict {
        schema: owned(CONFLICT_SCHEMA),
        id,
        operation: OperationKind::Merge3,
        category,
        code: owned(code),
        message: Some(copy_string(&actual.message)),
        subject: ConflictSubject {
            structural_path: Some(copy_string(&d.path)),
            owner_ref: Some(copy_string(&d.owner_id)),
            node_ref: None,
            archive_entry: None,
            binary_region: None,
            whole_document: Some(false),
            extra: Metadata::new(),
        },
        roles,
        alternatives,
        classification: ConflictClassification {
            base_participated: Some(true),
            change_ids: Vec::new(),
            decision_ids: single_string(copy_string(&d.id)),
            extra,
        },
        localization: ConflictLocalization {
            status: LocalizationStatus::Owner,
            verified: true,
            output_regions: Vec::new(),
            extra: Metadata::new(),
        },
        resolution: ConflictResolution {
            status: ResolutionStatus::Unresolved,
            strategy: ResolutionStrategy::NoStrategy,
            selected_roles: Vec::new(),
            decision_id: None,
            resolver: None,
            reason: None,
            extra: Metadata::new(),
        },
        diagnostic_ids: single_string(diagnostic_id(d)),
        change_ids: Vec::new(),
        decision_ids: single_string(copy_string(&d.id)),
        render_fragment_ids: Vec::new(),
        extensions: Vec::new(),
        metadata: Metadata::new(),
        extra: Metadata::new(),
    }
}

fn bytes_equal(a: &SourceDocument, b: &SourceDocument) -> (r: bool)
    ensures
        r == (a.data() == b.data()),
{
    crate::text::bytes_eq(a.bytes(), b.bytes())
}

/// Project an executed three-way classification into portable conflicts and
/// their blocking diagnostics. `provider_id` must be the actual selected merge
/// provider, supplied by the executor; nothing here negotiates or invents a
/// provider identity.
#[verifier::loop_isolation(false)]
#[verifier::rlimit(40)]
pub fn project_native_merge_conflicts(
    execution: &NativeMergeExecution,
    request: &ValidatedOperationRequest,
    provider_id: &str,
) -> (r: Result<NativeConflictProjection, ConflictProjectionError>)
    ensures
        match projection_error(*execution, *request, provider_id@) {
            Some(e) => r == Err::<NativeConflictProjection, ConflictProjectionError>(e),
            None => r matches Ok(p) && projected(p, *execution, *request, provider_id@),
        },
{
    if request.request().operation.kind() != OperationKind::Merge3 || execution.outcome != MergeOutcome::Conflict {
        return Err(ConflictProjectionError::Operation);
    }
    let other_provider = match &request.request().provider_selection.provider_id {
        Some(p) => !str_eq(p.as_str(), provider_id),
        None => false,
    };
    if provider_id.is_empty() || other_provider {
        return Err(ConflictProjectionError::Provider);
    }
    let roles = OperationKind::Merge3.source_roles();
    if execution.sources.len() != 3 {
        return Err(ConflictProjectionError::Source);
    }
    let mut k: usize = 0;
    while k < 3
        invariant
            roles@ == three_roles(),
            execution.sources@.len() == 3,
            k <= 3,
            forall|q: int|
                0 <= q < k ==> (role_document(*request, #[trigger] three_roles()[q]) matches Some(d) && same_descriptor(
                    execution.sources@[q],
                    d.desc(),
                )),
        decreases 3 - k,
    {
        match role_doc(request, roles[k]) {
            Some(d) => {
                if !descriptors_equal(&execution.sources[k], d.descriptor()) {
                    return Err(ConflictProjectionError::Source);
                }
            },
            None => return Err(ConflictProjectionError::Source),
        }
        k = k + 1;
    }
    assert(sources_match(*execution, *request));
    let classification = match &execution.classification {
        Some(c) => c,
        None => return Err(ConflictProjectionError::Classification),
    };
    if classification.whole_source_selection {
        return Err(ConflictProjectionError::Classification);
    }
    assert(three_roles()[0] == SourceRole::Base && three_roles()[1] == SourceRole::Ours && three_roles()[2]
        == SourceRole::Theirs);
    let base = match role_doc(request, SourceRole::Base) {
        Some(d) => d,
        None => return Err(ConflictProjectionError::Source),
    };
    let ours = match role_doc(request, SourceRole::Ours) {
        Some(d) => d,
        None => return Err(ConflictProjectionError::Source),
    };
    let theirs = match role_doc(request, SourceRole::Theirs) {
        Some(d) => d,
        None => return Err(ConflictProjectionError::Source),
    };
    if classification.base_equals_ours != bytes_equal(base, ours) || classification.base_equals_theirs
        != bytes_equal(base, theirs) || classification.ours_equals_theirs != bytes_equal(ours, theirs) {
        return Err(ConflictProjectionError::Classification);
    }
    let decisions = &classification.decisions;
    let ghost ds = decisions@;
    let mut seen: Vec<String> = Vec::new();
    let mut conflicts: Vec<PortableConflict> = Vec::new();
    let mut diagnostics: Vec<PortableDiagnostic> = Vec::new();
    assert(ds.take(0) =~= Seq::<OwnerDecision>::empty());
    assert(decision_ids(ds.take(0)) =~= string_views(seen@));
    let mut i: usize = 0;
    while i < decisions.len()
        invariant
            ds == decisions@,
            i <= ds.len(),
            forall|j: int| 0 <= j < i ==> (#[trigger] decision_error(*execution, ds, j, *request)) is None,
            string_views(seen@) == decision_ids(ds.take(i as int)),
            conflicts@.len() == conflict_decisions(ds.take(i as int)).len(),
            diagnostics@.len() == conflict_decisions(ds.take(i as int)).len(),
            forall|q: int|
                0 <= q < conflicts@.len() ==> conflict_projected(
                    #[trigger] conflicts@[q],
                    conflict_decisions(ds.take(i as int))[q],
                    rendered_conflict(
                        execution.conflicts@,
                        conflict_decisions(ds.take(i as int))[q].conflict_id->0@,
                    )->0,
                    *classification,
                    *request,
                ),
            forall|q: int|
                0 <= q < diagnostics@.len() ==> diagnostic_projected(
                    #[trigger] diagnostics@[q],
                    conflict_decisions(ds.take(i as int))[q],
                    rendered_conflict(
                        execution.conflicts@,
                        conflict_decisions(ds.take(i as int))[q].conflict_id->0@,
                    )->0,
                    q,
                    *request,
                    provider_id@,
                ),
        decreases ds.len() - i,
    {
        let d = &decisions[i];
        proof {
            lemma_conflict_decisions_step(ds, i as int);
            assert(ds.take(i + 1).drop_last() =~= ds.take(i as int));
            assert(decision_ids(ds.take(i + 1)) =~= decision_ids(ds.take(i as int)).push(d.id@));
        }
        if d.id.as_str().is_empty() || string_listed(&seen, d.id.as_str()) {
            proof {
                lemma_decisions_prefix(*execution, ds, *request, i as int);
                if d.id@.len() > 0 {
                    let q = choose|q: int| 0 <= q < i && decision_ids(ds.take(i as int))[q] == d.id@;
                    assert(ds[q].id@ == d.id@);
                }
            }
            return Err(ConflictProjectionError::Classification);
        }
        assert forall|j: int| 0 <= j < i implies (#[trigger] ds[j]).id@ != d.id@ by {
            assert(decision_ids(ds.take(i as int))[j] == ds[j].id@);
        }
        seen.push(copy_string(&d.id));
        if d.kind == OwnerDecisionKind::Settled {
            if d.conflict_id.is_some() {
                proof {
                    lemma_decisions_prefix(*execution, ds, *request, i as int);
                }
                return Err(ConflictProjectionError::Classification);
            }
            i = i + 1;
        } else {
            let (category, code) = conflict_code(d.kind);
            let cid = match &d.conflict_id {
                Some(c) => c.as_str(),
                None => {
                    proof {
                        lemma_decisions_prefix(*execution, ds, *request, i as int);
                    }
                    return Err(ConflictProjectionError::Classification);
                },
            };
            if claimed_before(decisions, i, cid) {
                proof {
                    lemma_decisions_prefix(*execution, ds, *request, i as int);
                }
                return Err(ConflictProjectionError::Classification);
            }
            let actual = match find_rendered(&execution.conflicts, cid) {
                Some(a) => a,
                None => {
                    proof {
                        lemma_decisions_prefix(*execution, ds, *request, i as int);
                    }
                    return Err(ConflictProjectionError::Classification);
                },
            };
            if !alternatives_equal(&actual.alternatives, &d.alternatives) || !str_eq(actual.path.as_str(), d.path.as_str())
                || !revisions_canonical(&d.alternatives) {
                proof {
                    lemma_decisions_prefix(*execution, ds, *request, i as int);
                }
                return Err(ConflictProjectionError::Classification);
            }
            assert(revisions(d.alternatives@).len() == d.alternatives@.len());
            let (alternatives, refs) = match project_alternatives(d, request) {
                Ok(x) => x,
                Err(e) => {
                    proof {
                        lemma_decisions_prefix(*execution, ds, *request, i as int);
                    }
                    return Err(e);
                },
            };
            let sequence = diagnostics.len() as u64;
            diagnostics.push(build_diagnostic(d, actual, sequence, code, refs, request, provider_id));
            conflicts.push(build_conflict(d, actual, category, code, alternatives, classification, request));
            i = i + 1;
        }
    }
    proof {
        assert(ds.take(ds.len() as int) =~= ds);
        lemma_decisions_prefix(*execution, ds, *request, ds.len() as int);
    }
    if conflicts.len() == 0 || conflicts.len() != execution.conflicts.len() {
        return Err(ConflictProjectionError::Classification);
    }
    Ok(
        NativeConflictProjection {
            conflicts,
            diagnostics,
            evidence: ConflictEvidence { decisions: seen, render_fragments: Vec::new(), authorizations: Vec::new() },
        },
    )
}

proof fn lemma_conflict_decisions_are_conflicts(ds: Seq<OwnerDecision>)
    ensures
        forall|k: int|
            0 <= k < conflict_decisions(ds).len() ==> is_conflict_kind(#[trigger] conflict_decisions(ds)[k].kind),
    decreases ds.len(),
{
    if ds.len() > 0 {
        lemma_conflict_decisions_are_conflicts(ds.drop_last());
    }
}

/// A projected conflict's category and code follow the engine's decision
/// kind one to one: an edit/edit decision is a content conflict coded
/// `merge.edit_edit`, a delete/modify decision a delete/modify conflict
/// coded `merge.delete_edit`, an add/add decision an add/add conflict coded
/// `merge.add_add`, and the conflict's diagnostic carries the same code. So
/// two projected conflicts of different kinds never share a category or a
/// code.
pub proof fn law_conflict_kinds_project_one_to_one(
    p: NativeConflictProjection,
    exec: NativeMergeExecution,
    req: ValidatedOperationRequest,
    provider_id: Seq<char>,
    k: int,
    j: int,
)
    requires
        projected(p, exec, req, provider_id),
        0 <= k < p.conflicts@.len(),
        0 <= j < p.conflicts@.len(),
    ensures
        conflict_decisions(exec.classification->0.decisions@)[k].kind == OwnerDecisionKind::ConflictEditEdit ==> (
        p.conflicts@[k].category == ConflictCategory::Content && p.conflicts@[k].code@ == "merge.edit_edit"@
            && p.diagnostics@[k].code@ == "merge.edit_edit"@),
        conflict_decisions(exec.classification->0.decisions@)[k].kind == OwnerDecisionKind::ConflictDeleteModify ==> (
        p.conflicts@[k].category == ConflictCategory::DeleteModify && p.conflicts@[k].code@ == "merge.delete_edit"@
            && p.diagnostics@[k].code@ == "merge.delete_edit"@),
        conflict_decisions(exec.classification->0.decisions@)[k].kind == OwnerDecisionKind::ConflictAddAdd ==> (
        p.conflicts@[k].category == ConflictCategory::AddAdd && p.conflicts@[k].code@ == "merge.add_add"@
            && p.diagnostics@[k].code@ == "merge.add_add"@),
        conflict_decisions(exec.classification->0.decisions@)[k].kind != conflict_decisions(
            exec.classification->0.decisions@,
        )[j].kind ==> p.conflicts@[k].category != p.conflicts@[j].category && p.conflicts@[k].code@
            != p.conflicts@[j].code@,
{
    reveal_strlit("merge.edit_edit");
    reveal_strlit("merge.delete_edit");
    reveal_strlit("merge.add_add");
    let cds = conflict_decisions(exec.classification->0.decisions@);
    lemma_conflict_decisions_are_conflicts(exec.classification->0.decisions@);
    assert(is_conflict_kind(cds[k].kind));
    assert(is_conflict_kind(cds[j].kind));
    let rk = rendered_conflict(exec.conflicts@, cds[k].conflict_id->0@)->0;
    let rj = rendered_conflict(exec.conflicts@, cds[j].conflict_id->0@)->0;
    assert(conflict_projected(p.conflicts@[k], cds[k], rk, exec.classification->0, req));
    assert(conflict_projected(p.conflicts@[j], cds[j], rj, exec.classification->0, req));
    assert(diagnostic_projected(p.diagnostics@[k], cds[k], rk, k, req, provider_id));
    assert("merge.edit_edit"@[6] != "merge.delete_edit"@[6]);
    assert("merge.edit_edit"@[6] != "merge.add_add"@[6]);
    assert("merge.delete_edit"@[6] != "merge.add_add"@[6]);
}

} // verus!
