//! Canonical conflict evidence. No marker scanning and no implicit resolution:
//! every claim a conflict makes is checked against the evidence the trusted
//! executor supplies.
use crate::metadata::{Metadata, NativeExtension};
use crate::operation_result::{
    byte_range, is_none_or_empty, none_or_empty, opt_is, opt_view, role_in, roles_distinct,
    roles_distinct_exec, roles_equal, string_views, ResultConflict, ResultRange,
};
use crate::portable_diagnostic::{distinct, portable_code, portable_code_bytes};
use crate::source::{digest_hex, valid_range, SourceDocument, SourceMap, SourceRole};
use crate::text::{str_eq, utf8_of};
use crate::{kind_roles, OperationKind};
use vstd::prelude::*;

verus! {

pub const CONFLICT_SCHEMA: &'static str = "structuredmerge.conflict/v1";

#[derive(Clone, Copy, Debug, PartialEq, Eq, Structural)]
pub enum ConflictCategory {
    Content,
    DeleteModify,
    AddAdd,
    Move,
    Rename,
    Order,
    Identity,
    Ownership,
    Syntax,
    BinaryOverlap,
    ArchiveEntry,
    ProviderSpecific,
}

#[derive(Clone, Copy, Debug, PartialEq, Eq, Structural)]
pub enum AlternativeState {
    Present,
    Absent,
    Invalid,
    Opaque,
}

#[derive(Clone, Copy, Debug, PartialEq, Eq, Structural)]
pub enum LocalizationStatus {
    Exact,
    Owner,
    Coarse,
    WholeDocument,
    Unavailable,
}

#[derive(Clone, Copy, Debug, PartialEq, Eq, Structural)]
pub enum ResolutionStatus {
    Unresolved,
    Resolved,
}

#[derive(Clone, Copy, Debug, PartialEq, Eq, Structural)]
pub enum ResolutionStrategy {
    /// The `none` strategy of the wire format.
    NoStrategy,
    SelectRole,
    Combine,
    Policy,
    Custom,
}

/// What a conflict is about. `extra` holds unknown fields as JSON text.
#[derive(Clone, Debug, PartialEq, Eq)]
pub struct ConflictSubject {
    pub structural_path: Option<String>,
    pub owner_ref: Option<String>,
    pub node_ref: Option<String>,
    pub archive_entry: Option<String>,
    pub binary_region: Option<ResultRange>,
    pub whole_document: Option<bool>,
    pub extra: Metadata,
}

/// An exact region: its range, its length and the SHA-256 of its bytes.
#[derive(Clone, Debug, PartialEq, Eq)]
pub struct ExactConflictRegion {
    pub range: ResultRange,
    pub byte_length: u64,
    pub sha256: String,
    pub extra: Metadata,
}

#[derive(Clone, Debug, PartialEq, Eq)]
pub struct ConflictSourceAlternative {
    pub role: SourceRole,
    pub state: AlternativeState,
    pub source_id: Option<String>,
    pub regions: Vec<ExactConflictRegion>,
    pub change_ids: Vec<String>,
    pub extra: Metadata,
}

#[derive(Clone, Debug, PartialEq, Eq)]
pub struct ConflictClassification {
    pub base_participated: Option<bool>,
    pub change_ids: Vec<String>,
    pub decision_ids: Vec<String>,
    pub extra: Metadata,
}

#[derive(Clone, Debug, PartialEq, Eq)]
pub struct ConflictLocalization {
    pub status: LocalizationStatus,
    pub verified: bool,
    pub output_regions: Vec<ExactConflictRegion>,
    pub extra: Metadata,
}

#[derive(Clone, Debug, PartialEq, Eq)]
pub struct ConflictResolution {
    pub status: ResolutionStatus,
    pub strategy: ResolutionStrategy,
    pub selected_roles: Vec<SourceRole>,
    pub decision_id: Option<String>,
    pub resolver: Option<String>,
    pub reason: Option<String>,
    pub extra: Metadata,
}

#[derive(Clone, Debug, PartialEq, Eq)]
pub struct PortableConflict {
    pub schema: String,
    pub id: String,
    pub operation: OperationKind,
    pub category: ConflictCategory,
    pub code: String,
    pub message: Option<String>,
    pub subject: ConflictSubject,
    pub roles: Vec<SourceRole>,
    pub alternatives: Vec<ConflictSourceAlternative>,
    pub classification: ConflictClassification,
    pub localization: ConflictLocalization,
    pub resolution: ConflictResolution,
    pub diagnostic_ids: Vec<String>,
    pub change_ids: Vec<String>,
    pub decision_ids: Vec<String>,
    pub render_fragment_ids: Vec<String>,
    pub extensions: Vec<NativeExtension>,
    pub metadata: Metadata,
    pub extra: Metadata,
}

/// A conflict in either the canonical or the historical migration shape.
/// A record that carries a schema is always the canonical shape.
#[derive(Clone, Debug, PartialEq, Eq)]
pub enum ConflictRecord {
    Canonical(Box<PortableConflict>),
    Migration(Box<ResultConflict>),
}

impl ConflictRecord {
    pub fn id(&self) -> (r: &str)
        ensures
            r@ == match self {
                ConflictRecord::Canonical(c) => c.id@,
                ConflictRecord::Migration(c) => c.id@,
            },
    {
        match self {
            ConflictRecord::Canonical(c) => c.id.as_str(),
            ConflictRecord::Migration(c) => c.id.as_str(),
        }
    }

    pub fn unresolved(&self) -> (r: bool)
        ensures
            r == match self {
                ConflictRecord::Canonical(c) => c.resolution.status == ResolutionStatus::Unresolved,
                ConflictRecord::Migration(c) => c.resolution@ == "unresolved"@,
            },
    {
        match self {
            ConflictRecord::Canonical(c) => c.resolution.status == ResolutionStatus::Unresolved,
            ConflictRecord::Migration(c) => str_eq(c.resolution.as_str(), "unresolved"),
        }
    }

    pub fn matches_path(&self, path: &str) -> (r: bool)
        ensures
            r == match self {
                ConflictRecord::Canonical(c) => opt_view(c.subject.structural_path) == Some(path@),
                ConflictRecord::Migration(c) => opt_view(c.path) == Some(path@) || opt_view(c.subject_ref)
                    == Some(path@),
            },
    {
        match self {
            ConflictRecord::Canonical(c) => opt_is(&c.subject.structural_path, path),
            ConflictRecord::Migration(c) => opt_is(&c.path, path) || opt_is(&c.subject_ref, path),
        }
    }
}

/// Evidence supplied by the trusted operation executor, not reconstructed from
/// a conflict's own declarations. Authorization is scoped to one conflict.
#[derive(Clone, Debug, PartialEq, Eq)]
pub struct ResolutionAuthorization {
    pub decision_id: String,
    pub conflict_id: String,
    pub strategy: ResolutionStrategy,
    pub selected_roles: Vec<SourceRole>,
    pub resolver: String,
}

/// Identities of the decisions and render fragments the executor knows of,
/// and the resolutions it authorized. Each list is read as a set.
#[derive(Clone, Debug, PartialEq, Eq)]
pub struct ConflictEvidence {
    pub decisions: Vec<String>,
    pub render_fragments: Vec<String>,
    pub authorizations: Vec<ResolutionAuthorization>,
}

impl ConflictEvidence {
    /// No evidence.
    pub fn new() -> (e: ConflictEvidence)
        ensures
            e.decisions@.len() == 0,
            e.render_fragments@.len() == 0,
            e.authorizations@.len() == 0,
    {
        ConflictEvidence { decisions: Vec::new(), render_fragments: Vec::new(), authorizations: Vec::new() }
    }
}

/// What a conflict scope is checked against. The identity lists are read as
/// sets.
pub struct ConflictValidationContext<'a> {
    pub operation: OperationKind,
    pub result_ok: bool,
    pub sources: &'a SourceMap,
    pub output: Option<&'a SourceDocument>,
    pub diagnostic_ids: &'a Vec<String>,
    pub change_ids: &'a Vec<String>,
    pub evidence: &'a ConflictEvidence,
}

#[derive(Clone, Copy, Debug, PartialEq, Eq, Structural)]
pub enum ConflictContractError {
    Schema,
    Identity,
    Operation,
    Code,
    Subject,
    Roles,
    BaseParticipation,
    Source,
    ExactLocalization,
    ResolutionAuthorization,
    Reference,
    Outcome,
}

// ---------------------------------------------------------------------------
// What a conflict scope must satisfy, in check order.

/// Every reference is nonempty, distinct from the others and available.
pub open spec fn refs_ok(ids: Seq<Seq<char>>, available: Seq<Seq<char>>) -> bool {
    &&& forall|k: int| 0 <= k < ids.len() ==> (#[trigger] ids[k]).len() > 0 && available.contains(ids[k])
    &&& distinct(ids)
}

/// The region lies in the document, has the stated length, and its bytes
/// have the stated digest.
pub open spec fn region_fits(r: ExactConflictRegion, d: SourceDocument) -> bool {
    &&& valid_range(byte_range(r.range), d.data().len())
    &&& r.range.end_byte - r.range.start_byte == r.byte_length
    &&& digest_hex(d.data().subrange(r.range.start_byte as int, r.range.end_byte as int)) == utf8_of(
        r.sha256@,
    )
}

/// The subject names nothing: not the whole document, no binary region, and
/// every textual reference absent or empty.
pub open spec fn subject_missing(s: ConflictSubject) -> bool {
    &&& s.whole_document != Some(true)
    &&& s.binary_region is None
    &&& none_or_empty(s.structural_path)
    &&& none_or_empty(s.owner_ref)
    &&& none_or_empty(s.node_ref)
    &&& none_or_empty(s.archive_entry)
}

pub open spec fn alternative_roles(alts: Seq<ConflictSourceAlternative>) -> Seq<SourceRole> {
    alts.map_values(|a: ConflictSourceAlternative| a.role)
}

pub open spec fn alternative_error(
    a: ConflictSourceAlternative,
    exact: bool,
    ctx: ConflictValidationContext,
) -> Option<ConflictContractError> {
    if !refs_ok(string_views(a.change_ids@), string_views(ctx.change_ids@)) {
        Some(ConflictContractError::Reference)
    } else if (a.state == AlternativeState::Absent && a.regions@.len() > 0) || (a.state
        == AlternativeState::Present && a.source_id is None) {
        Some(ConflictContractError::Source)
    } else if exact && a.state == AlternativeState::Present && a.regions@.len() == 0 {
        Some(ConflictContractError::ExactLocalization)
    } else {
        match a.source_id {
            Some(id) => match ctx.sources.lookup(id@) {
                Some(d) => if d.desc().role != a.role || exists|k: int|
                    0 <= k < a.regions@.len() && !region_fits(#[trigger] a.regions@[k], d) {
                    Some(ConflictContractError::Source)
                } else {
                    None
                },
                None => Some(ConflictContractError::Source),
            },
            None => if a.regions@.len() > 0 {
                Some(ConflictContractError::Source)
            } else {
                None
            },
        }
    }
}

pub open spec fn alternatives_error_from(
    alts: Seq<ConflictSourceAlternative>,
    exact: bool,
    ctx: ConflictValidationContext,
    i: int,
) -> Option<ConflictContractError>
    decreases alts.len() - i,
{
    if i < 0 || i >= alts.len() {
        None
    } else {
        match alternative_error(alts[i], exact, ctx) {
            Some(e) => Some(e),
            None => alternatives_error_from(alts, exact, ctx, i + 1),
        }
    }
}

/// The authorization is for exactly this conflict's resolution.
pub open spec fn authorizes(au: ResolutionAuthorization, c: PortableConflict) -> bool {
    &&& Some(au.decision_id@) == opt_view(c.resolution.decision_id)
    &&& au.conflict_id@ == c.id@
    &&& au.strategy == c.resolution.strategy
    &&& au.selected_roles@ == c.resolution.selected_roles@
    &&& Some(au.resolver@) == opt_view(c.resolution.resolver)
}

/// An unresolved conflict claims no resolution; a resolved one names a known
/// decision, a resolver and a reason, selects distinct roles of its own, one
/// role for a role selection, and is authorized by the executor.
pub open spec fn resolution_ok(c: PortableConflict, ctx: ConflictValidationContext) -> bool {
    let r = c.resolution;
    match r.status {
        ResolutionStatus::Unresolved => {
            &&& r.strategy == ResolutionStrategy::NoStrategy
            &&& r.selected_roles@.len() == 0
            &&& r.decision_id is None
            &&& r.resolver is None
            &&& r.reason is None
        },
        ResolutionStatus::Resolved => {
            &&& r.strategy != ResolutionStrategy::NoStrategy
            &&& !none_or_empty(r.reason)
            &&& !none_or_empty(r.resolver)
            &&& (r.decision_id matches Some(id) && string_views(ctx.evidence.decisions@).contains(id@))
            &&& roles_distinct(r.selected_roles@)
            &&& forall|k: int| 0 <= k < r.selected_roles@.len() ==> c.roles@.contains(#[trigger] r.selected_roles@[k])
            &&& (r.strategy == ResolutionStrategy::SelectRole ==> r.selected_roles@.len() == 1)
            &&& exists|k: int| 0 <= k < ctx.evidence.authorizations@.len() && authorizes(
                #[trigger] ctx.evidence.authorizations@[k],
                c,
            )
        },
    }
}

pub open spec fn is_merge_kind(k: OperationKind) -> bool {
    k == OperationKind::Merge2 || k == OperationKind::Merge3
}

/// The region lies exactly in the merge output.
pub open spec fn output_region_ok(ctx: ConflictValidationContext, r: ExactConflictRegion) -> bool {
    match ctx.output {
        Some(out) => region_fits(r, *out),
        None => false,
    }
}

/// Every identity list the conflict refers through resolves.
pub open spec fn conflict_refs_ok(c: PortableConflict, ctx: ConflictValidationContext) -> bool {
    let changes = string_views(ctx.change_ids@);
    let decisions = string_views(ctx.evidence.decisions@);
    &&& refs_ok(string_views(c.diagnostic_ids@), string_views(ctx.diagnostic_ids@))
    &&& refs_ok(string_views(c.change_ids@), changes)
    &&& refs_ok(string_views(c.classification.change_ids@), changes)
    &&& refs_ok(string_views(c.decision_ids@), decisions)
    &&& refs_ok(string_views(c.classification.decision_ids@), decisions)
    &&& refs_ok(string_views(c.render_fragment_ids@), string_views(ctx.evidence.render_fragments@))
}

/// The first violation of conflict `i` of the scope.
pub open spec fn conflict_error(
    cs: Seq<&PortableConflict>,
    i: int,
    ctx: ConflictValidationContext,
) -> Option<ConflictContractError> {
    let c = *cs[i];
    let exact = c.localization.status == LocalizationStatus::Exact;
    if c.schema@ != CONFLICT_SCHEMA@ {
        Some(ConflictContractError::Schema)
    } else if c.id@.len() == 0 || exists|k: int| 0 <= k < i && (#[trigger] cs[k]).id@ == c.id@ {
        Some(ConflictContractError::Identity)
    } else if c.operation != ctx.operation || !is_merge_kind(ctx.operation) {
        Some(ConflictContractError::Operation)
    } else if !portable_code_bytes(utf8_of(c.code@)) {
        Some(ConflictContractError::Code)
    } else if subject_missing(c.subject) {
        Some(ConflictContractError::Subject)
    } else if c.roles@ != kind_roles(ctx.operation) || alternative_roles(c.alternatives@) != c.roles@ {
        Some(ConflictContractError::Roles)
    } else if ctx.operation == OperationKind::Merge3 && c.classification.base_participated != Some(true) {
        Some(ConflictContractError::BaseParticipation)
    } else if ctx.result_ok && c.resolution.status == ResolutionStatus::Unresolved {
        Some(ConflictContractError::Outcome)
    } else if !conflict_refs_ok(c, ctx) {
        Some(ConflictContractError::Reference)
    } else if exact && !c.localization.verified {
        Some(ConflictContractError::ExactLocalization)
    } else if alternatives_error_from(c.alternatives@, exact, ctx, 0) is Some {
        alternatives_error_from(c.alternatives@, exact, ctx, 0)
    } else if exists|k: int| 0 <= k < c.localization.output_regions@.len() && !output_region_ok(
        ctx,
        #[trigger] c.localization.output_regions@[k],
    ) {
        Some(ConflictContractError::Source)
    } else if !resolution_ok(c, ctx) {
        Some(ConflictContractError::ResolutionAuthorization)
    } else {
        None
    }
}

/// The first violation among the conflicts from `i` on, in scope order.
pub open spec fn conflicts_error_from(
    cs: Seq<&PortableConflict>,
    ctx: ConflictValidationContext,
    i: int,
) -> Option<ConflictContractError>
    decreases cs.len() - i,
{
    if i < 0 || i >= cs.len() {
        None
    } else {
        match conflict_error(cs, i, ctx) {
            Some(e) => Some(e),
            None => conflicts_error_from(cs, ctx, i + 1),
        }
    }
}

// ---------------------------------------------------------------------------
// Executable checks

fn string_in(v: &Vec<String>, s: &str) -> (r: bool)
    ensures
        r == string_views(v@).contains(s@),
{
    let mut k: usize = 0;
    while k < v.len()
        invariant
            k <= v@.len(),
            forall|j: int| 0 <= j < k ==> string_views(v@)[j] != s@,
        decreases v@.len() - k,
    {
        if str_eq(v[k].as_str(), s) {
            assert(string_views(v@)[k as int] == s@);
            return true;
        }
        k = k + 1;
    }
    false
}

/// Whether every reference is nonempty, distinct from the others and
/// available.
fn references(ids: &Vec<String>, available: &Vec<String>) -> (r: bool)
    ensures
        r == refs_ok(string_views(ids@), string_views(available@)),
{
    let ghost v = string_views(ids@);
    let mut k: usize = 0;
    while k < ids.len()
        invariant
            v == string_views(ids@),
            k <= ids@.len(),
            forall|j: int| 0 <= j < k ==> (#[trigger] v[j]).len() > 0 && string_views(available@).contains(v[j]),
            forall|a: int, b: int| 0 <= a < b < k ==> #[trigger] v[a] != #[trigger] v[b],
        decreases ids@.len() - k,
    {
        let id = ids[k].as_str();
        assert(v[k as int] == id@);
        if id.is_empty() || !string_in(available, id) {
            return false;
        }
        let mut j: usize = 0;
        while j < k
            invariant
                v == string_views(ids@),
                k < ids@.len(),
                v[k as int] == id@,
                j <= k,
                forall|a: int| 0 <= a < j ==> v[a] != v[k as int],
            decreases k - j,
        {
            assert(v[j as int] == ids@[j as int]@);
            if str_eq(ids[j].as_str(), id) {
                assert(v[j as int] == v[k as int]);
                return false;
            }
            j = j + 1;
        }
        k = k + 1;
    }
    true
}

/// Whether the region lies in the document with its stated length and digest.
fn region_matches(region: &ExactConflictRegion, source: &SourceDocument) -> (r: bool)
    ensures
        r == region_fits(*region, *source),
{
    let range = region.range.bytes();
    match source.slice(range) {
        Ok(bytes) => {
            if bytes.len() as u64 != region.byte_length {
                return false;
            }
        },
        Err(_) => return false,
    }
    match source.range_digest(range) {
        Ok(digest) => {
            proof {
                broadcast use vstd::utf8::encode_utf8_decode_utf8;
                if utf8_of(region.sha256@) == utf8_of(digest@) {
                    assert(vstd::utf8::decode_utf8(utf8_of(region.sha256@)) == region.sha256@);
                    assert(vstd::utf8::decode_utf8(utf8_of(digest@)) == digest@);
                }
            }
            digest == region.sha256
        },
        Err(_) => false,
    }
}

#[verifier::loop_isolation(false)]
fn alternative_check(
    a: &ConflictSourceAlternative,
    exact: bool,
    context: &ConflictValidationContext,
) -> (r: Option<ConflictContractError>)
    ensures
        r == alternative_error(*a, exact, *context),
{
    if !references(&a.change_ids, context.change_ids) {
        return Some(ConflictContractError::Reference);
    }
    if (a.state == AlternativeState::Absent && a.regions.len() > 0) || (a.state == AlternativeState::Present
        && a.source_id.is_none()) {
        return Some(ConflictContractError::Source);
    }
    if exact && a.state == AlternativeState::Present && a.regions.len() == 0 {
        return Some(ConflictContractError::ExactLocalization);
    }
    match &a.source_id {
        Some(id) => {
            let source = match context.sources.get(id.as_str()) {
                Ok(d) => d,
                Err(_) => return Some(ConflictContractError::Source),
            };
            if source.descriptor().role != a.role {
                return Some(ConflictContractError::Source);
            }
            let mut k: usize = 0;
            while k < a.regions.len()
                invariant
                    k <= a.regions@.len(),
                    forall|j: int| 0 <= j < k ==> region_fits(#[trigger] a.regions@[j], *source),
                decreases a.regions@.len() - k,
            {
                if !region_matches(&a.regions[k], source) {
                    assert(!region_fits(a.regions@[k as int], *source));
                    return Some(ConflictContractError::Source);
                }
                k = k + 1;
            }
            None
        },
        None => {
            if a.regions.len() > 0 {
                Some(ConflictContractError::Source)
            } else {
                None
            }
        },
    }
}

fn authorization_matches(au: &ResolutionAuthorization, c: &PortableConflict) -> (r: bool)
    ensures
        r == authorizes(*au, *c),
{
    opt_is(&c.resolution.decision_id, au.decision_id.as_str()) && str_eq(
        au.conflict_id.as_str(),
        c.id.as_str(),
    ) && au.strategy == c.resolution.strategy && roles_equal(&au.selected_roles, &c.resolution.selected_roles)
        && opt_is(&c.resolution.resolver, au.resolver.as_str())
}

#[verifier::loop_isolation(false)]
fn resolution_check(c: &PortableConflict, context: &ConflictValidationContext) -> (r: bool)
    ensures
        r == resolution_ok(*c, *context),
{
    let res = &c.resolution;
    match res.status {
        ResolutionStatus::Unresolved => {
            res.strategy == ResolutionStrategy::NoStrategy && res.selected_roles.len() == 0
                && res.decision_id.is_none() && res.resolver.is_none() && res.reason.is_none()
        },
        ResolutionStatus::Resolved => {
            if res.strategy == ResolutionStrategy::NoStrategy || is_none_or_empty(&res.reason)
                || is_none_or_empty(&res.resolver) {
                return false;
            }
            let known = match &res.decision_id {
                Some(id) => string_in(&context.evidence.decisions, id.as_str()),
                None => false,
            };
            if !known || !roles_distinct_exec(&res.selected_roles) {
                return false;
            }
            let mut k: usize = 0;
            while k < res.selected_roles.len()
                invariant
                    k <= res.selected_roles@.len(),
                    forall|j: int| 0 <= j < k ==> c.roles@.contains(#[trigger] res.selected_roles@[j]),
                decreases res.selected_roles@.len() - k,
            {
                if !role_in(&c.roles, res.selected_roles[k]) {
                    return false;
                }
                k = k + 1;
            }
            if res.strategy == ResolutionStrategy::SelectRole && res.selected_roles.len() != 1 {
                return false;
            }
            let auths = &context.evidence.authorizations;
            let mut k: usize = 0;
            while k < auths.len()
                invariant
                    k <= auths@.len(),
                    forall|j: int| 0 <= j < k ==> !authorizes(#[trigger] auths@[j], *c),
                decreases auths@.len() - k,
            {
                if authorization_matches(&auths[k], c) {
                    return true;
                }
                k = k + 1;
            }
            false
        },
    }
}

fn subject_is_missing(s: &ConflictSubject) -> (r: bool)
    ensures
        r == subject_missing(*s),
{
    let whole = match s.whole_document {
        Some(w) => w,
        None => false,
    };
    !whole && s.binary_region.is_none() && is_none_or_empty(&s.structural_path) && is_none_or_empty(
        &s.owner_ref,
    ) && is_none_or_empty(&s.node_ref) && is_none_or_empty(&s.archive_entry)
}

fn alternative_roles_match(alts: &Vec<ConflictSourceAlternative>, roles: &Vec<SourceRole>) -> (r: bool)
    ensures
        r == (alternative_roles(alts@) == roles@),
{
    if alts.len() != roles.len() {
        return false;
    }
    let mut k: usize = 0;
    while k < alts.len()
        invariant
            alts@.len() == roles@.len(),
            k <= alts@.len(),
            forall|j: int| 0 <= j < k ==> alternative_roles(alts@)[j] == roles@[j],
        decreases alts@.len() - k,
    {
        if alts[k].role != roles[k] {
            assert(alternative_roles(alts@)[k as int] != roles@[k as int]);
            return false;
        }
        k = k + 1;
    }
    assert(alternative_roles(alts@) =~= roles@);
    true
}

fn conflict_refs_check(c: &PortableConflict, context: &ConflictValidationContext) -> (r: bool)
    ensures
        r == conflict_refs_ok(*c, *context),
{
    let decisions = &context.evidence.decisions;
    references(&c.diagnostic_ids, context.diagnostic_ids) && references(&c.change_ids, context.change_ids)
        && references(&c.classification.change_ids, context.change_ids) && references(
        &c.decision_ids,
        decisions,
    ) && references(&c.classification.decision_ids, decisions) && references(
        &c.render_fragment_ids,
        &context.evidence.render_fragments,
    )
}

#[verifier::loop_isolation(false)]
fn conflict_check(conflicts: &[&PortableConflict], i: usize, context: &ConflictValidationContext) -> (r:
    Option<ConflictContractError>)
    requires
        i < conflicts@.len(),
    ensures
        r == conflict_error(conflicts@, i as int, *context),
{
    let c = conflicts[i];
    if !str_eq(c.schema.as_str(), CONFLICT_SCHEMA) {
        return Some(ConflictContractError::Schema);
    }
    if c.id.as_str().is_empty() {
        return Some(ConflictContractError::Identity);
    }
    let mut k: usize = 0;
    while k < i
        invariant
            k <= i,
            forall|j: int| 0 <= j < k ==> (#[trigger] conflicts@[j]).id@ != c.id@,
        decreases i - k,
    {
        if str_eq(conflicts[k].id.as_str(), c.id.as_str()) {
            return Some(ConflictContractError::Identity);
        }
        k = k + 1;
    }
    let merge = match context.operation {
        OperationKind::Merge2 | OperationKind::Merge3 => true,
        _ => false,
    };
    if c.operation != context.operation || !merge {
        return Some(ConflictContractError::Operation);
    }
    if !portable_code(c.code.as_str()) {
        return Some(ConflictContractError::Code);
    }
    if subject_is_missing(&c.subject) {
        return Some(ConflictContractError::Subject);
    }
    let expected = context.operation.source_roles();
    if !roles_equal(&c.roles, &expected) || !alternative_roles_match(&c.alternatives, &c.roles) {
        return Some(ConflictContractError::Roles);
    }
    let base = match c.classification.base_participated {
        Some(b) => b,
        None => false,
    };
    if context.operation == OperationKind::Merge3 && !base {
        return Some(ConflictContractError::BaseParticipation);
    }
    if context.result_ok && c.resolution.status == ResolutionStatus::Unresolved {
        return Some(ConflictContractError::Outcome);
    }
    if !conflict_refs_check(c, context) {
        return Some(ConflictContractError::Reference);
    }
    let exact = c.localization.status == LocalizationStatus::Exact;
    if exact && !c.localization.verified {
        return Some(ConflictContractError::ExactLocalization);
    }
    let mut k: usize = 0;
    while k < c.alternatives.len()
        invariant
            k <= c.alternatives@.len(),
            alternatives_error_from(c.alternatives@, exact, *context, 0) == alternatives_error_from(
                c.alternatives@,
                exact,
                *context,
                k as int,
            ),
        decreases c.alternatives@.len() - k,
    {
        match alternative_check(&c.alternatives[k], exact, context) {
            Some(e) => return Some(e),
            None => {},
        }
        k = k + 1;
    }
    let regions = &c.localization.output_regions;
    let mut k: usize = 0;
    while k < regions.len()
        invariant
            k <= regions@.len(),
            forall|j: int| 0 <= j < k ==> output_region_ok(*context, #[trigger] regions@[j]),
        decreases regions@.len() - k,
    {
        let fits = match context.output {
            Some(out) => region_matches(&regions[k], out),
            None => false,
        };
        if !fits {
            assert(!output_region_ok(*context, regions@[k as int]));
            return Some(ConflictContractError::Source);
        }
        k = k + 1;
    }
    if !resolution_check(c, context) {
        return Some(ConflictContractError::ResolutionAuthorization);
    }
    None
}

proof fn lemma_conflicts_prefix(cs: Seq<&PortableConflict>, ctx: ConflictValidationContext, i: int)
    requires
        0 <= i <= cs.len(),
        forall|k: int| 0 <= k < i ==> (#[trigger] conflict_error(cs, k, ctx)) is None,
    ensures
        conflicts_error_from(cs, ctx, 0) == conflicts_error_from(cs, ctx, i),
    decreases i,
{
    if i > 0 {
        lemma_conflicts_prefix(cs, ctx, i - 1);
        assert(conflict_error(cs, i - 1, ctx) is None);
    }
}

/// Validate a scope of canonical conflicts against the executor's evidence:
/// the first violation, in scope order, is the error.
pub fn validate_conflicts(conflicts: &[&PortableConflict], context: &ConflictValidationContext) -> (r:
    Result<(), ConflictContractError>)
    ensures
        match conflicts_error_from(conflicts@, *context, 0) {
            Some(e) => r == Err::<(), ConflictContractError>(e),
            None => r is Ok,
        },
{
    let mut i: usize = 0;
    while i < conflicts.len()
        invariant
            i <= conflicts@.len(),
            forall|k: int| 0 <= k < i ==> (#[trigger] conflict_error(conflicts@, k, *context)) is None,
        decreases conflicts@.len() - i,
    {
        match conflict_check(conflicts, i, context) {
            Some(e) => {
                proof {
                    lemma_conflicts_prefix(conflicts@, *context, i as int);
                }
                return Err(e);
            },
            None => {},
        }
        i = i + 1;
    }
    proof {
        lemma_conflicts_prefix(conflicts@, *context, i as int);
    }
    Ok(())
}

// ---------------------------------------------------------------------------
// What an accepted scope guarantees

proof fn lemma_conflicts_accepted(cs: Seq<&PortableConflict>, ctx: ConflictValidationContext, from: int, i: int)
    requires
        0 <= from <= i < cs.len(),
        conflicts_error_from(cs, ctx, from) is None,
    ensures
        conflict_error(cs, i, ctx) is None,
    decreases i - from,
{
    if from < i {
        lemma_conflicts_accepted(cs, ctx, from + 1, i);
    }
}

/// In an accepted conflict scope every conflict belongs to the merge being
/// checked and carries its exact roles, identities are distinct, and every
/// resolved conflict (every conflict, when the result claims success) is
/// authorized by the executor for exactly that resolution.
pub proof fn law_accepted_conflicts(cs: Seq<&PortableConflict>, ctx: ConflictValidationContext)
    requires
        conflicts_error_from(cs, ctx, 0) is None,
    ensures
        cs.len() > 0 ==> is_merge_kind(ctx.operation),
        forall|i: int| 0 <= i < cs.len() ==> (#[trigger] cs[i]).operation == ctx.operation
            && cs[i].roles@ == kind_roles(ctx.operation),
        forall|i: int, j: int| 0 <= i < j < cs.len() ==> (#[trigger] cs[i]).id@ != (#[trigger] cs[j]).id@,
        forall|i: int|
            0 <= i < cs.len() && (#[trigger] cs[i]).resolution.status == ResolutionStatus::Resolved ==> exists|k: int|
                0 <= k < ctx.evidence.authorizations@.len() && authorizes(
                    #[trigger] ctx.evidence.authorizations@[k],
                    *cs[i],
                ),
        ctx.result_ok ==> forall|i: int|
            0 <= i < cs.len() ==> (#[trigger] cs[i]).resolution.status == ResolutionStatus::Resolved,
{
    assert forall|i: int| 0 <= i < cs.len() implies conflict_error(cs, i, ctx) is None by {
        lemma_conflicts_accepted(cs, ctx, 0, i);
    }
    if cs.len() > 0 {
        assert(conflict_error(cs, 0, ctx) is None);
    }
    assert forall|i: int| 0 <= i < cs.len() implies (#[trigger] cs[i]).operation == ctx.operation
        && cs[i].roles@ == kind_roles(ctx.operation) by {
        assert(conflict_error(cs, i, ctx) is None);
    }
    assert forall|i: int| ctx.result_ok && 0 <= i < cs.len() implies (#[trigger] cs[i]).resolution.status
        == ResolutionStatus::Resolved by {
        assert(conflict_error(cs, i, ctx) is None);
    }
    assert forall|i: int, j: int| 0 <= i < j < cs.len() implies (#[trigger] cs[i]).id@ != (
    #[trigger] cs[j]).id@ by {
        assert(conflict_error(cs, j, ctx) is None);
    }
    assert forall|i: int|
        0 <= i < cs.len() && (#[trigger] cs[i]).resolution.status
            == ResolutionStatus::Resolved implies exists|k: int|
        0 <= k < ctx.evidence.authorizations@.len() && authorizes(
            #[trigger] ctx.evidence.authorizations@[k],
            *cs[i],
        ) by {
        assert(conflict_error(cs, i, ctx) is None);
        assert(resolution_ok(*cs[i], ctx));
    }
}

} // verus!
