//! The analysis policies native owner analysis serves. Parsers supply syntax
//! only; ownership is the kernel's own analysis.
use crate::host::CoreParseResult;
use crate::json_analysis::{depth_ok, depth_supported};
use crate::native_conflict_projection::string_listed;
use crate::native_operation::{absent_or, native_target, native_target_spec, requirements_met, requirements_ok};
use crate::native_output_validation::{check_parse_evidence, parse_evidence_ok};
use crate::operation::{AnalyzePolicy, OperationParserSelection, OperationPolicy, OperationRequest, ValidatedOperationRequest};
use crate::operation_result::{
    opt_is, opt_str_eq, opt_view, string_views, OperationResult, ResultContractError, ResultParserSelection,
};
use crate::profiles::{PARSE_RESULT_SCHEMA, TYPESCRIPT_OWNERS};
use crate::metadata::{Metadata, MetadataEntry};
use crate::source::{count_lf, digest_hex, line_start, valid_range, ByteRange, SourceDocument, SourcePoint};
use crate::text::{copy_opt_string, copy_string, copy_strings, owned, str_eq, str_is_empty, utf8_of};
use vstd::prelude::*;

verus! {

/// Exact-source owner analysis with ownership and native extensions, and
/// neither comments nor tokens, and no unknown policy field.
pub open spec fn supports_spec(p: AnalyzePolicy) -> bool {
    &&& p.extra.entries@.len() == 0
    &&& depth_ok(p.analysis_depth)
    &&& p.comments != Some(true)
    &&& p.tokens != Some(true)
    &&& p.ownership != Some(false)
    &&& p.native_extensions != Some(false)
}

pub fn supports(policy: &AnalyzePolicy) -> (r: bool)
    ensures
        r == supports_spec(*policy),
{
    policy.extra.is_empty() && depth_supported(&policy.analysis_depth) && policy.comments != Some(true)
        && policy.tokens != Some(true) && policy.ownership != Some(false) && policy.native_extensions != Some(
        false,
    )
}

/// The family and merge provider whose embedded owner analysis a result's
/// profile names; other profiles carry no embedded analysis to check here.
pub open spec fn embedded_owner_spec(profile_id: Option<Seq<char>>) -> Option<(Seq<char>, Seq<char>)> {
    match profile_id {
        Some(id) => if id == TYPESCRIPT_OWNERS@ {
            None
        } else {
            native_target_spec(id)
        },
        None => None,
    }
}

/// The request asked for exactly the analysis the family analyzes: a
/// supported analyze policy, a dialect only where the family has dialects
/// and then its own name, no unknown provider or parser selection field, no
/// parser profile or language version, and no capability but `analyze`.
pub open spec fn embedded_request_ok(r: OperationRequest, family: Seq<char>) -> bool {
    &&& r.operation matches OperationPolicy::Analyze(p) && supports_spec(p)
    &&& match r.provider_selection.dialect {
        Some(d) => (family == "bash"@ || family == "go"@ || family == "rust"@) && d@ == family,
        None => true,
    }
    &&& r.provider_selection.extra.entries@.len() == 0
    &&& requirements_ok(r)
    &&& r.parser_selection.profile_id is None
    &&& r.parser_selection.language_version is None
    &&& r.parser_selection.extra.entries@.len() == 0
}

/// The result is a successful analysis by the family's own provider.
pub open spec fn embedded_result_ok(res: OperationResult, family: Seq<char>, provider: Seq<char>) -> bool {
    &&& res.analysis is Some
    &&& res.ok
    &&& opt_view(res.provider.family) == Some(family)
    &&& opt_view(res.provider.provider_id) == Some(provider)
}

/// How a parser selection chose its backend.
pub open spec fn selection_mode_spec(sel: OperationParserSelection) -> Seq<char> {
    if sel.backend is Some {
        "explicit"@
    } else {
        "policy"@
    }
}

/// The embedded parse result is accepted evidence of a backend that the
/// request's parser selection chose, that the result's profile reports,
/// and that declares the family's language, the parse-result contract,
/// native extensions and every capability the request required.
pub open spec fn embedded_parse_ok(
    core: CoreParseResult,
    sel: OperationParserSelection,
    parser: ResultParserSelection,
    family: Seq<char>,
) -> bool {
    &&& parse_evidence_ok(core)
    &&& core.backend.id@.len() > 0
    &&& opt_view(core.selection.requested.backend_id) == opt_view(sel.backend)
    &&& string_views(core.selection.requested.preference@) == string_views(sel.preference@)
    &&& string_views(core.selection.requested.required_capabilities@) == string_views(
        sel.required_capabilities@,
    )
    &&& absent_or(sel.backend, core.backend.id@)
    &&& opt_view(parser.selected_backend) == Some(core.backend.id@)
    &&& opt_view(parser.requested_backend) == opt_view(sel.backend)
    &&& opt_view(parser.selection_mode) == Some(selection_mode_spec(sel))
    &&& string_views(core.backend.languages@).contains(family)
    &&& string_views(core.backend.contracts@).contains(PARSE_RESULT_SCHEMA@)
    &&& string_views(core.backend.capabilities@).contains("native_extensions"@)
    &&& forall|i: int|
        0 <= i < sel.required_capabilities@.len() ==> string_views(core.backend.capabilities@).contains(
            #[trigger] sel.required_capabilities@[i]@,
        )
}

/// Everything the embedded evidence must show before the family's owner
/// analysis is rerun on the parsed source.
pub open spec fn embedded_accepted(
    res: OperationResult,
    r: OperationRequest,
    core: Option<CoreParseResult>,
    family: Seq<char>,
    provider: Seq<char>,
) -> bool {
    &&& embedded_result_ok(res, family, provider)
    &&& embedded_request_ok(r, family)
    &&& match (core, res.profile.parser) {
        (Some(c), Some(p)) => embedded_parse_ok(c, r.parser_selection, p, family),
        _ => false,
    }
}

pub(crate) fn same_strings(a: &Vec<String>, b: &Vec<String>) -> (r: bool)
    ensures
        r == (string_views(a@) == string_views(b@)),
{
    if a.len() != b.len() {
        proof {
            assert(string_views(a@).len() != string_views(b@).len());
        }
        return false;
    }
    let mut i: usize = 0;
    while i < a.len()
        invariant
            a@.len() == b@.len(),
            i <= a@.len(),
            forall|j: int| 0 <= j < i ==> (#[trigger] a@[j])@ == b@[j]@,
        decreases a@.len() - i,
    {
        if !str_eq(a[i].as_str(), b[i].as_str()) {
            proof {
                assert(string_views(a@)[i as int] != string_views(b@)[i as int]);
            }
            return false;
        }
        i = i + 1;
    }
    proof {
        assert(string_views(a@) =~= string_views(b@));
    }
    true
}

pub(crate) fn all_listed(required: &Vec<String>, declared: &Vec<String>) -> (r: bool)
    ensures
        r == forall|i: int|
            0 <= i < required@.len() ==> string_views(declared@).contains(#[trigger] required@[i]@),
{
    let mut i: usize = 0;
    while i < required.len()
        invariant
            i <= required@.len(),
            forall|j: int| 0 <= j < i ==> string_views(declared@).contains(#[trigger] required@[j]@),
        decreases required@.len() - i,
    {
        if !string_listed(declared, required[i].as_str()) {
            return false;
        }
        i = i + 1;
    }
    true
}

fn request_fits(r: &OperationRequest, family: &str) -> (b: bool)
    ensures
        b == embedded_request_ok(*r, family@),
{
    let supported = match &r.operation {
        OperationPolicy::Analyze(p) => supports(p),
        _ => false,
    };
    let dialect_ok = match &r.provider_selection.dialect {
        Some(d) => (str_eq(family, "bash") || str_eq(family, "go") || str_eq(family, "rust")) && str_eq(
            d.as_str(),
            family,
        ),
        None => true,
    };
    supported && dialect_ok && r.provider_selection.extra.is_empty() && requirements_met(r)
        && r.parser_selection.profile_id.is_none() && r.parser_selection.language_version.is_none()
        && r.parser_selection.extra.is_empty()
}

fn parse_fits(
    core: &CoreParseResult,
    sel: &OperationParserSelection,
    parser: &ResultParserSelection,
    family: &str,
) -> (b: bool)
    ensures
        b == embedded_parse_ok(*core, *sel, *parser, family@),
{
    let id = &core.backend.id;
    let mode = if sel.backend.is_some() {
        "explicit"
    } else {
        "policy"
    };
    let backend_matches = match &sel.backend {
        Some(b) => str_eq(b.as_str(), id.as_str()),
        None => true,
    };
    check_parse_evidence(core) && !str_is_empty(id.as_str()) && opt_str_eq(&core.selection.requested.backend_id, &sel.backend)
        && same_strings(&core.selection.requested.preference, &sel.preference) && same_strings(
        &core.selection.requested.required_capabilities,
        &sel.required_capabilities,
    ) && backend_matches && opt_is(&parser.selected_backend, id.as_str()) && opt_str_eq(
        &parser.requested_backend,
        &sel.backend,
    ) && opt_is(&parser.selection_mode, mode) && string_listed(&core.backend.languages, family)
        && string_listed(&core.backend.contracts, PARSE_RESULT_SCHEMA) && string_listed(
        &core.backend.capabilities,
        "native_extensions",
    ) && all_listed(&sel.required_capabilities, &core.backend.capabilities)
}

/// Check a result's embedded owner-analysis evidence against the request:
/// the family decisions are reconstructed from the embedded syntax, never
/// taken from the result's own owner or layout claims, so the evidence must
/// first show that the right provider analyzed exactly what was asked and
/// that the parse result is sound evidence of the selected backend. `core`
/// is the embedded parse result, `None` where it is absent or unreadable.
/// A profile without embedded analysis passes with `None`; otherwise the
/// result is the family whose analysis is owed next, or
/// `InvalidSourceEvidence` exactly when `embedded_accepted` fails. This
/// checks consistency of evidence; it does not authenticate a parser.
pub fn validate_embedded(
    result: &OperationResult,
    request: &ValidatedOperationRequest,
    core: &Option<CoreParseResult>,
) -> (r: Result<Option<&'static str>, ResultContractError>)
    ensures
        match embedded_owner_spec(opt_view(result.profile.profile_id)) {
            None => r == Ok::<Option<&'static str>, ResultContractError>(None),
            Some((family, provider)) => match r {
                Ok(Some(f)) => f@ == family && embedded_accepted(
                    *result,
                    request.spec_request(),
                    *core,
                    family,
                    provider,
                ),
                Ok(None) => false,
                Err(e) => e == ResultContractError::InvalidSourceEvidence && !embedded_accepted(
                    *result,
                    request.spec_request(),
                    *core,
                    family,
                    provider,
                ),
            },
        },
{
    let id: &str = match &result.profile.profile_id {
        Some(id) => id.as_str(),
        None => {
            return Ok(None);
        },
    };
    if str_eq(id, TYPESCRIPT_OWNERS) {
        return Ok(None);
    }
    let (family, provider) = match native_target(id) {
        Some(t) => t,
        None => {
            return Ok(None);
        },
    };
    let r = request.request();
    let accepted = result.analysis.is_some() && result.ok && opt_is(&result.provider.family, family)
        && opt_is(&result.provider.provider_id, provider) && request_fits(r, family) && match (
        core,
        &result.profile.parser,
    ) {
        (Some(c), Some(p)) => parse_fits(c, &r.parser_selection, p, family),
        _ => false,
    };
    if accepted {
        Ok(Some(family))
    } else {
        Err(ResultContractError::InvalidSourceEvidence)
    }
}

// ---------------------------------------------------------------------------
// Projection of an executed owner analysis

/// An owner the family analysis found: its identity, its byte range, and the
/// syntax nodes it spans, the anchoring node first.
#[derive(Clone, Debug, PartialEq, Eq)]
pub struct AnalyzedOwner {
    pub id: String,
    pub range: ByteRange,
    pub node_ids: Vec<String>,
}

/// A layout gap the family analysis reported: the bytes between owners, the
/// owners on either side where there are any, and the owner that controls
/// its emission, where one does.
#[derive(Clone, Debug, PartialEq, Eq)]
pub struct AnalyzedGap {
    pub id: String,
    pub range: ByteRange,
    pub source_sha256: String,
    pub before_owner_id: Option<String>,
    pub after_owner_id: Option<String>,
    pub controller_owner_id: Option<String>,
}

/// The layout gaps that lead and trail an owner.
#[derive(Clone, Debug, PartialEq, Eq)]
pub struct AnalyzedAttachment {
    pub owner_id: String,
    pub leading_gap_id: Option<String>,
    pub trailing_gap_id: Option<String>,
}

/// An exact source span: a byte range and the points of its two ends.
#[derive(Clone, Debug, PartialEq, Eq)]
pub struct ProjectedSpan {
    pub range: ByteRange,
    pub start_point: SourcePoint,
    pub end_point: SourcePoint,
}

/// An owner as the analysis result reports it. `metadata` holds JSON text.
#[derive(Clone, Debug, PartialEq, Eq)]
pub struct ProjectedOwner {
    pub id: String,
    pub node_id: String,
    pub node_ids: Vec<String>,
    pub logical_identity: Vec<String>,
    pub match_keys: Vec<String>,
    pub span: ProjectedSpan,
    pub source_sha256: String,
    pub metadata: Metadata,
}

/// Where a layout gap lies: before the first owner, between two owners, or
/// after the last.
#[derive(Clone, Copy, Debug, PartialEq, Eq, Structural)]
pub enum GapKind {
    Preamble,
    Interstitial,
    Postlude,
}

/// The side of a gap whose owner controls its emission.
#[derive(Clone, Copy, Debug, PartialEq, Eq, Structural)]
pub enum ControllerSide {
    Before,
    After,
}

/// A layout gap as the analysis result reports it. `metadata` holds JSON
/// text.
#[derive(Clone, Debug, PartialEq, Eq)]
pub struct ProjectedGap {
    pub id: String,
    pub kind: GapKind,
    pub span: ProjectedSpan,
    pub source_sha256: String,
    pub before_owner_id: Option<String>,
    pub after_owner_id: Option<String>,
    pub controller_side: ControllerSide,
    pub metadata: Metadata,
}

/// An owner's leading and trailing layout gaps; no comment region is ever
/// attached by this analysis.
#[derive(Clone, Debug, PartialEq, Eq)]
pub struct ProjectedAttachment {
    pub owner_id: String,
    pub leading_gap_id: Option<String>,
    pub trailing_gap_id: Option<String>,
}

/// Which owner controls the output of a subject, and on what basis.
#[derive(Clone, Debug, PartialEq, Eq)]
pub struct GapOwnership {
    pub subject_ref: String,
    pub selected_owner_ref: String,
    pub relation: String,
    pub basis: String,
    pub confidence: String,
}

/// The ownership records of an executed owner analysis.
#[derive(Clone, Debug, PartialEq, Eq)]
pub struct OwnerAnalysisProjection {
    pub owners: Vec<ProjectedOwner>,
    pub layout_gaps: Vec<ProjectedGap>,
    pub attachments: Vec<ProjectedAttachment>,
    pub ownership: Vec<GapOwnership>,
}

/// Why an owner analysis cannot be projected.
#[derive(Clone, Copy, Debug, PartialEq, Eq, Structural)]
pub enum AnalysisProjectionError {
    /// The source has comments, and the family's analysis does not keep
    /// them in exact layout.
    CommentsUnsupported,
    /// An owner or a nonempty gap names bytes the source does not have.
    InvalidRange,
    /// A nonempty gap has no controlling owner.
    OwnerlessLayout,
    /// A nonempty gap has no owner on either side.
    UnownedGap,
}

impl AnalysisProjectionError {
    /// The error's message, where it has a fixed one.
    pub fn message(&self) -> (r: Option<&'static str>)
        ensures
            r matches Some(m) ==> m@ == projection_message(*self),
            r is None <==> *self == AnalysisProjectionError::InvalidRange,
    {
        match self {
            AnalysisProjectionError::CommentsUnsupported => Some(
                "native comment attachment requires another analysis policy",
            ),
            AnalysisProjectionError::InvalidRange => None,
            AnalysisProjectionError::OwnerlessLayout => Some(
                "ownerless nonempty layout requires an explicit document ownership policy",
            ),
            AnalysisProjectionError::UnownedGap => Some("unowned layout gap"),
        }
    }
}

pub open spec fn projection_message(e: AnalysisProjectionError) -> Seq<char> {
    match e {
        AnalysisProjectionError::CommentsUnsupported => "native comment attachment requires another analysis policy"@,
        AnalysisProjectionError::OwnerlessLayout => "ownerless nonempty layout requires an explicit document ownership policy"@,
        AnalysisProjectionError::UnownedGap => "unowned layout gap"@,
        AnalysisProjectionError::InvalidRange => Seq::empty(),
    }
}

/// Families whose exact layout keeps native comments inside gaps.
pub open spec fn keeps_comments(family: Seq<char>) -> bool {
    family == "bash"@ || family == "go"@ || family == "rust"@
}

/// Comments refuse a projection exactly outside the families whose exact
/// layout gaps keep them: for bash, go and rust an analysis with comments
/// is projected, or refused, exactly as the same analysis without them; for
/// any other family an analysis with comments is refused as
/// `CommentsUnsupported`, whatever its owners and gaps.
pub proof fn law_comments_refuse_only_other_families(
    owners: Seq<AnalyzedOwner>,
    gaps: Seq<AnalyzedGap>,
    family: Seq<char>,
    len: nat,
)
    ensures
        family == "bash"@ || family == "go"@ || family == "rust"@ ==> projection_error(owners, gaps, true, family, len)
            == projection_error(owners, gaps, false, family, len),
        !(family == "bash"@ || family == "go"@ || family == "rust"@) ==> projection_error(
            owners,
            gaps,
            true,
            family,
            len,
        ) == Some(AnalysisProjectionError::CommentsUnsupported),
        projection_error(owners, gaps, false, family, len) != Some(AnalysisProjectionError::CommentsUnsupported),
{
    lemma_gap_scan_no_comments(gaps, len, 0);
}

proof fn lemma_gap_scan_no_comments(gaps: Seq<AnalyzedGap>, len: nat, i: int)
    ensures
        gap_scan(gaps, len, i) != Some(AnalysisProjectionError::CommentsUnsupported),
    decreases gaps.len() - i,
{
    if 0 <= i < gaps.len() {
        lemma_gap_scan_no_comments(gaps, len, i + 1);
    }
}

/// A gap that holds at least one byte.
pub open spec fn gap_nonempty(g: AnalyzedGap) -> bool {
    g.range.start_byte < g.range.end_byte
}

/// Why the projection refuses a gap, in check order; empty gaps are
/// skipped.
pub open spec fn gap_error(g: AnalyzedGap, len: nat) -> Option<AnalysisProjectionError> {
    if !gap_nonempty(g) {
        None
    } else if g.controller_owner_id is None {
        Some(AnalysisProjectionError::OwnerlessLayout)
    } else if g.before_owner_id is None && g.after_owner_id is None {
        Some(AnalysisProjectionError::UnownedGap)
    } else if !valid_range(g.range, len) {
        Some(AnalysisProjectionError::InvalidRange)
    } else {
        None
    }
}

/// The first refused gap from the `i`-th on.
pub open spec fn gap_scan(gaps: Seq<AnalyzedGap>, len: nat, i: int) -> Option<AnalysisProjectionError>
    decreases gaps.len() - i,
{
    if i < 0 || i >= gaps.len() {
        None
    } else if gap_error(gaps[i], len) is Some {
        gap_error(gaps[i], len)
    } else {
        gap_scan(gaps, len, i + 1)
    }
}

/// Why an analysis cannot be projected: comments the family does not keep,
/// then an owner outside the source, then the first refused gap.
pub open spec fn projection_error(
    owners: Seq<AnalyzedOwner>,
    gaps: Seq<AnalyzedGap>,
    has_comments: bool,
    family: Seq<char>,
    len: nat,
) -> Option<AnalysisProjectionError> {
    if has_comments && !keeps_comments(family) {
        Some(AnalysisProjectionError::CommentsUnsupported)
    } else if exists|i: int| 0 <= i < owners.len() && !valid_range(#[trigger] owners[i].range, len) {
        Some(AnalysisProjectionError::InvalidRange)
    } else {
        gap_scan(gaps, len, 0)
    }
}

/// The nonempty gaps, in order.
pub open spec fn kept_gaps(gaps: Seq<AnalyzedGap>) -> Seq<AnalyzedGap>
    decreases gaps.len(),
{
    if gaps.len() == 0 {
        Seq::empty()
    } else if gap_nonempty(gaps.last()) {
        kept_gaps(gaps.drop_last()).push(gaps.last())
    } else {
        kept_gaps(gaps.drop_last())
    }
}

/// The span of `range` in `data`, with the row and column of each end.
pub open spec fn span_projected(s: ProjectedSpan, range: ByteRange, data: Seq<u8>) -> bool {
    &&& s.range == range
    &&& s.start_point.row == count_lf(data.take(range.start_byte as int))
    &&& s.start_point.column == range.start_byte - line_start(data.take(range.start_byte as int))
    &&& s.end_point.row == count_lf(data.take(range.end_byte as int))
    &&& s.end_point.column == range.end_byte - line_start(data.take(range.end_byte as int))
}

/// A single field of JSON text.
pub open spec fn one_field(m: Metadata, key: Seq<char>, value: Seq<char>) -> bool {
    m.entries@.len() == 1 && m.entries@[0].key@ == key && m.entries@[0].value@ == value
}

/// An owner reported with its anchoring node and all its nodes, its family
/// and identity as logical identity, its identity as match key, its exact
/// span and the digest of its bytes.
pub open spec fn owner_projected(p: ProjectedOwner, o: AnalyzedOwner, family: Seq<char>, data: Seq<u8>) -> bool {
    &&& p.id@ == o.id@
    &&& p.node_id@ == o.node_ids@[0]@
    &&& string_views(p.node_ids@) == string_views(o.node_ids@)
    &&& string_views(p.logical_identity@) == seq![family, o.id@]
    &&& string_views(p.match_keys@) == seq![o.id@]
    &&& span_projected(p.span, o.range, data)
    &&& utf8_of(p.source_sha256@) == digest_hex(data.subrange(o.range.start_byte as int, o.range.end_byte as int))
    &&& one_field(p.metadata, "node_reference_policy"@, "\"family-native-boundaries\""@)
}

/// Where a gap lies, from the owners on its two sides.
pub open spec fn gap_kind(g: AnalyzedGap) -> GapKind {
    if g.before_owner_id is None {
        GapKind::Preamble
    } else if g.after_owner_id is Some {
        GapKind::Interstitial
    } else {
        GapKind::Postlude
    }
}

/// A gap reported with its kind, its exact span and digest, its neighbours,
/// the side that controls it (the following owner, but for a postlude), and
/// no implicit transfer on deletion.
pub open spec fn gap_projected(p: ProjectedGap, g: AnalyzedGap, data: Seq<u8>) -> bool {
    &&& p.id@ == g.id@
    &&& p.kind == gap_kind(g)
    &&& span_projected(p.span, g.range, data)
    &&& p.source_sha256@ == g.source_sha256@
    &&& opt_view(p.before_owner_id) == opt_view(g.before_owner_id)
    &&& opt_view(p.after_owner_id) == opt_view(g.after_owner_id)
    &&& p.controller_side == (if gap_kind(g) == GapKind::Postlude {
        ControllerSide::Before
    } else {
        ControllerSide::After
    })
    &&& one_field(p.metadata, "deletion_policy"@, "\"no-implicit-transfer\""@)
}

/// The gap's controlling owner controls its output, deterministically, by
/// exact source baseline emission.
pub open spec fn ownership_projected(o: GapOwnership, g: AnalyzedGap) -> bool {
    &&& o.subject_ref@ == g.id@
    &&& opt_view(g.controller_owner_id) == Some(o.selected_owner_ref@)
    &&& o.relation@ == "controls-output"@
    &&& o.basis@ == "exact-source-baseline-emission"@
    &&& o.confidence@ == "deterministic"@
}

pub open spec fn attachment_projected(p: ProjectedAttachment, a: AnalyzedAttachment) -> bool {
    &&& p.owner_id@ == a.owner_id@
    &&& opt_view(p.leading_gap_id) == opt_view(a.leading_gap_id)
    &&& opt_view(p.trailing_gap_id) == opt_view(a.trailing_gap_id)
}

/// The projection reports every owner, every nonempty gap with its
/// ownership, and every attachment, each in order.
pub open spec fn analysis_projected(
    r: OwnerAnalysisProjection,
    owners: Seq<AnalyzedOwner>,
    gaps: Seq<AnalyzedGap>,
    attachments: Seq<AnalyzedAttachment>,
    family: Seq<char>,
    data: Seq<u8>,
) -> bool {
    let kept = kept_gaps(gaps);
    &&& r.owners@.len() == owners.len()
    &&& forall|i: int| 0 <= i < owners.len() ==> owner_projected(#[trigger] r.owners@[i], owners[i], family, data)
    &&& r.layout_gaps@.len() == kept.len()
    &&& r.ownership@.len() == kept.len()
    &&& forall|k: int| 0 <= k < kept.len() ==> gap_projected(#[trigger] r.layout_gaps@[k], kept[k], data)
    &&& forall|k: int| 0 <= k < kept.len() ==> ownership_projected(#[trigger] r.ownership@[k], kept[k])
    &&& r.attachments@.len() == attachments.len()
    &&& forall|i: int|
        0 <= i < attachments.len() ==> attachment_projected(#[trigger] r.attachments@[i], attachments[i])
}

proof fn lemma_kept_step(gaps: Seq<AnalyzedGap>, i: int)
    requires
        0 <= i < gaps.len(),
    ensures
        kept_gaps(gaps.take(i + 1)) == if gap_nonempty(gaps[i]) {
            kept_gaps(gaps.take(i)).push(gaps[i])
        } else {
            kept_gaps(gaps.take(i))
        },
{
    assert(gaps.take(i + 1).drop_last() =~= gaps.take(i));
}

fn project_span(document: &SourceDocument, range: ByteRange) -> (r: Option<ProjectedSpan>)
    ensures
        match r {
            Some(s) => valid_range(range, document.data().len()) && span_projected(s, range, document.data()),
            None => !valid_range(range, document.data().len()),
        },
{
    if document.slice(range).is_err() {
        return None;
    }
    let start_point = match document.point(range.start_byte) {
        Ok(p) => p,
        Err(_) => {
            return None;
        },
    };
    let end_point = match document.point(range.end_byte) {
        Ok(p) => p,
        Err(_) => {
            return None;
        },
    };
    Some(ProjectedSpan { range, start_point, end_point })
}

/// Project an executed family owner analysis of `document` into the
/// ownership records of an analysis result: every owner with its nodes,
/// identity, span and digest; every nonempty layout gap as a preamble,
/// interstitial or postlude with the side that controls it and an
/// ownership record naming its controlling owner; and every owner's gap
/// attachments. Comments are refused where the family does not keep them
/// in exact layout, and so are owners or gaps outside the source, nonempty
/// gaps without a controlling owner and gaps with no owner on either side.
pub fn project_owner_analysis(
    document: &SourceDocument,
    owners: &Vec<AnalyzedOwner>,
    gaps: &Vec<AnalyzedGap>,
    attachments: &Vec<AnalyzedAttachment>,
    has_comments: bool,
    family: &str,
) -> (r: Result<OwnerAnalysisProjection, AnalysisProjectionError>)
    requires
        forall|i: int| 0 <= i < owners@.len() ==> (#[trigger] owners@[i]).node_ids@.len() > 0,
    ensures
        match projection_error(owners@, gaps@, has_comments, family@, document.data().len()) {
            Some(e) => r == Err::<OwnerAnalysisProjection, AnalysisProjectionError>(e),
            None => r matches Ok(p) && analysis_projected(
                p,
                owners@,
                gaps@,
                attachments@,
                family@,
                document.data(),
            ),
        },
{
    let ghost data = document.data();
    let ghost len = data.len();
    if has_comments && !(str_eq(family, "bash") || str_eq(family, "go") || str_eq(family, "rust")) {
        return Err(AnalysisProjectionError::CommentsUnsupported);
    }
    let mut projected: Vec<ProjectedOwner> = Vec::new();
    let mut i: usize = 0;
    while i < owners.len()
        invariant
            data == document.data(),
            len == data.len(),
            i <= owners@.len(),
            projected@.len() == i,
            forall|k: int| 0 <= k < owners@.len() ==> (#[trigger] owners@[k]).node_ids@.len() > 0,
            !(has_comments && !keeps_comments(family@)),
            forall|k: int| 0 <= k < i ==> valid_range(#[trigger] owners@[k].range, len),
            forall|k: int| 0 <= k < i ==> owner_projected(#[trigger] projected@[k], owners@[k], family@, data),
        decreases owners@.len() - i,
    {
        let owner = &owners[i];
        let span = match project_span(document, owner.range) {
            Some(s) => s,
            None => {
                assert(!valid_range(owners@[i as int].range, len));
                return Err(AnalysisProjectionError::InvalidRange);
            },
        };
        let digest = match document.range_digest(owner.range) {
            Ok(d) => d,
            Err(_) => {
                return Err(AnalysisProjectionError::InvalidRange);
            },
        };
        let node_ids = copy_strings(&owner.node_ids);
        assert(string_views(node_ids@) =~= string_views(owner.node_ids@));
        let logical_identity = vec![owned(family), copy_string(&owner.id)];
        assert(string_views(logical_identity@) =~= seq![family@, owner.id@]);
        let match_keys = vec![copy_string(&owner.id)];
        assert(string_views(match_keys@) =~= seq![owner.id@]);
        projected.push(
            ProjectedOwner {
                id: copy_string(&owner.id),
                node_id: copy_string(&owner.node_ids[0]),
                node_ids,
                logical_identity,
                match_keys,
                span,
                source_sha256: digest,
                metadata: Metadata {
                    entries: vec![
                        MetadataEntry {
                            key: owned("node_reference_policy"),
                            value: owned("\"family-native-boundaries\""),
                        },
                    ],
                },
            },
        );
        i = i + 1;
    }
    let ghost gs = gaps@;
    let mut layout_gaps: Vec<ProjectedGap> = Vec::new();
    let mut ownership: Vec<GapOwnership> = Vec::new();
    let mut j: usize = 0;
    while j < gaps.len()
        invariant
            data == document.data(),
            len == data.len(),
            gs == gaps@,
            j <= gs.len(),
            !(has_comments && !keeps_comments(family@)),
            forall|k: int| 0 <= k < owners@.len() ==> valid_range(#[trigger] owners@[k].range, len),
            gap_scan(gs, len, 0) == gap_scan(gs, len, j as int),
            layout_gaps@.len() == kept_gaps(gs.take(j as int)).len(),
            ownership@.len() == kept_gaps(gs.take(j as int)).len(),
            forall|k: int|
                0 <= k < layout_gaps@.len() ==> gap_projected(
                    #[trigger] layout_gaps@[k],
                    kept_gaps(gs.take(j as int))[k],
                    data,
                ),
            forall|k: int|
                0 <= k < ownership@.len() ==> ownership_projected(
                    #[trigger] ownership@[k],
                    kept_gaps(gs.take(j as int))[k],
                ),
        decreases gs.len() - j,
    {
        proof {
            lemma_kept_step(gs, j as int);
        }
        let gap = &gaps[j];
        if gap.range.start_byte < gap.range.end_byte {
            let controller = match &gap.controller_owner_id {
                Some(c) => c,
                None => {
                    return Err(AnalysisProjectionError::OwnerlessLayout);
                },
            };
            let (kind, side) = match (&gap.before_owner_id, &gap.after_owner_id) {
                (None, Some(_)) => (GapKind::Preamble, ControllerSide::After),
                (Some(_), Some(_)) => (GapKind::Interstitial, ControllerSide::After),
                (Some(_), None) => (GapKind::Postlude, ControllerSide::Before),
                (None, None) => {
                    return Err(AnalysisProjectionError::UnownedGap);
                },
            };
            let span = match project_span(document, gap.range) {
                Some(s) => s,
                None => {
                    return Err(AnalysisProjectionError::InvalidRange);
                },
            };
            let ghost before_gaps = layout_gaps@;
            let ghost before_own = ownership@;
            ownership.push(
                GapOwnership {
                    subject_ref: copy_string(&gap.id),
                    selected_owner_ref: copy_string(controller),
                    relation: owned("controls-output"),
                    basis: owned("exact-source-baseline-emission"),
                    confidence: owned("deterministic"),
                },
            );
            layout_gaps.push(
                ProjectedGap {
                    id: copy_string(&gap.id),
                    kind,
                    span,
                    source_sha256: copy_string(&gap.source_sha256),
                    before_owner_id: copy_opt_string(&gap.before_owner_id),
                    after_owner_id: copy_opt_string(&gap.after_owner_id),
                    controller_side: side,
                    metadata: Metadata {
                        entries: vec![
                            MetadataEntry { key: owned("deletion_policy"), value: owned("\"no-implicit-transfer\"") },
                        ],
                    },
                },
            );
            proof {
                let kept = kept_gaps(gs.take(j + 1));
                assert forall|k: int| 0 <= k < layout_gaps@.len() implies gap_projected(
                    #[trigger] layout_gaps@[k],
                    kept[k],
                    data,
                ) by {
                    if k < before_gaps.len() {
                        assert(layout_gaps@[k] == before_gaps[k]);
                    }
                }
                assert forall|k: int| 0 <= k < ownership@.len() implies ownership_projected(
                    #[trigger] ownership@[k],
                    kept[k],
                ) by {
                    if k < before_own.len() {
                        assert(ownership@[k] == before_own[k]);
                    }
                }
            }
        }
        j = j + 1;
    }
    proof {
        assert(gs.take(gs.len() as int) =~= gs);
    }
    let mut attached: Vec<ProjectedAttachment> = Vec::new();
    let mut m: usize = 0;
    while m < attachments.len()
        invariant
            m <= attachments@.len(),
            attached@.len() == m,
            forall|k: int| 0 <= k < m ==> attachment_projected(#[trigger] attached@[k], attachments@[k]),
        decreases attachments@.len() - m,
    {
        let a = &attachments[m];
        attached.push(
            ProjectedAttachment {
                owner_id: copy_string(&a.owner_id),
                leading_gap_id: copy_opt_string(&a.leading_gap_id),
                trailing_gap_id: copy_opt_string(&a.trailing_gap_id),
            },
        );
        m = m + 1;
    }
    Ok(OwnerAnalysisProjection { owners: projected, layout_gaps, attachments: attached, ownership })
}

} // verus!
