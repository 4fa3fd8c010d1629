//! The result of a native three-way merge entry point, projected from what
//! the shared merge engine executed or why it stopped. Controls, limits and
//! invalid requests remain errors of the call; a parser provider's fault or
//! refusal over the inputs becomes evidence in the result.
use crate::host::{failure_evidence, service_code, service_message, CoreError, ParserFailure, ServiceError};
use crate::native_conflict_projection::{MergeOutcome, SourceRevision};
use crate::operation_result::opt_view;
use crate::source::{copy_descriptor, same_descriptor, ByteRange, SourceDescriptor, SourceRole};
use crate::text::{copy_opt_string, copy_string, owned};
use vstd::prelude::*;

verus! {

/// A retained output range copied from one source revision.
#[derive(Clone, Debug, PartialEq, Eq)]
pub struct RetainedSourceSegment {
    pub id: String,
    pub source_id: String,
    pub source_role: SourceRole,
    pub source_range: ByteRange,
    pub output_range: ByteRange,
    pub sha256: String,
    pub owner_id: Option<String>,
}

/// A source the family analysis could not take.
#[derive(Clone, Debug, PartialEq, Eq)]
pub struct NativeAnalysisRejection {
    pub code: String,
    pub source_id: String,
    pub source_role: SourceRole,
    pub message: String,
}

/// A byte segment of the rendered output, as the renderer reports it.
#[derive(Clone, Debug, PartialEq, Eq)]
pub struct RenderedSegment {
    pub id: String,
    pub revision: SourceRevision,
    pub source_range: ByteRange,
    pub output_range: ByteRange,
    pub sha256: String,
    pub owner_id: Option<String>,
}

/// A parse result kept as evidence: the source it parsed, whether the
/// parser accepted it, and the parse result record as JSON text.
#[derive(Clone, Debug, PartialEq, Eq)]
pub struct ParseEvidence {
    pub source_id: String,
    pub source_role: SourceRole,
    pub ok: bool,
    pub record: String,
}

/// Why the family analysis rejected one source.
#[derive(Clone, Debug, PartialEq, Eq)]
pub struct AnalysisFailure {
    pub source_id: String,
    pub source_role: SourceRole,
    pub message: String,
}

/// What a completed native merge execution reports. Diagnostics, conflicts
/// and policy references are the engine's records as JSON text.
#[derive(Clone, Debug, PartialEq, Eq)]
pub struct MergeExecutionReport {
    pub sources: Vec<SourceDescriptor>,
    pub output_source: Option<SourceDescriptor>,
    pub outcome: MergeOutcome,
    pub diagnostics: Vec<String>,
    pub conflicts: Vec<String>,
    pub policies: Vec<String>,
    pub output: Option<String>,
    pub segments: Vec<RenderedSegment>,
    pub input_parses: Vec<ParseEvidence>,
    pub output_parse: Option<ParseEvidence>,
    pub verification_error: Option<ServiceError>,
}

/// Why a native merge execution stopped.
#[derive(Clone, Debug, PartialEq, Eq)]
pub enum NativeMergeError {
    /// The parser service failed before any input was parsed.
    Parse(ServiceError),
    /// Parsing the inputs failed.
    InputParseFailed { error: ServiceError, sources: Vec<SourceDescriptor> },
    /// A native parser rejected an input.
    NativeParseRejected { parses: Vec<ParseEvidence>, sources: Vec<SourceDescriptor> },
    /// The family analysis rejected inputs.
    AnalysisRejected { failures: Vec<AnalysisFailure>, parses: Vec<ParseEvidence>, sources: Vec<SourceDescriptor> },
    InvalidInputs,
    Unsupported(String),
}

/// The result of a native three-way merge entry point.
#[derive(Clone, Debug, PartialEq, Eq)]
pub struct NativeMergeResult {
    pub profile_id: String,
    pub outcome: MergeOutcome,
    pub diagnostics: Vec<String>,
    pub conflicts: Vec<String>,
    pub output: Option<String>,
    pub policies: Vec<String>,
    /// The first rejected input parse, when a native parser rejected one.
    pub rejected_parse: Option<ParseEvidence>,
    /// Every input parse result, in role order.
    pub input_parses: Vec<ParseEvidence>,
    /// The reparse of a synthesized output.
    pub output_parse: Option<ParseEvidence>,
    pub verification_failure: Option<ParserFailure>,
    /// A parser failure before a complete input parse.
    pub input_failure: Option<ParserFailure>,
    pub analysis_rejections: Vec<NativeAnalysisRejection>,
    pub sources: Vec<SourceDescriptor>,
    pub output_source: Option<SourceDescriptor>,
    pub source_segments: Vec<RetainedSourceSegment>,
}

pub open spec fn revision_role(r: SourceRevision) -> SourceRole {
    match r {
        SourceRevision::Base => SourceRole::Base,
        SourceRevision::Ours => SourceRole::Ours,
        SourceRevision::Theirs => SourceRole::Theirs,
    }
}

/// The first source descriptor with role `role`.
pub open spec fn first_with_role(ds: Seq<SourceDescriptor>, role: SourceRole) -> Option<SourceDescriptor>
    decreases ds.len(),
{
    if ds.len() == 0 {
        None
    } else if ds[0].role == role {
        Some(ds[0])
    } else {
        first_with_role(ds.drop_first(), role)
    }
}

/// The first parse a native parser rejected.
pub open spec fn first_rejected(ps: Seq<ParseEvidence>) -> Option<ParseEvidence>
    decreases ps.len(),
{
    if ps.len() == 0 {
        None
    } else if !ps[0].ok {
        Some(ps[0])
    } else {
        first_rejected(ps.drop_first())
    }
}

/// Every rendered segment names a revision some source descriptor has.
pub open spec fn segments_resolve(e: MergeExecutionReport) -> bool {
    forall|i: int|
        0 <= i < e.segments@.len() ==> first_with_role(e.sources@, revision_role(#[trigger] e.segments@[i].revision))
            is Some
}

/// A retained segment is the rendered segment attributed to the source with
/// its revision's role.
pub open spec fn retained_from(r: RetainedSourceSegment, s: RenderedSegment, d: SourceDescriptor) -> bool {
    &&& r.id@ == s.id@
    &&& r.source_id@ == d.source_id@
    &&& r.source_role == revision_role(s.revision)
    &&& r.source_range == s.source_range
    &&& r.output_range == s.output_range
    &&& r.sha256@ == s.sha256@
    &&& opt_view(r.owner_id) == opt_view(s.owner_id)
}

/// A parser failure over the inputs that is a provider's fault or refusal
/// rather than a control, a limit or an invalid request.
pub open spec fn failure_is_evidence(e: ServiceError) -> bool {
    &&& (e is Selection || e is Provider || e is ProviderPanic || e is InvalidBatch || e is InvalidResult)
    &&& service_code(e) != "resource.limit"@
}

pub open spec fn same_parser_failure(f: ParserFailure, e: ServiceError) -> bool {
    &&& f.code@ == service_code(e)
    &&& f.message@ == service_message(e)
    &&& (opt_view(f.backend_id), opt_view(f.native_code), opt_view(f.native_message), opt_view(f.source_id),
        opt_view(f.selection)) == failure_evidence(e)
}

pub open spec fn same_descriptors(a: Seq<SourceDescriptor>, b: Seq<SourceDescriptor>) -> bool {
    a.len() == b.len() && forall|i: int| 0 <= i < a.len() ==> #[trigger] same_descriptor(a[i], b[i])
}

pub open spec fn same_evidence(a: Option<ParseEvidence>, b: Option<ParseEvidence>) -> bool {
    match (a, b) {
        (Some(x), Some(y)) => x.source_id@ == y.source_id@ && x.source_role == y.source_role && x.ok == y.ok
            && x.record@ == y.record@,
        (None, None) => true,
        _ => false,
    }
}

/// A result with no merge: an error outcome with no output, records or
/// segments.
pub open spec fn stopped(r: NativeMergeResult, profile_id: Seq<char>, sources: Seq<SourceDescriptor>) -> bool {
    &&& r.profile_id@ == profile_id
    &&& r.outcome == MergeOutcome::Error
    &&& r.diagnostics@.len() == 0
    &&& r.conflicts@.len() == 0
    &&& r.output is None
    &&& r.policies@.len() == 0
    &&& r.output_parse is None
    &&& r.verification_failure is None
    &&& same_descriptors(r.sources@, sources)
    &&& r.output_source is None
    &&& r.source_segments@.len() == 0
}

pub open spec fn error_is(e: CoreError, code: Seq<char>, message: Seq<char>) -> bool {
    e.code@ == code && e.message@ == message
}

/// The projection of a stopped execution: a native parse or analysis
/// rejection and an input failure that is evidence become results; any other
/// failure is an error carrying its core code.
pub open spec fn failure_projected(profile_id: Seq<char>, e: NativeMergeError, r: Result<NativeMergeResult, CoreError>) -> bool {
    match e {
        NativeMergeError::Parse(s) => r matches Err(c) && error_is(c, service_code(s), service_message(s)),
        NativeMergeError::InputParseFailed { error, sources } => if failure_is_evidence(error) {
            r matches Ok(res) && {
                &&& stopped(res, profile_id, sources@)
                &&& res.rejected_parse is None
                &&& res.input_parses@.len() == 0
                &&& res.analysis_rejections@.len() == 0
                &&& res.input_failure matches Some(f) && same_parser_failure(f, error)
            }
        } else {
            r matches Err(c) && error_is(c, service_code(error), service_message(error))
        },
        NativeMergeError::NativeParseRejected { parses, sources } => r matches Ok(res) && {
            &&& stopped(res, profile_id, sources@)
            &&& same_evidence(res.rejected_parse, first_rejected(parses@))
            &&& res.input_parses@ == parses@
            &&& res.analysis_rejections@.len() == 0
            &&& res.input_failure is None
        },
        NativeMergeError::AnalysisRejected { failures, parses, sources } => r matches Ok(res) && {
            &&& stopped(res, profile_id, sources@)
            &&& res.rejected_parse is None
            &&& res.input_parses@ == parses@
            &&& res.input_failure is None
            &&& res.analysis_rejections@.len() == failures@.len()
            &&& forall|i: int|
                0 <= i < failures@.len() ==> {
                    &&& (#[trigger] res.analysis_rejections@[i]).code@ == "analysis.unsupported_profile"@
                    &&& res.analysis_rejections@[i].source_id@ == failures@[i].source_id@
                    &&& res.analysis_rejections@[i].source_role == failures@[i].source_role
                    &&& res.analysis_rejections@[i].message@ == failures@[i].message@
                }
        },
        NativeMergeError::InvalidInputs => r matches Err(c) && error_is(c, "invalid_merge_inputs"@, "InvalidInputs"@),
        NativeMergeError::Unsupported(m) => r matches Err(c) && error_is(c, "unsupported_native_profile"@, m@),
    }
}

/// The projection of a completed execution: its records and output as
/// reported, and each rendered segment attributed to the first source with
/// its revision's role.
pub open spec fn execution_projected(profile_id: Seq<char>, e: MergeExecutionReport, r: NativeMergeResult) -> bool {
    &&& r.profile_id@ == profile_id
    &&& r.outcome == e.outcome
    &&& r.diagnostics == e.diagnostics
    &&& r.conflicts == e.conflicts
    &&& r.output == e.output
    &&& r.policies == e.policies
    &&& r.rejected_parse is None
    &&& r.analysis_rejections@.len() == 0
    &&& r.input_failure is None
    &&& r.output_parse == e.output_parse
    &&& match e.verification_error {
        Some(v) => r.verification_failure matches Some(f) && same_parser_failure(f, v),
        None => r.verification_failure is None,
    }
    &&& r.input_parses == e.input_parses
    &&& r.sources == e.sources
    &&& r.output_source == e.output_source
    &&& r.source_segments@.len() == e.segments@.len()
    &&& forall|i: int|
        0 <= i < e.segments@.len() ==> retained_from(
            #[trigger] r.source_segments@[i],
            e.segments@[i],
            first_with_role(e.sources@, revision_role(e.segments@[i].revision))->0,
        )
}

fn role_of(r: SourceRevision) -> (role: SourceRole)
    ensures
        role == revision_role(r),
{
    match r {
        SourceRevision::Base => SourceRole::Base,
        SourceRevision::Ours => SourceRole::Ours,
        SourceRevision::Theirs => SourceRole::Theirs,
    }
}

proof fn lemma_first_with_role(ds: Seq<SourceDescriptor>, role: SourceRole, k: int)
    requires
        0 <= k <= ds.len(),
        forall|j: int| 0 <= j < k ==> (#[trigger] ds[j]).role != role,
    ensures
        k < ds.len() && ds[k].role == role ==> first_with_role(ds, role) == Some(ds[k]),
        k == ds.len() ==> first_with_role(ds, role) is None,
    decreases k,
{
    if k > 0 {
        let rest = ds.drop_first();
        assert forall|j: int| 0 <= j < k - 1 implies (#[trigger] rest[j]).role != role by {
            assert(rest[j] == ds[j + 1]);
        }
        lemma_first_with_role(rest, role, k - 1);
        if k < ds.len() {
            assert(rest[k - 1] == ds[k]);
        }
    }
}

fn find_role(ds: &Vec<SourceDescriptor>, role: SourceRole) -> (r: Option<usize>)
    ensures
        match r {
            Some(k) => k < ds@.len() && first_with_role(ds@, role) == Some(ds@[k as int]),
            None => first_with_role(ds@, role) is None,
        },
{
    let mut k: usize = 0;
    while k < ds.len()
        invariant
            k <= ds@.len(),
            forall|j: int| 0 <= j < k ==> (#[trigger] ds@[j]).role != role,
        decreases ds@.len() - k,
    {
        if ds[k].role == role {
            proof {
                lemma_first_with_role(ds@, role, k as int);
            }
            return Some(k);
        }
        k = k + 1;
    }
    proof {
        lemma_first_with_role(ds@, role, k as int);
    }
    None
}

proof fn lemma_first_rejected(ps: Seq<ParseEvidence>, k: int)
    requires
        0 <= k <= ps.len(),
        forall|j: int| 0 <= j < k ==> (#[trigger] ps[j]).ok,
    ensures
        k < ps.len() && !ps[k].ok ==> first_rejected(ps) == Some(ps[k]),
        k == ps.len() ==> first_rejected(ps) is None,
    decreases k,
{
    if k > 0 {
        let rest = ps.drop_first();
        assert forall|j: int| 0 <= j < k - 1 implies (#[trigger] rest[j]).ok by {
            assert(rest[j] == ps[j + 1]);
        }
        lemma_first_rejected(rest, k - 1);
        if k < ps.len() {
            assert(rest[k - 1] == ps[k]);
        }
    }
}

fn rejected_of(ps: &Vec<ParseEvidence>) -> (r: Option<ParseEvidence>)
    ensures
        same_evidence(r, first_rejected(ps@)),
{
    let mut k: usize = 0;
    while k < ps.len()
        invariant
            k <= ps@.len(),
            forall|j: int| 0 <= j < k ==> (#[trigger] ps@[j]).ok,
        decreases ps@.len() - k,
    {
        if !ps[k].ok {
            proof {
                lemma_first_rejected(ps@, k as int);
            }
            return Some(
                ParseEvidence {
                    source_id: copy_string(&ps[k].source_id),
                    source_role: ps[k].source_role,
                    ok: false,
                    record: copy_string(&ps[k].record),
                },
            );
        }
        k = k + 1;
    }
    proof {
        lemma_first_rejected(ps@, k as int);
    }
    None
}

fn stopped_result(profile_id: &str, sources: Vec<SourceDescriptor>) -> (r: NativeMergeResult)
    ensures
        r.profile_id@ == profile_id@,
        r.outcome == MergeOutcome::Error,
        r.diagnostics@.len() == 0,
        r.conflicts@.len() == 0,
        r.output is None,
        r.policies@.len() == 0,
        r.output_parse is None,
        r.verification_failure is None,
        r.sources == sources,
        r.output_source is None,
        r.source_segments@.len() == 0,
        r.rejected_parse is None,
        r.input_parses@.len() == 0,
        r.analysis_rejections@.len() == 0,
        r.input_failure is None,
{
    NativeMergeResult {
        profile_id: owned(profile_id),
        outcome: MergeOutcome::Error,
        diagnostics: Vec::new(),
        conflicts: Vec::new(),
        output: None,
        policies: Vec::new(),
        rejected_parse: None,
        input_parses: Vec::new(),
        output_parse: None,
        verification_failure: None,
        input_failure: None,
        analysis_rejections: Vec::new(),
        sources,
        output_source: None,
        source_segments: Vec::new(),
    }
}

proof fn lemma_same_descriptors_refl(ds: Seq<SourceDescriptor>)
    ensures
        same_descriptors(ds, ds),
{
    assert forall|i: int| 0 <= i < ds.len() implies #[trigger] same_descriptor(ds[i], ds[i]) by {}
}

fn is_evidence(e: &ServiceError) -> (b: bool)
    ensures
        b == failure_is_evidence(*e),
{
    let kind = match e {
        ServiceError::Selection { .. } => true,
        ServiceError::Provider { .. } => true,
        ServiceError::ProviderPanic { .. } => true,
        ServiceError::InvalidBatch { .. } => true,
        ServiceError::InvalidResult { .. } => true,
        _ => false,
    };
    kind && !crate::text::str_eq(CoreError::from_service(e).code.as_str(), "resource.limit")
}

/// Project a stopped execution; see `failure_projected`.
pub fn project_merge_failure(profile_id: &str, error: NativeMergeError) -> (r: Result<NativeMergeResult, CoreError>)
    ensures
        failure_projected(profile_id@, error, r),
{
    match error {
        NativeMergeError::Parse(e) => Err(CoreError::from_service(&e)),
        NativeMergeError::InputParseFailed { error, sources } => {
            if is_evidence(&error) {
                let ghost ds = sources@;
                let mut result = stopped_result(profile_id, sources);
                result.input_failure = Some(ParserFailure::from_service(&error));
                proof {
                    lemma_same_descriptors_refl(ds);
                }
                Ok(result)
            } else {
                Err(CoreError::from_service(&error))
            }
        },
        NativeMergeError::NativeParseRejected { parses, sources } => {
            let ghost ds = sources@;
            let rejected = rejected_of(&parses);
            let mut result = stopped_result(profile_id, sources);
            proof {
                lemma_same_descriptors_refl(ds);
            }
            result.rejected_parse = rejected;
            result.input_parses = parses;
            Ok(result)
        },
        NativeMergeError::AnalysisRejected { failures, parses, sources } => {
            let ghost ds = sources@;
            let mut result = stopped_result(profile_id, sources);
            let mut rejections: Vec<NativeAnalysisRejection> = Vec::new();
            let mut i: usize = 0;
            while i < failures.len()
                invariant
                    i <= failures@.len(),
                    rejections@.len() == i,
                    forall|k: int|
                        0 <= k < i ==> {
                            &&& (#[trigger] rejections@[k]).code@ == "analysis.unsupported_profile"@
                            &&& rejections@[k].source_id@ == failures@[k].source_id@
                            &&& rejections@[k].source_role == failures@[k].source_role
                            &&& rejections@[k].message@ == failures@[k].message@
                        },
                decreases failures@.len() - i,
            {
                let f = &failures[i];
                rejections.push(
                    NativeAnalysisRejection {
                        code: owned("analysis.unsupported_profile"),
                        source_id: copy_string(&f.source_id),
                        source_role: f.source_role,
                        message: copy_string(&f.message),
                    },
                );
                i = i + 1;
            }
            result.analysis_rejections = rejections;
            result.input_parses = parses;
            proof {
                lemma_same_descriptors_refl(ds);
            }
            Ok(result)
        },
        NativeMergeError::InvalidInputs => Err(
            CoreError { code: owned("invalid_merge_inputs"), message: owned("InvalidInputs") },
        ),
        NativeMergeError::Unsupported(m) => Err(CoreError { code: owned("unsupported_native_profile"), message: m }),
    }
}

/// Project a completed execution; it fails only when a rendered segment
/// names a revision no source descriptor has.
pub fn project_merge_execution(profile_id: &str, execution: MergeExecutionReport) -> (r: Result<
    NativeMergeResult,
    CoreError,
>)
    ensures
        match r {
            Ok(res) => segments_resolve(execution) && execution_projected(profile_id@, execution, res),
            Err(e) => !segments_resolve(execution) && error_is(e, "invalid_byte_evidence"@, "missing source descriptor"@),
        },
{
    let ghost e = execution;
    let mut segments: Vec<RetainedSourceSegment> = Vec::new();
    let mut i: usize = 0;
    while i < execution.segments.len()
        invariant
            e == execution,
            i <= e.segments@.len(),
            segments@.len() == i,
            forall|k: int| 0 <= k < i ==> first_with_role(e.sources@, revision_role(#[trigger] e.segments@[k].revision)) is Some,
            forall|k: int|
                0 <= k < i ==> retained_from(
                    #[trigger] segments@[k],
                    e.segments@[k],
                    first_with_role(e.sources@, revision_role(e.segments@[k].revision))->0,
                ),
        decreases e.segments@.len() - i,
    {
        let segment = &execution.segments[i];
        let role = role_of(segment.revision);
        let k = match find_role(&execution.sources, role) {
            Some(k) => k,
            None => {
                proof {
                    assert(first_with_role(e.sources@, revision_role(e.segments@[i as int].revision)) is None);
                }
                return Err(CoreError { code: owned("invalid_byte_evidence"), message: owned("missing source descriptor") });
            },
        };
        let source = &execution.sources[k];
        segments.push(
            RetainedSourceSegment {
                id: copy_string(&segment.id),
                source_id: copy_string(&source.source_id),
                source_role: role,
                source_range: segment.source_range,
                output_range: segment.output_range,
                sha256: copy_string(&segment.sha256),
                owner_id: copy_opt_string(&segment.owner_id),
            },
        );
        i = i + 1;
    }
    let MergeExecutionReport {
        sources,
        output_source,
        outcome,
        diagnostics,
        conflicts,
        policies,
        output,
        segments: _,
        input_parses,
        output_parse,
        verification_error,
    } = execution;
    let verification_failure = match &verification_error {
        Some(v) => Some(ParserFailure::from_service(v)),
        None => None,
    };
    Ok(
        NativeMergeResult {
            profile_id: owned(profile_id),
            outcome,
            diagnostics,
            conflicts,
            output,
            policies,
            rejected_parse: None,
            input_parses,
            output_parse,
            verification_failure,
            input_failure: None,
            analysis_rejections: Vec::new(),
            sources,
            output_source,
            source_segments: segments,
        },
    )
}

/// The result of a native three-way entry point, from what its execution
/// reported or why it stopped.
pub fn project_merge_result(profile_id: &str, result: Result<MergeExecutionReport, NativeMergeError>) -> (r: Result<
    NativeMergeResult,
    CoreError,
>)
    ensures
        match result {
            Ok(execution) => match r {
                Ok(res) => segments_resolve(execution) && execution_projected(profile_id@, execution, res),
                Err(e) => !segments_resolve(execution) && error_is(
                    e,
                    "invalid_byte_evidence"@,
                    "missing source descriptor"@,
                ),
            },
            Err(error) => failure_projected(profile_id@, error, r),
        },
{
    match result {
        Ok(execution) => project_merge_execution(profile_id, execution),
        Err(error) => project_merge_failure(profile_id, error),
    }
}

/// An input parse failure becomes result evidence exactly when its core code
/// is neither a control (cancellation, deadline), a resource limit, nor an
/// invalid request or source.
pub proof fn law_input_failures_are_evidence_unless_control_or_limit(e: ServiceError)
    ensures
        failure_is_evidence(e) <==> !(service_code(e) == "request.invalid"@ || service_code(e) == "resource.limit"@
            || service_code(e) == "execution.cancelled"@ || service_code(e) == "execution.deadline_exceeded"@
            || service_code(e) == "source.invalid"@),
{
    reveal_strlit("request.invalid");
    reveal_strlit("resource.limit");
    reveal_strlit("execution.cancelled");
    reveal_strlit("execution.deadline_exceeded");
    reveal_strlit("source.invalid");
    reveal_strlit("selection.no_parser");
    reveal_strlit("parser.provider_fault");
    reveal_strlit("parser.provider_panic");
    reveal_strlit("parser.invalid_batch");
    reveal_strlit("parser.invalid_result");
    assert("selection.no_parser"@ != "execution.cancelled"@) by {
        assert("selection.no_parser"@[0] != "execution.cancelled"@[0]);
    }
    let c = service_code(e);
    if e is Source {
        assert(c == "resource.limit"@ || c == "source.invalid"@);
    } else if e is InvalidResult {
        assert(c == "resource.limit"@ || c == "parser.invalid_result"@);
    } else if e is Selection {
        assert(c == "selection.no_parser"@);
        assert(c != "request.invalid"@);
        assert(c != "resource.limit"@);
        assert(c != "execution.cancelled"@);
        assert(c != "execution.deadline_exceeded"@);
        assert(c != "source.invalid"@);
    } else if e is Provider {
        assert(c == "parser.provider_fault"@);
    } else if e is ProviderPanic {
        assert(c == "parser.provider_panic"@);
    } else if e is InvalidBatch {
        assert(c == "parser.invalid_batch"@);
    }
}

} // verus!
