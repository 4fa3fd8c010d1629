//! Checks on the evidence of a successful native result: its preservation
//! properties and the parse results it embeds. These check consistency with
//! the request; they do not authenticate a parser.
use crate::host::{CoreParseResult, ParserCandidate, ParserProviderDescriptor, SelectionReport};
use crate::merge::{revision_role, RenderedSegment, RetainedSourceSegment};
use crate::native_analysis_projection::same_strings;
use crate::native_conflict_projection::SourceRevision;
use crate::native_operation::{native_target, native_target_spec};
use crate::operation::{policy_kind, roles_exact, OperationRequest, OperationSource, ValidatedOperationRequest};
use crate::operation_result::{
    opt_view, string_views, OperationResult, PreservationProperty, ResultContractError, ResultSourceRegion,
};
use crate::profiles::PARSE_RESULT_SCHEMA;
use crate::source::{document_error, first_document_error, ByteRange, SourceRole};
use crate::text::{str_bytes, str_eq, utf8_of};
use crate::{kind_roles, OperationKind};
use vstd::prelude::*;

verus! {

/// Exactly one preservation property has the name, and it is required and
/// passed.
pub open spec fn property_proven(ps: Seq<PreservationProperty>, name: Seq<char>) -> bool {
    exists|k: int|
        0 <= k < ps.len() && (#[trigger] ps[k]).property@ == name && ps[k].required && ps[k].status@
            == "passed"@ && forall|j: int| 0 <= j < ps.len() && j != k ==> (#[trigger] ps[j]).property@ != name
}

/// The result carries exactly one required, passed preservation property of
/// the given name.
pub fn validate_property(result: &OperationResult, name: &str) -> (r: Result<(), ResultContractError>)
    ensures
        r is Ok <==> (result.verification.preservation matches Some(ps) && property_proven(ps@, name@)),
        r matches Err(e) ==> e == ResultContractError::InvalidSourceEvidence,
{
    let properties = match &result.verification.preservation {
        Some(ps) => ps,
        None => return Err(ResultContractError::InvalidSourceEvidence),
    };
    let mut found: Option<usize> = None;
    let mut k: usize = 0;
    while k < properties.len()
        invariant
            result.verification.preservation == Some(*properties),
            k <= properties@.len(),
            match found {
                Some(f) => f < k && properties@[f as int].property@ == name@ && forall|j: int|
                    0 <= j < k && j != f ==> (#[trigger] properties@[j]).property@ != name@,
                None => forall|j: int| 0 <= j < k ==> (#[trigger] properties@[j]).property@ != name@,
            },
        decreases properties@.len() - k,
    {
        if str_eq(properties[k].property.as_str(), name) {
            match found {
                Some(f) => {
                    proof {
                        if property_proven(properties@, name@) {
                            let w = choose|w: int|
                                0 <= w < properties@.len() && (#[trigger] properties@[w]).property@ == name@
                                    && properties@[w].required && properties@[w].status@ == "passed"@ && forall|j: int|
                                    0 <= j < properties@.len() && j != w ==> (#[trigger] properties@[j]).property@ != name@;
                            if w == f as int {
                                assert(properties@[k as int].property@ == name@);
                            } else {
                                assert(properties@[f as int].property@ == name@);
                            }
                        }
                    }
                    return Err(ResultContractError::InvalidSourceEvidence);
                },
                None => {
                    found = Some(k);
                },
            }
        }
        k = k + 1;
    }
    match found {
        Some(f) => {
            let p = &properties[f];
            if p.required && str_eq(p.status.as_str(), "passed") {
                Ok(())
            } else {
                proof {
                    if property_proven(properties@, name@) {
                        let w = choose|w: int|
                            0 <= w < properties@.len() && (#[trigger] properties@[w]).property@ == name@
                                && properties@[w].required && properties@[w].status@ == "passed"@ && forall|j: int|
                                0 <= j < properties@.len() && j != w ==> (#[trigger] properties@[j]).property@ != name@;
                        if w != f as int {
                            assert(properties@[f as int].property@ == name@);
                        }
                    }
                }
                Err(ResultContractError::InvalidSourceEvidence)
            }
        },
        None => Err(ResultContractError::InvalidSourceEvidence),
    }
}

/// The candidate at `i` is the only one the selection chose.
pub open spec fn sole_selected(cs: Seq<ParserCandidate>, i: int) -> bool {
    &&& 0 <= i < cs.len()
    &&& cs[i].selected
    &&& forall|j: int| 0 <= j < cs.len() && j != i ==> !(#[trigger] cs[j]).selected
}

/// A chosen candidate is the backend itself, available, loadable, not
/// rejected and probed without fault.
pub open spec fn candidate_clean(c: ParserCandidate, backend_id: Seq<char>) -> bool {
    &&& c.backend_id@ == backend_id
    &&& c.available == Some(true)
    &&& c.loadable == Some(true)
    &&& c.rejections@.len() == 0
    &&& c.probe_fault is None
}

/// A parse result is accepted evidence of its backend: the parse-result
/// contract, an accepted output, and a selection that chose exactly this
/// backend and nothing else, cleanly.
pub open spec fn parse_evidence_ok(core: CoreParseResult) -> bool {
    &&& core.schema@ == PARSE_RESULT_SCHEMA@
    &&& core.parsed.ok
    &&& opt_view(core.selection.selected_backend) == Some(core.backend.id@)
    &&& exists|i: int|
        sole_selected(core.selection.candidates@, i) && candidate_clean(
            #[trigger] core.selection.candidates@[i],
            core.backend.id@,
        )
}

fn opt_is_id(o: &Option<String>, id: &String) -> (b: bool)
    ensures
        b == (opt_view(*o) == Some(id@)),
{
    match o {
        Some(s) => str_eq(s.as_str(), id.as_str()),
        None => false,
    }
}

/// Whether a parse result is accepted evidence of its backend.
pub fn check_parse_evidence(core: &CoreParseResult) -> (b: bool)
    ensures
        b == parse_evidence_ok(*core),
{
    if !str_eq(core.schema.as_str(), PARSE_RESULT_SCHEMA) || !core.parsed.ok || !opt_is_id(
        &core.selection.selected_backend,
        &core.backend.id,
    ) {
        return false;
    }
    let cs = &core.selection.candidates;
    let mut found: Option<usize> = None;
    let mut k: usize = 0;
    while k < cs.len()
        invariant
            cs == &core.selection.candidates,
            k <= cs@.len(),
            match found {
                Some(f) => f < k && cs@[f as int].selected && forall|j: int|
                    0 <= j < k && j != f ==> !(#[trigger] cs@[j]).selected,
                None => forall|j: int| 0 <= j < k ==> !(#[trigger] cs@[j]).selected,
            },
        decreases cs@.len() - k,
    {
        if cs[k].selected {
            if let Some(f) = found {
                proof {
                    assert(f < k && cs@[f as int].selected && cs@[k as int].selected);
                    assert forall|i: int| #![trigger cs@[i]] !sole_selected(cs@, i) by {
                        if sole_selected(cs@, i) {
                            if i == f {
                                assert(k as int != i);
                                assert(!cs@[k as int].selected);
                            } else {
                                assert(!cs@[f as int].selected);
                            }
                        }
                    }
                    assert(!parse_evidence_ok(*core));
                }
                return false;
            }
            found = Some(k);
        }
        k = k + 1;
    }
    match found {
        None => {
            proof {
                assert forall|i: int| #![trigger cs@[i]] !sole_selected(cs@, i) by {
                    if 0 <= i < cs@.len() {
                        assert(!cs@[i].selected);
                    }
                }
            }
            false
        },
        Some(f) => {
            let c = &cs[f];
            let clean = str_eq(c.backend_id.as_str(), core.backend.id.as_str()) && c.available == Some(true)
                && c.loadable == Some(true) && c.rejections.len() == 0 && c.probe_fault.is_none();
            proof {
                assert(sole_selected(cs@, f as int));
                assert forall|i: int| #![trigger cs@[i]] sole_selected(cs@, i) implies i == f by {
                    if i != f {
                        assert(!cs@[f as int].selected);
                    }
                }
            }
            clean
        },
    }
}

/// A successful native merge, whose parse evidence is checked.
pub open spec fn merge_evidence_applies(res: OperationResult) -> bool {
    &&& res.ok
    &&& (res.operation == OperationKind::Merge2 || res.operation == OperationKind::Merge3)
    &&& res.profile.profile_id matches Some(id) && native_target_spec(id@) is Some
}

/// An absent source, or one with another identity.
pub open spec fn other_identity(o: Option<OperationSource>, id: Seq<char>) -> bool {
    match o {
        Some(s) => s.source_id@ != id,
        None => true,
    }
}

/// Two selections made against one registry snapshot.
pub open spec fn same_snapshot(a: SelectionReport, b: SelectionReport) -> bool {
    a.generation == b.generation && a.digest@ == b.digest@
}

pub open spec fn same_backend(a: ParserProviderDescriptor, b: ParserProviderDescriptor) -> bool {
    &&& a.id@ == b.id@
    &&& string_views(a.languages@) == string_views(b.languages@)
    &&& string_views(a.contracts@) == string_views(b.contracts@)
    &&& string_views(a.capabilities@) == string_views(b.capabilities@)
    &&& a.record@ == b.record@
}

/// One parse result per source role of the merge, in role order, each role
/// a source of the request, each parse accepted evidence of its backend,
/// and all selected against the first one's registry snapshot.
pub open spec fn input_parses_ok(inputs: Seq<CoreParseResult>, res: OperationResult, req: OperationRequest) -> bool {
    &&& inputs.len() == kind_roles(res.operation).len()
    &&& inputs.len() > 0
    &&& forall|i: int|
        0 <= i < inputs.len() ==> {
            &&& req.sources.spec_get(kind_roles(res.operation)[i]) is Some
            &&& parse_evidence_ok(#[trigger] inputs[i])
            &&& same_snapshot(inputs[i].selection, inputs[0].selection)
        }
}

/// The output's parse: of the result's output text, under the output role
/// and an identity no request source has, accepted evidence selected against
/// the inputs' snapshot, by a backend that parsed an input.
pub open spec fn output_parse_ok(
    out: CoreParseResult,
    inputs: Seq<CoreParseResult>,
    res: OperationResult,
    req: OperationRequest,
) -> bool {
    &&& res.output matches Some(text) && document_error(
        out.parsed.source,
        utf8_of(text@),
        utf8_of(text@).len() as int,
    ) is None
    &&& out.parsed.source.role == SourceRole::Output
    &&& forall|role: SourceRole| other_identity(#[trigger] req.sources.spec_get(role), out.parsed.source.source_id@)
    &&& same_snapshot(out.selection, inputs[0].selection)
    &&& exists|i: int| 0 <= i < inputs.len() && same_backend(#[trigger] inputs[i].backend, out.backend)
    &&& parse_evidence_ok(out)
}

/// The embedded input and output parse results are consistent evidence of
/// the merge.
pub open spec fn merge_parses_accepted(
    res: OperationResult,
    req: OperationRequest,
    inputs: Option<Vec<CoreParseResult>>,
    output: Option<CoreParseResult>,
) -> bool {
    match (inputs, output) {
        (Some(i), Some(o)) => input_parses_ok(i@, res, req) && output_parse_ok(o, i@, res, req),
        _ => false,
    }
}

pub(crate) fn same_backend_check(a: &ParserProviderDescriptor, b: &ParserProviderDescriptor) -> (r: bool)
    ensures
        r == same_backend(*a, *b),
{
    str_eq(a.id.as_str(), b.id.as_str()) && same_strings(&a.languages, &b.languages) && same_strings(
        &a.contracts,
        &b.contracts,
    ) && same_strings(&a.capabilities, &b.capabilities) && str_eq(a.record.as_str(), b.record.as_str())
}

pub(crate) fn same_snapshot_check(a: &SelectionReport, b: &SelectionReport) -> (r: bool)
    ensures
        r == same_snapshot(*a, *b),
{
    a.generation == b.generation && str_eq(a.digest.as_str(), b.digest.as_str())
}

fn inputs_check(inputs: &Vec<CoreParseResult>, result: &OperationResult, request: &OperationRequest) -> (r: bool)
    ensures
        r == input_parses_ok(inputs@, *result, *request),
{
    let roles = result.operation.source_roles();
    if inputs.len() != roles.len() || inputs.len() == 0 {
        return false;
    }
    let mut i: usize = 0;
    while i < inputs.len()
        invariant
            roles@ == kind_roles(result.operation),
            inputs@.len() == roles@.len(),
            inputs@.len() > 0,
            i <= inputs@.len(),
            forall|j: int|
                0 <= j < i ==> {
                    &&& request.sources.spec_get(kind_roles(result.operation)[j]) is Some
                    &&& parse_evidence_ok(#[trigger] inputs@[j])
                    &&& same_snapshot(inputs@[j].selection, inputs@[0].selection)
                },
        decreases inputs@.len() - i,
    {
        if !(request.sources.contains_key(roles[i]) && check_parse_evidence(&inputs[i]) && same_snapshot_check(
            &inputs[i].selection,
            &inputs[0].selection,
        )) {
            return false;
        }
        i = i + 1;
    }
    true
}

fn backend_among(inputs: &Vec<CoreParseResult>, backend: &ParserProviderDescriptor) -> (r: bool)
    ensures
        r == exists|i: int| 0 <= i < inputs@.len() && same_backend(#[trigger] inputs@[i].backend, *backend),
{
    let mut i: usize = 0;
    while i < inputs.len()
        invariant
            i <= inputs@.len(),
            forall|j: int| 0 <= j < i ==> !same_backend(#[trigger] inputs@[j].backend, *backend),
        decreases inputs@.len() - i,
    {
        if same_backend_check(&inputs[i].backend, backend) {
            return true;
        }
        i = i + 1;
    }
    false
}

pub(crate) fn output_id_fresh(request: &ValidatedOperationRequest, id: &String) -> (r: bool)
    ensures
        r == forall|role: SourceRole| other_identity(#[trigger] request.spec_request().sources.spec_get(role), id@),
{
    let r = request.request();
    let roles = r.operation.kind().source_roles();
    let mut i: usize = 0;
    while i < roles.len()
        invariant
            roles@ == kind_roles(policy_kind(r.operation)),
            *r == request.spec_request(),
            roles_exact(r.sources, policy_kind(r.operation)),
            i <= roles@.len(),
            forall|j: int|
                0 <= j < i ==> other_identity(#[trigger] r.sources.spec_get(roles@[j]), id@),
        decreases roles@.len() - i,
    {
        match r.sources.get(roles[i]) {
            Some(s) => {
                if str_eq(s.source_id.as_str(), id.as_str()) {
                    return false;
                }
            },
            None => {},
        }
        i = i + 1;
    }
    proof {
        assert forall|role: SourceRole| other_identity(#[trigger] r.sources.spec_get(role), id@) by {
            if r.sources.spec_get(role) is Some {
                assert(kind_roles(policy_kind(r.operation)).contains(role));
                let j = choose|j: int| 0 <= j < roles@.len() && roles@[j] == role;
                assert(r.sources.spec_get(roles@[j]) is Some);
            }
        }
    }
    true
}

/// Check the parse evidence a successful native merge embeds: `inputs` are
/// its input parse results and `output` the parse of its output, `None`
/// where absent or unreadable. A result that is not a successful merge of a
/// native owner profile passes with `false`; otherwise the result is `true`,
/// the byte partition of the output still to be checked against the render
/// evidence, or `InvalidSourceEvidence` exactly when
/// `merge_parses_accepted` fails. This checks consistency of evidence; it
/// does not authenticate a parser.
pub fn validate_merge_parses(
    result: &OperationResult,
    request: &ValidatedOperationRequest,
    inputs: &Option<Vec<CoreParseResult>>,
    output: &Option<CoreParseResult>,
) -> (r: Result<bool, ResultContractError>)
    ensures
        !merge_evidence_applies(*result) ==> r == Ok::<bool, ResultContractError>(false),
        merge_evidence_applies(*result) ==> match r {
            Ok(b) => b && merge_parses_accepted(*result, request.spec_request(), *inputs, *output),
            Err(e) => e == ResultContractError::InvalidSourceEvidence && !merge_parses_accepted(
                *result,
                request.spec_request(),
                *inputs,
                *output,
            ),
        },
{
    let native = match &result.profile.profile_id {
        Some(id) => native_target(id.as_str()).is_some(),
        None => false,
    };
    if !(result.ok && (result.operation == OperationKind::Merge2 || result.operation == OperationKind::Merge3)
        && native) {
        return Ok(false);
    }
    let (ins, out) = match (inputs, output) {
        (Some(i), Some(o)) => (i, o),
        _ => {
            return Err(ResultContractError::InvalidSourceEvidence);
        },
    };
    if !inputs_check(ins, result, request.request()) {
        return Err(ResultContractError::InvalidSourceEvidence);
    }
    let text = match &result.output {
        Some(t) => t,
        None => {
            return Err(ResultContractError::InvalidSourceEvidence);
        },
    };
    let bytes = str_bytes(text.as_str());
    let accepted = first_document_error(&out.parsed.source, bytes, bytes.len() as u64).is_none()
        && out.parsed.source.role == SourceRole::Output && output_id_fresh(request, &out.parsed.source.source_id)
        && same_snapshot_check(&out.selection, &ins[0].selection) && backend_among(ins, &out.backend)
        && check_parse_evidence(out);
    if accepted {
        Ok(true)
    } else {
        Err(ResultContractError::InvalidSourceEvidence)
    }
}

/// A retained region reports a segment exactly: its source, role, source
/// range and digest, with `projected` the output range the region records.
pub open spec fn region_matches(
    region: ResultSourceRegion,
    source_id: Seq<char>,
    role: SourceRole,
    source_range: ByteRange,
    output_range: ByteRange,
    sha256: Seq<char>,
    projected: Option<ByteRange>,
) -> bool {
    &&& region.source_id@ == source_id
    &&& region.source_role == role
    &&& region.range.start_byte == source_range.start_byte
    &&& region.range.end_byte == source_range.end_byte
    &&& opt_view(region.sha256) == Some(sha256)
    &&& projected == Some(output_range)
}

/// Whether a retained region reports a segment exactly; `projected` is the
/// output range the region records, `None` where absent or unreadable.
pub fn validate_region(
    region: &ResultSourceRegion,
    source_id: &str,
    role: SourceRole,
    source_range: &ByteRange,
    output_range: &ByteRange,
    sha256: &str,
    projected: Option<ByteRange>,
) -> (r: Result<(), ResultContractError>)
    ensures
        r is Ok <==> region_matches(*region, source_id@, role, *source_range, *output_range, sha256@, projected),
        r matches Err(e) ==> e == ResultContractError::InvalidSourceEvidence,
{
    let projected_ok = match projected {
        Some(p) => p.start_byte == output_range.start_byte && p.end_byte == output_range.end_byte,
        None => false,
    };
    let digest_ok = match &region.sha256 {
        Some(d) => str_eq(d.as_str(), sha256),
        None => false,
    };
    if str_eq(region.source_id.as_str(), source_id) && region.source_role == role && region.range.start_byte
        == source_range.start_byte && region.range.end_byte == source_range.end_byte && digest_ok && projected_ok {
        Ok(())
    } else {
        Err(ResultContractError::InvalidSourceEvidence)
    }
}

/// The retained regions of a directional merge report its source segments
/// one for one, in order.
pub open spec fn directional_regions_ok(
    regions: Seq<ResultSourceRegion>,
    segments: Seq<RetainedSourceSegment>,
    projected: Seq<Option<ByteRange>>,
) -> bool {
    &&& regions.len() == segments.len()
    &&& forall|i: int|
        0 <= i < regions.len() ==> region_matches(
            #[trigger] regions[i],
            segments[i].source_id@,
            segments[i].source_role,
            segments[i].source_range,
            segments[i].output_range,
            segments[i].sha256@,
            projected[i],
        )
}

/// Whether a directional merge's retained regions report its source
/// segments one for one; `projected[i]` is the output range region `i`
/// records.
pub fn validate_directional_regions(
    regions: &Vec<ResultSourceRegion>,
    segments: &Vec<RetainedSourceSegment>,
    projected: &Vec<Option<ByteRange>>,
) -> (r: Result<(), ResultContractError>)
    requires
        projected@.len() == regions@.len(),
    ensures
        r is Ok <==> directional_regions_ok(regions@, segments@, projected@),
        r matches Err(e) ==> e == ResultContractError::InvalidSourceEvidence,
{
    if regions.len() != segments.len() {
        return Err(ResultContractError::InvalidSourceEvidence);
    }
    let mut i: usize = 0;
    while i < regions.len()
        invariant
            regions@.len() == segments@.len(),
            projected@.len() == regions@.len(),
            i <= regions@.len(),
            forall|j: int|
                0 <= j < i ==> region_matches(
                    #[trigger] regions@[j],
                    segments@[j].source_id@,
                    segments@[j].source_role,
                    segments@[j].source_range,
                    segments@[j].output_range,
                    segments@[j].sha256@,
                    projected@[j],
                ),
        decreases regions@.len() - i,
    {
        let s = &segments[i];
        if validate_region(
            &regions[i],
            s.source_id.as_str(),
            s.source_role,
            &s.source_range,
            &s.output_range,
            s.sha256.as_str(),
            projected[i],
        ).is_err() {
            return Err(ResultContractError::InvalidSourceEvidence);
        }
        i = i + 1;
    }
    Ok(())
}

/// The retained regions of a three-way merge report its source segments one
/// for one, in order, each under the request's source for the segment's
/// revision; the request has a source for every revision.
pub open spec fn three_way_regions_ok(
    regions: Seq<ResultSourceRegion>,
    segments: Seq<RenderedSegment>,
    projected: Seq<Option<ByteRange>>,
    req: OperationRequest,
) -> bool {
    &&& req.sources.spec_get(SourceRole::Base) is Some
    &&& req.sources.spec_get(SourceRole::Ours) is Some
    &&& req.sources.spec_get(SourceRole::Theirs) is Some
    &&& regions.len() == segments.len()
    &&& forall|i: int|
        0 <= i < regions.len() ==> region_matches(
            #[trigger] regions[i],
            req.sources.spec_get(revision_role(segments[i].revision))->0.source_id@,
            revision_role(segments[i].revision),
            segments[i].source_range,
            segments[i].output_range,
            segments[i].sha256@,
            projected[i],
        )
}

fn role_of_revision(r: SourceRevision) -> (role: SourceRole)
    ensures
        role == revision_role(r),
{
    match r {
        SourceRevision::Base => SourceRole::Base,
        SourceRevision::Ours => SourceRole::Ours,
        SourceRevision::Theirs => SourceRole::Theirs,
    }
}

/// Whether a three-way merge's retained regions report its source segments
/// one for one, each under the request's source for its revision;
/// `projected[i]` is the output range region `i` records.
pub fn validate_three_way_regions(
    regions: &Vec<ResultSourceRegion>,
    segments: &Vec<RenderedSegment>,
    projected: &Vec<Option<ByteRange>>,
    request: &ValidatedOperationRequest,
) -> (r: Result<(), ResultContractError>)
    requires
        projected@.len() == regions@.len(),
    ensures
        r is Ok <==> three_way_regions_ok(regions@, segments@, projected@, request.spec_request()),
        r matches Err(e) ==> e == ResultContractError::InvalidSourceEvidence,
{
    let req = request.request();
    if !(req.sources.contains_key(SourceRole::Base) && req.sources.contains_key(SourceRole::Ours)
        && req.sources.contains_key(SourceRole::Theirs)) || regions.len() != segments.len() {
        return Err(ResultContractError::InvalidSourceEvidence);
    }
    let mut i: usize = 0;
    while i < regions.len()
        invariant
            *req == request.spec_request(),
            req.sources.spec_get(SourceRole::Base) is Some,
            req.sources.spec_get(SourceRole::Ours) is Some,
            req.sources.spec_get(SourceRole::Theirs) is Some,
            regions@.len() == segments@.len(),
            projected@.len() == regions@.len(),
            i <= regions@.len(),
            forall|j: int|
                0 <= j < i ==> region_matches(
                    #[trigger] regions@[j],
                    req.sources.spec_get(revision_role(segments@[j].revision))->0.source_id@,
                    revision_role(segments@[j].revision),
                    segments@[j].source_range,
                    segments@[j].output_range,
                    segments@[j].sha256@,
                    projected@[j],
                ),
        decreases regions@.len() - i,
    {
        let s = &segments[i];
        let role = role_of_revision(s.revision);
        let source = req.sources.get_present(role);
        if validate_region(
            &regions[i],
            source.source_id.as_str(),
            role,
            &s.source_range,
            &s.output_range,
            s.sha256.as_str(),
            projected[i],
        ).is_err() {
            return Err(ResultContractError::InvalidSourceEvidence);
        }
        i = i + 1;
    }
    Ok(())
}

} // verus!
