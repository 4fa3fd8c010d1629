//! Workflow batch records and the rule that guards host registration:
//! compiled provider identities cannot be mutated through the host API.
use crate::host::{service_code, service_message, CoreError, ParseLimits, ServiceError};
use crate::native_operation::{absent_or, is_absent_or};
use crate::operation::{
    all_inline, bind_run, declared_sum, lemma_refused_bind, policy_kind, pre_error, refused_outcome, req_roles,
    request_outcome, spent_before, validated_sources, OperationRequest, OperationRequestErrorCode, OperationSource, ValidatedOperationRequest,
};
use crate::operation_result::{opt_str_eq, opt_view, result_error, string_views, OperationResult};
use crate::capabilities::ParserSelectionRequest;
use crate::profiles::{
    operation_parse_options, operation_profile_catalog, parse_options_for, profile_parser_language,
    profile_parser_language_spec, OperationProfileCatalog, OperationProfileDeclaration, ParseOptions,
};
use crate::OperationKind;
use crate::text::{copy_string, owned, str_eq};
use vstd::prelude::*;

verus! {

#[derive(Clone, Debug, PartialEq, Eq)]
pub struct WorkflowOperation {
    pub operation: OperationRequest,
    /// Parser language and dialect are explicit, never inferred from
    /// provider names.
    pub parser_language: String,
    pub parser_dialect: Option<String>,
    pub parse_options: ParseOptions,
}

#[derive(Clone, Debug, PartialEq, Eq)]
pub struct WorkflowBatchRequest {
    pub items: Vec<WorkflowOperation>,
}

/// Caller-required registry state; not authentication and not a lease.
#[derive(Clone, Debug, PartialEq, Eq)]
pub struct WorkflowRegistryExpectation {
    pub provider_generation: u64,
    pub provider_digest: String,
    pub parser_generation: u64,
    pub parser_digest: String,
}

#[derive(Clone, Debug, PartialEq, Eq)]
pub struct WorkflowBatchResult {
    pub items: Vec<OperationResult>,
}

#[derive(Clone, Debug, PartialEq, Eq)]
pub struct WorkflowLimits {
    pub max_operations: usize,
    /// Serialized typed request and callback-response budgets.
    pub max_request_bytes: usize,
    pub max_response_bytes: usize,
    /// The input-byte budget is cumulative across a batch.
    pub parse: ParseLimits,
}

#[derive(Clone, Copy, Debug, PartialEq, Eq, Structural)]
pub enum WorkflowExecutionOwner {
    Host,
    Kernel,
}

/// The provider identities of the compiled profiles.
pub open spec fn compiled_providers() -> Seq<Seq<char>> {
    seq![
        "kernel.bash"@,
        "kernel.git.json"@,
        "kernel.go"@,
        "kernel.json"@,
        "kernel.python"@,
        "kernel.rust"@,
        "kernel.typescript"@,
        "kernel.yaml"@,
    ]
}

pub fn error(code: &str, message: &str) -> (e: CoreError)
    ensures
        e.code@ == code@,
        e.message@ == message@,
{
    CoreError { code: owned(code), message: owned(message) }
}

/// A host may register, replace or remove only identities that no compiled
/// profile owns.
pub fn require_host_id(id: &str) -> (r: Result<(), CoreError>)
    ensures
        r is Ok <==> !compiled_providers().contains(id@),
        r matches Err(e) ==> e.code@ == "workflow.reserved_provider"@ && e.message@
            == "compiled provider IDs cannot be mutated through the host API"@,
{
    let catalog = operation_profile_catalog();
    let profiles = &catalog.profiles;
    proof {
        assert forall|k: int| 0 <= k < 8 implies profiles@[k].provider_id@ == compiled_providers()[k] by {}
    }
    let mut k: usize = 0;
    while k < profiles.len()
        invariant
            profiles@.len() == 8,
            k <= 8,
            forall|q: int| 0 <= q < 8 ==> (#[trigger] profiles@[q]).provider_id@ == compiled_providers()[q],
            forall|q: int| 0 <= q < k ==> compiled_providers()[q] != id@,
        decreases 8 - k,
    {
        if str_eq(profiles[k].provider_id.as_str(), id) {
            return Err(
                error(
                    "workflow.reserved_provider",
                    "compiled provider IDs cannot be mutated through the host API",
                ),
            );
        }
        k = k + 1;
    }
    Ok(())
}

/// A batch is refused before any item is examined when it is empty or holds
/// more operations than the limit allows.
pub fn check_workflow_batch_size(items: &Vec<WorkflowOperation>, max_operations: usize) -> (r: Result<(), CoreError>)
    ensures
        items@.len() == 0 ==> (r matches Err(e) && e.code@ == "workflow.invalid_request"@ && e.message@
            == "workflow batch is empty"@),
        items@.len() > 0 && items@.len() > max_operations ==> (r matches Err(e) && e.code@ == "resource.limit"@
            && e.message@ == "workflow batch exceeds operation limit"@),
        0 < items@.len() <= max_operations ==> r is Ok,
{
    if items.len() == 0 {
        return Err(error("workflow.invalid_request", "workflow batch is empty"));
    }
    if items.len() > max_operations {
        return Err(error("resource.limit", "workflow batch exceeds operation limit"));
    }
    Ok(())
}

/// The operations of a batch's items.
pub open spec fn workflow_ops(items: Seq<WorkflowOperation>) -> Seq<OperationRequest> {
    items.map_values(|w: WorkflowOperation| w.operation)
}

/// An item repeats an earlier identity, names another provider, or has an
/// empty parser language or dialect.
pub open spec fn item_query_bad(items: Seq<WorkflowOperation>, i: int, provider_id: Seq<char>) -> bool {
    let op = items[i].operation;
    ||| exists|j: int| 0 <= j < i && #[trigger] items[j].operation.request_id@ == op.request_id@
    ||| !absent_or(op.provider_selection.provider_id, provider_id)
    ||| items[i].parser_language@.len() == 0
    ||| (items[i].parser_dialect matches Some(d) && d@.len() == 0)
}

/// An item asks for a parser profile, a language version, an unknown
/// selection field, or an extension capability, none of which a workflow
/// implements.
pub open spec fn item_constraint_bad(op: OperationRequest) -> bool {
    ||| op.parser_selection.profile_id is Some
    ||| op.parser_selection.language_version is Some
    ||| op.parser_selection.extra.entries@.len() != 0
    ||| op.provider_selection.extra.entries@.len() != 0
    ||| exists|j: int| 0 <= j < op.extensions@.len() && (#[trigger] op.extensions@[j]).capabilities@.len() != 0
}

/// The first failure of the `i`-th item of a batch under the byte budget
/// its predecessors leave, with the code and message it is reported with.
pub open spec fn workflow_item_error(
    items: Seq<WorkflowOperation>,
    i: int,
    provider_id: Seq<char>,
    remaining: int,
    max_batch_items: int,
) -> Option<(Seq<char>, Seq<char>)> {
    let op = items[i].operation;
    if item_query_bad(items, i, provider_id) {
        Some(("workflow.invalid_request"@, "workflow identity or parser query is invalid"@))
    } else if item_constraint_bad(op) {
        Some(
            (
                "workflow.unsupported_parser_constraint"@,
                "requested selector or required extension constraint is not implemented"@,
            ),
        )
    } else {
        match refused_outcome(op, remaining, "workflow requires checked inline sources"@) {
            Some((code, _, _)) => Some(
                (
                    if code == OperationRequestErrorCode::ResourceLimit {
                        "resource.limit"@
                    } else {
                        "workflow.invalid_request"@
                    },
                    "workflow source/request validation failed"@,
                ),
            ),
            None => if req_roles(op).len() > max_batch_items {
                Some(("resource.limit"@, "workflow source batch exceeds parse limit"@))
            } else {
                None
            },
        }
    }
}

/// The first failing item of a batch from the `i`-th on.
pub open spec fn workflow_scan(
    items: Seq<WorkflowOperation>,
    provider_id: Seq<char>,
    max: int,
    max_batch_items: int,
    i: int,
) -> Option<(Seq<char>, Seq<char>)>
    decreases items.len() - i,
{
    if i < 0 || i >= items.len() {
        None
    } else if workflow_item_error(items, i, provider_id, max - spent_before(workflow_ops(items), i), max_batch_items)
        is Some {
        workflow_item_error(items, i, provider_id, max - spent_before(workflow_ops(items), i), max_batch_items)
    } else {
        workflow_scan(items, provider_id, max, max_batch_items, i + 1)
    }
}

fn constraint_bad(op: &OperationRequest) -> (b: bool)
    ensures
        b == item_constraint_bad(*op),
{
    if op.parser_selection.profile_id.is_some() || op.parser_selection.language_version.is_some()
        || !op.parser_selection.extra.is_empty() || !op.provider_selection.extra.is_empty() {
        return true;
    }
    let mut j: usize = 0;
    while j < op.extensions.len()
        invariant
            j <= op.extensions@.len(),
            forall|k: int| 0 <= k < j ==> (#[trigger] op.extensions@[k]).capabilities@.len() == 0,
        decreases op.extensions@.len() - j,
    {
        if op.extensions[j].capabilities.len() != 0 {
            return true;
        }
        j = j + 1;
    }
    false
}

/// A workflow never resolves a source reference: every request for the
/// bytes of one is refused with the same message.
fn refuse_unresolved(_s: &OperationSource, _n: u64) -> (r: Result<Vec<u8>, String>)
    ensures
        r matches Err(m) && m@ == "workflow requires checked inline sources"@,
{
    Err(owned("workflow requires checked inline sources"))
}

/// Normalize every item of a workflow batch, in order, before any parser
/// probe or execution: identity and parser query, unsupported constraints,
/// the request itself under the budget the earlier items leave (a workflow
/// never resolves a source reference, so a request holding one is refused),
/// and the number of sources a parse batch may hold. A failure returns no
/// partial batch, and is exactly the first `workflow_scan` finds.
pub fn normalize_workflow_items(
    provider_id: &str,
    items: Vec<WorkflowOperation>,
    max_input_bytes: u64,
    max_batch_items: usize,
) -> (r: Result<Vec<ValidatedOperationRequest>, CoreError>)
    ensures
        match workflow_scan(items@, provider_id@, max_input_bytes as int, max_batch_items as int, 0) {
            Some((code, message)) => r matches Err(e) && e.code@ == code && e.message@ == message,
            None => r is Ok,
        },
        r matches Ok(v) ==> {
            &&& v@.len() == items@.len()
            &&& forall|i: int| 0 <= i < items@.len() ==> all_inline(#[trigger] items@[i].operation)
            &&& spent_before(workflow_ops(items@), items@.len() as int) <= max_input_bytes
            &&& forall|i: int|
                0 <= i < v@.len() ==> {
                    &&& (#[trigger] v@[i]).spec_request() == items@[i].operation
                    &&& validated_sources(items@[i].operation, v@[i].spec_sources())
                    &&& !item_query_bad(items@, i, provider_id@)
                    &&& !item_constraint_bad(items@[i].operation)
                    &&& req_roles(items@[i].operation).len() <= max_batch_items
                }
        },
        r matches Err(e) ==> e.code@ == "workflow.invalid_request"@ || e.code@
            == "workflow.unsupported_parser_constraint"@ || e.code@ == "resource.limit"@,
{
    let ghost orig = items@;
    let ghost ops = workflow_ops(orig);
    let mut rest = items;
    let mut ids: Vec<String> = Vec::new();
    let mut results: Vec<ValidatedOperationRequest> = Vec::new();
    let mut remaining: u64 = max_input_bytes;
    while rest.len() > 0
        invariant
            orig == items@,
            ops == workflow_ops(orig),
            results@.len() + rest@.len() == orig.len(),
            rest@ == orig.skip(results@.len() as int),
            ids@.len() == results@.len(),
            forall|j: int| 0 <= j < ids@.len() ==> #[trigger] ids@[j]@ == orig[j].operation.request_id@,
            remaining == max_input_bytes - spent_before(ops, results@.len() as int),
            forall|k: int|
                0 <= k < results@.len() ==> {
                    &&& (#[trigger] results@[k]).spec_request() == orig[k].operation
                    &&& validated_sources(orig[k].operation, results@[k].spec_sources())
                    &&& !item_query_bad(orig, k, provider_id@)
                    &&& !item_constraint_bad(orig[k].operation)
                    &&& req_roles(orig[k].operation).len() <= max_batch_items
                    &&& all_inline(orig[k].operation)
                },
            workflow_scan(
                orig,
                provider_id@,
                max_input_bytes as int,
                max_batch_items as int,
                0,
            ) == workflow_scan(orig, provider_id@, max_input_bytes as int, max_batch_items as int, results@.len() as int),
        decreases rest@.len(),
    {
        let ghost k = results@.len() as int;
        let item = rest.remove(0);
        assert(item == orig[k]);
        assert(ops[k] == item.operation);
        let op = &item.operation;
        let mut seen = false;
        let mut j: usize = 0;
        while j < ids.len() && !seen
            invariant
                j <= ids@.len(),
                ids@.len() == k,
                forall|m: int| 0 <= m < ids@.len() ==> #[trigger] ids@[m]@ == orig[m].operation.request_id@,
                seen ==> exists|m: int| 0 <= m < k && #[trigger] orig[m].operation.request_id@ == op.request_id@,
                !seen ==> forall|m: int| 0 <= m < j ==> #[trigger] orig[m].operation.request_id@ != op.request_id@,
            decreases ids@.len() - j,
        {
            if str_eq(ids[j].as_str(), op.request_id.as_str()) {
                seen = true;
            }
            j = j + 1;
        }
        let dialect_empty = match &item.parser_dialect {
            Some(d) => d.as_str().is_empty(),
            None => false,
        };
        proof {
            assert(item.operation == orig[k].operation);
        }
        if seen || !is_absent_or(&op.provider_selection.provider_id, provider_id) || item.parser_language.as_str().is_empty()
            || dialect_empty {
            proof {
                assert(item_query_bad(orig, k, provider_id@));
            }
            return Err(error("workflow.invalid_request", "workflow identity or parser query is invalid"));
        }
        assert(!item_query_bad(orig, k, provider_id@));
        if constraint_bad(op) {
            return Err(
                error(
                    "workflow.unsupported_parser_constraint",
                    "requested selector or required extension constraint is not implemented",
                ),
            );
        }
        let WorkflowOperation { operation, parser_language: _, parser_dialect: _, parse_options: _ } = item;
        let ghost this = operation;
        let checked = operation.validate(remaining, refuse_unresolved);
        proof {
            if pre_error(this, remaining as int) is None {
                let got = choose|got: Seq<Result<Vec<u8>, String>>|
                    #![trigger bind_run(refuse_unresolved, this, remaining as int, 0, got)]
                    {
                        &&& got.len() == req_roles(this).len()
                        &&& bind_run(refuse_unresolved, this, remaining as int, 0, got) == Some(
                            request_outcome(checked),
                        )
                        &&& checked matches Ok(v) ==> forall|i: int|
                            0 <= i < req_roles(this).len() ==> Some(#[trigger] v.spec_sources().docs()[i].data())
                                == crate::operation::source_bytes(this, i, got[i])
                    };
                lemma_refused_bind(refuse_unresolved, this, remaining as int, 0, got, "workflow requires checked inline sources"@);
            }
        }
        let validated = match checked {
            Ok(v) => v,
            Err(e) => {
                let code = if e.code == OperationRequestErrorCode::ResourceLimit {
                    "resource.limit"
                } else {
                    "workflow.invalid_request"
                };
                return Err(error(code, "workflow source/request validation failed"));
            },
        };
        if validated.request().operation.kind().source_roles().len() > max_batch_items {
            return Err(error("resource.limit", "workflow source batch exceeds parse limit"));
        }
        let total = declared_sum(validated.request(), remaining);
        remaining = remaining - total;
        ids.push(copy_string(&validated.request().request_id));
        results.push(validated);
        assert(rest@ =~= orig.skip(results@.len() as int));
    }
    assert forall|i: int| 0 <= i < orig.len() implies all_inline(#[trigger] orig[i].operation) by {
        assert(results@[i].spec_request() == orig[i].operation);
    }
    Ok(results)
}

/// The caller's expected registry state differs from the one a batch would
/// execute against.
pub fn check_registry_expectation(
    expected: &WorkflowRegistryExpectation,
    provider_generation: u64,
    provider_digest: &str,
    parser_generation: u64,
    parser_digest: &str,
) -> (r: Result<(), CoreError>)
    ensures
        r is Ok <==> (expected.provider_generation == provider_generation && expected.provider_digest@
            == provider_digest@ && expected.parser_generation == parser_generation && expected.parser_digest@
            == parser_digest@),
        r matches Err(e) ==> e.code@ == "workflow.registry_stale"@ && e.message@
            == "registry state differs from caller expectation"@,
{
    if expected.provider_generation != provider_generation || !str_eq(expected.provider_digest.as_str(), provider_digest)
        || expected.parser_generation != parser_generation || !str_eq(expected.parser_digest.as_str(), parser_digest) {
        return Err(error("workflow.registry_stale", "registry state differs from caller expectation"));
    }
    Ok(())
}

/// How a parser was chosen: explicitly when the request named a backend,
/// by policy otherwise.
pub open spec fn selection_mode_for(backend: Option<String>) -> Seq<char> {
    if backend is Some {
        "explicit"@
    } else {
        "policy"@
    }
}

/// A host result names the executing provider and its family, delegates
/// nowhere, keeps to the provider's profiles, and reports the negotiated
/// parser with the request's selection.
pub open spec fn host_identity_ok(
    result: OperationResult,
    input: ValidatedOperationRequest,
    provider_id: Seq<char>,
    family: Seq<char>,
    profiles: Seq<Seq<char>>,
    selected_backend: Option<Seq<char>>,
) -> bool {
    &&& opt_view(result.provider.provider_id) == Some(provider_id)
    &&& opt_view(result.provider.family) == Some(family)
    &&& (result.provider.delegation matches Some(chain) ==> chain@.len() == 0)
    &&& (result.profile.profile_id matches Some(p) ==> profiles.contains(p@))
    &&& result.profile.parser matches Some(parser) && {
        &&& opt_view(parser.selected_backend) == selected_backend
        &&& opt_view(parser.requested_backend) == opt_view(input.spec_request().parser_selection.backend)
        &&& opt_view(parser.selection_mode) == Some(selection_mode_for(input.spec_request().parser_selection.backend))
    }
}

fn has_profile(profiles: &Vec<String>, p: &String) -> (b: bool)
    ensures
        b == string_views(profiles@).contains(p@),
{
    let mut i: usize = 0;
    while i < profiles.len()
        invariant
            i <= profiles@.len(),
            forall|j: int| 0 <= j < i ==> profiles@[j]@ != p@,
        decreases profiles@.len() - i,
    {
        if str_eq(profiles[i].as_str(), p.as_str()) {
            assert(string_views(profiles@)[i as int] == p@);
            return true;
        }
        i = i + 1;
    }
    proof {
        if string_views(profiles@).contains(p@) {
            let j = choose|j: int| 0 <= j < string_views(profiles@).len() && string_views(profiles@)[j] == p@;
            assert(profiles@[j]@ == p@);
        }
    }
    false
}

fn opt_is_str(o: &Option<String>, v: &str) -> (b: bool)
    ensures
        b == (opt_view(*o) == Some(v@)),
{
    match o {
        Some(s) => str_eq(s.as_str(), v),
        None => false,
    }
}

/// Check a host's results against the batch it was given, in order: one
/// result per operation, each with a consistent provider and parser
/// identity and each passing the common result contract for its request.
pub fn check_host_results(
    results: &Vec<OperationResult>,
    inputs: &Vec<ValidatedOperationRequest>,
    provider_id: &str,
    family: &str,
    profiles: &Vec<String>,
    selected_backends: &Vec<Option<String>>,
) -> (r: Result<(), CoreError>)
    requires
        selected_backends@.len() == inputs@.len(),
    ensures
        results@.len() != inputs@.len() ==> (r matches Err(e) && e.code@ == "workflow.invalid_result"@
            && e.message@ == "workflow result cardinality mismatch"@),
        r is Ok <==> results@.len() == inputs@.len() && forall|i: int|
            0 <= i < results@.len() ==> host_identity_ok(
                #[trigger] results@[i],
                inputs@[i],
                provider_id@,
                family@,
                string_views(profiles@),
                opt_view(selected_backends@[i]),
            ) && result_error(results@[i], inputs@[i]) is None,
        r matches Err(e) ==> e.code@ == "workflow.invalid_result"@,
{
    if results.len() != inputs.len() {
        return Err(error("workflow.invalid_result", "workflow result cardinality mismatch"));
    }
    let mut i: usize = 0;
    while i < results.len()
        invariant
            i <= results@.len(),
            results@.len() == inputs@.len(),
            selected_backends@.len() == inputs@.len(),
            forall|k: int|
                0 <= k < i ==> host_identity_ok(
                    #[trigger] results@[k],
                    inputs@[k],
                    provider_id@,
                    family@,
                    string_views(profiles@),
                    opt_view(selected_backends@[k]),
                ) && result_error(results@[k], inputs@[k]) is None,
        decreases results@.len() - i,
    {
        let result = &results[i];
        let input = &inputs[i];
        let backend = &input.request().parser_selection.backend;
        let delegated = match &result.provider.delegation {
            Some(chain) => chain.len() != 0,
            None => false,
        };
        let foreign_profile = match &result.profile.profile_id {
            Some(p) => !has_profile(profiles, p),
            None => false,
        };
        let parser_bad = match &result.profile.parser {
            Some(parser) => !opt_str_eq(&parser.selected_backend, &selected_backends[i]) || !opt_str_eq(
                &parser.requested_backend,
                backend,
            ) || !opt_is_str(
                &parser.selection_mode,
                if backend.is_some() {
                    "explicit"
                } else {
                    "policy"
                },
            ),
            None => true,
        };
        if !opt_is_str(&result.provider.provider_id, provider_id) || !opt_is_str(&result.provider.family, family)
            || delegated || foreign_profile || parser_bad {
            return Err(error("workflow.invalid_result", "workflow returned inconsistent provider or parser identity"));
        }
        if result.validate_against(input).is_err() {
            return Err(error("workflow.invalid_result", "workflow result failed common contract validation"));
        }
        i = i + 1;
    }
    Ok(())
}

/// Check a compiled workflow's result: it keeps the negotiated provider and
/// parser, and passes the common result contract for its request.
pub fn check_kernel_result(
    result: &OperationResult,
    input: &ValidatedOperationRequest,
    provider_id: &str,
    selected_backend: &Option<String>,
) -> (r: Result<(), CoreError>)
    ensures
        r is Ok <==> {
            &&& opt_view(result.provider.provider_id) == Some(provider_id@)
            &&& (result.profile.parser matches Some(p) ==> opt_view(p.selected_backend) == opt_view(*selected_backend))
            &&& result_error(*result, *input) is None
        },
        r matches Err(e) ==> e.code@ == "workflow.invalid_result"@,
{
    let changed = match &result.profile.parser {
        Some(p) => !opt_str_eq(&p.selected_backend, selected_backend),
        None => false,
    };
    if !opt_is_str(&result.provider.provider_id, provider_id) || changed {
        return Err(error("workflow.invalid_result", "compiled workflow changed negotiated executor identity"));
    }
    if result.validate_against(input).is_err() {
        return Err(error("workflow.invalid_result", "compiled workflow result failed common validation"));
    }
    Ok(())
}

/// The first compiled profile of `provider_id` with identity `profile`.
pub open spec fn compiled_profile(
    ps: Seq<OperationProfileDeclaration>,
    provider_id: Seq<char>,
    profile: Option<Seq<char>>,
) -> Option<OperationProfileDeclaration>
    decreases ps.len(),
{
    if ps.len() == 0 {
        None
    } else if ps[0].provider_id@ == provider_id && Some(ps[0].id@) == profile {
        Some(ps[0])
    } else {
        compiled_profile(ps.drop_first(), provider_id, profile)
    }
}

proof fn lemma_compiled_profile(
    ps: Seq<OperationProfileDeclaration>,
    provider_id: Seq<char>,
    profile: Option<Seq<char>>,
    k: int,
)
    requires
        0 <= k <= ps.len(),
        forall|j: int|
            0 <= j < k ==> !((#[trigger] ps[j]).provider_id@ == provider_id && Some(ps[j].id@) == profile),
    ensures
        k < ps.len() && ps[k].provider_id@ == provider_id && Some(ps[k].id@) == profile ==> compiled_profile(
            ps,
            provider_id,
            profile,
        ) == Some(ps[k]),
        k == ps.len() ==> compiled_profile(ps, provider_id, profile) is None,
    decreases k,
{
    if k > 0 {
        let rest = ps.drop_first();
        assert forall|j: int|
            0 <= j < k - 1 implies !((#[trigger] rest[j]).provider_id@ == provider_id && Some(rest[j].id@)
            == profile) by {
            assert(rest[j] == ps[j + 1]);
        }
        lemma_compiled_profile(rest, provider_id, profile, k - 1);
        if k < ps.len() {
            assert(rest[k - 1] == ps[k]);
        }
    }
}

fn find_compiled(ps: &Vec<OperationProfileDeclaration>, provider_id: &str, profile: &Option<String>) -> (r: Option<
    usize,
>)
    ensures
        match r {
            Some(k) => k < ps@.len() && compiled_profile(ps@, provider_id@, opt_view(*profile)) == Some(ps@[k as int]),
            None => compiled_profile(ps@, provider_id@, opt_view(*profile)) is None,
        },
{
    let mut k: usize = 0;
    while k < ps.len()
        invariant
            k <= ps@.len(),
            forall|j: int|
                0 <= j < k ==> !((#[trigger] ps@[j]).provider_id@ == provider_id@ && Some(ps@[j].id@) == opt_view(
                    *profile,
                )),
        decreases ps@.len() - k,
    {
        let matches_profile = match profile {
            Some(p) => str_eq(ps[k].id.as_str(), p.as_str()),
            None => false,
        };
        if str_eq(ps[k].provider_id.as_str(), provider_id) && matches_profile {
            proof {
                lemma_compiled_profile(ps@, provider_id@, opt_view(*profile), k as int);
            }
            return Some(k);
        }
        k = k + 1;
    }
    proof {
        lemma_compiled_profile(ps@, provider_id@, opt_view(*profile), k as int);
    }
    None
}

/// A selection query for a compiled workflow names the workflow's profile,
/// and asks for exactly the parser language, dialect selector and parse
/// options that profile uses for the operation.
pub fn check_compiled_query(
    catalog: &OperationProfileCatalog,
    provider_id: &str,
    profile: &Option<String>,
    operation: OperationKind,
    dialect: &Option<String>,
    parser: &ParserSelectionRequest,
) -> (r: Result<(), CoreError>)
    ensures
        match compiled_profile(catalog.profiles@, provider_id@, opt_view(*profile)) {
            None => r matches Err(e) && e.code@ == "workflow.invalid_request"@ && e.message@
                == "compiled workflow requires its explicit profile"@,
            Some(p) => {
                &&& r is Ok <==> {
                    &&& profile_parser_language_spec(p.family@, opt_view(*dialect)) == Some(parser.language@)
                    &&& parser.dialect is None
                    &&& parser.options == parse_options_for(p.id@, operation)
                }
                &&& r matches Err(e) ==> e.code@ == "workflow.invalid_request"@ && e.message@
                    == "compiled workflow parser query differs from its profile"@
            },
        },
{
    let ps = &catalog.profiles;
    let found = find_compiled(ps, provider_id, profile);
    let p = match found {
        Some(i) => &ps[i],
        None => {
            return Err(error("workflow.invalid_request", "compiled workflow requires its explicit profile"));
        },
    };
    let d: Option<&str> = match dialect {
        Some(x) => Some(x.as_str()),
        None => None,
    };
    let language_ok = match profile_parser_language(p.family.as_str(), d) {
        Some(l) => str_eq(l, parser.language.as_str()),
        None => false,
    };
    if !language_ok || parser.dialect.is_some() || parser.options != operation_parse_options(p.id.as_str(), operation) {
        return Err(error("workflow.invalid_request", "compiled workflow parser query differs from its profile"));
    }
    Ok(())
}

/// How a host's workflow callback ended: it panicked, it failed, or it
/// returned its response.
#[derive(Clone, Debug, PartialEq, Eq)]
pub enum HostCallbackEnd<T> {
    Panicked,
    Failed,
    Returned(T),
}

/// Settle a host workflow callback against the operation's control, checked
/// after the callback ends (`control`, the control's failure if any): late
/// results and faults never override execution control, so a cancelled or
/// expired operation is reported as such whatever the host did; otherwise a
/// panic or a failure of the host is a provider error and a response is
/// passed on.
pub fn settle_host_callback<T>(control: Option<ServiceError>, end: HostCallbackEnd<T>) -> (r: Result<T, CoreError>)
    ensures
        match control {
            Some(e) => r matches Err(c) && c.code@ == service_code(e) && c.message@ == service_message(e),
            None => match end {
                HostCallbackEnd::Panicked => r matches Err(c) && c.code@ == "workflow.provider_panic"@ && c.message@
                    == "workflow callback panicked"@,
                HostCallbackEnd::Failed => r matches Err(c) && c.code@ == "workflow.provider_fault"@ && c.message@
                    == "workflow callback failed"@,
                HostCallbackEnd::Returned(t) => r == Ok::<T, CoreError>(t),
            },
        },
{
    if let Some(e) = &control {
        return Err(CoreError::from_service(e));
    }
    match end {
        HostCallbackEnd::Panicked => Err(
            CoreError { code: owned("workflow.provider_panic"), message: owned("workflow callback panicked") },
        ),
        HostCallbackEnd::Failed => Err(
            CoreError { code: owned("workflow.provider_fault"), message: owned("workflow callback failed") },
        ),
        HostCallbackEnd::Returned(t) => Ok(t),
    }
}

} // verus!
