//! Structured-merge kernel contracts: request normalization, result checking,
//! portable diagnostics and conflicts, and the static operation profile catalog.
//! Every check here is a function of its arguments; parsing and merging happen
//! in the hosts and providers that produce the records checked here.

pub mod capabilities;
pub mod diff;
pub mod edits;
pub mod host;
pub mod json_analysis;
pub mod json_diff;
pub mod json_operation;
pub mod merge;
pub mod metadata;
pub mod native_analysis_projection;
pub mod native_conflict_projection;
pub mod native_operation;
pub mod native_output_validation;
pub mod operation;
pub mod operation_result;
pub mod operations;
pub mod portable_conflict;
pub mod portable_diagnostic;
pub mod profiles;
pub mod role_map;
pub mod source;
pub mod text;
pub mod workflow;

pub use crate::source::{
    input_error, SourceEncoding, SourceError, SourceErrorCode, SourceInput, SourceMap, SourceRole,
};
use crate::text::str_eq;
use vstd::prelude::*;

pub use crate::capabilities::{
    CapabilityManifest, CapabilityObservation, CapabilityQuery, ParserSelectionRequest,
};
pub use crate::edits::{ExplicitSourceEdit, SourceEditLimits, SourceEditRequest, SourceEditResult};
pub use crate::host::{
    create_operation_control, CoreError, CoreParseResult, OperationControl, ParseLimits, ParseOutput, ParserCandidate,
    ParserFailure, ParserProviderDescriptor, SelectionReport, ServiceError,
};
pub use crate::metadata::{Metadata, MetadataEntry, NativeExtension};
pub use crate::operation::{validate_operation_batch, OperationRequest, ValidatedOperationRequest};
pub use crate::operation_result::{validate_operation_results, OperationResult, ResultContractError};
pub use crate::portable_conflict::validate_conflicts;
pub use crate::portable_diagnostic::{validate_diagnostics, DiagnosticSeverity};
pub use crate::profiles::{
    native_merge_profiles, operation_profile_catalog, NativeMergeProfile, OperationProfileCatalog,
    OperationProfileDeclaration, ParseOptions,
};
pub use crate::source::{source_input, ByteRange, SourceDescriptor, SourceDocument, SourcePoint};

verus! {

pub const OPERATION_SCHEMA: &'static str = "structuredmerge.operation-request/v1";

/// The four common operations.
#[derive(Clone, Copy, Debug, PartialEq, Eq, Structural)]
pub enum OperationKind {
    Analyze,
    Diff2,
    Merge2,
    Merge3,
}

/// The exact source roles an operation consumes, in canonical role order.
pub open spec fn kind_roles(kind: OperationKind) -> Seq<SourceRole> {
    match kind {
        OperationKind::Analyze => seq![SourceRole::Source],
        OperationKind::Diff2 => seq![SourceRole::Before, SourceRole::After],
        OperationKind::Merge2 => seq![SourceRole::Incoming, SourceRole::Current],
        OperationKind::Merge3 => seq![SourceRole::Base, SourceRole::Ours, SourceRole::Theirs],
    }
}

impl OperationKind {
    /// The exact source roles this operation consumes, in canonical role order.
    pub fn source_roles(self) -> (r: Vec<SourceRole>)
        ensures
            r@ == kind_roles(self),
    {
        match self {
            OperationKind::Analyze => vec![SourceRole::Source],
            OperationKind::Diff2 => vec![SourceRole::Before, SourceRole::After],
            OperationKind::Merge2 => vec![SourceRole::Incoming, SourceRole::Current],
            OperationKind::Merge3 => vec![SourceRole::Base, SourceRole::Ours, SourceRole::Theirs],
        }
    }
}

/// Whether `role` is one of the operation's roles.
pub fn kind_has_role(kind: OperationKind, role: SourceRole) -> (r: bool)
    ensures
        r == kind_roles(kind).contains(role),
{
    let roles = kind.source_roles();
    let mut i: usize = 0;
    while i < roles.len()
        invariant
            roles@ == kind_roles(kind),
            i <= roles@.len(),
            forall|k: int| 0 <= k < i ==> roles@[k] != role,
        decreases roles@.len() - i,
    {
        if roles[i] == role {
            return true;
        }
        i = i + 1;
    }
    false
}

/// Merge-provider selection. It never substitutes for a parser identity.
#[derive(Clone, Debug, PartialEq, Eq)]
pub struct ProviderSelection {
    pub provider_id: Option<String>,
    pub family: String,
    pub required_capabilities: Vec<String>,
}

/// Parser selection: an explicit backend, a preference order and required
/// capabilities.
#[derive(Clone, Debug, PartialEq, Eq)]
pub struct ParserSelection {
    pub backend_id: Option<String>,
    pub preference: Vec<String>,
    pub required_capabilities: Vec<String>,
}

/// Typed request inputs. No argument-position role inference and no
/// implicit base.
#[derive(Clone, Debug, PartialEq, Eq)]
pub struct OperationInputs {
    pub schema: String,
    pub request_id: String,
    pub operation: OperationKind,
    pub provider_selection: ProviderSelection,
    pub parser_selection: ParserSelection,
    pub sources: Vec<SourceInput>,
}

#[derive(Clone, Debug, PartialEq, Eq)]
pub enum RequestError {
    UnsupportedSchema,
    EmptyRequestId,
    InvalidSelection,
    InvalidSourceRoles,
    Source(SourceError),
}

pub open spec fn empty_if_some(o: Option<String>) -> bool {
    match o {
        Some(s) => s@.len() == 0,
        None => false,
    }
}

/// The inputs carry exactly the operation's roles, each once.
pub open spec fn input_roles_exact(sources: Seq<SourceInput>, kind: OperationKind) -> bool {
    &&& sources.len() == kind_roles(kind).len()
    &&& forall|i: int, j: int|
        0 <= i < j < sources.len() ==> #[trigger] sources[i].descriptor.role != #[trigger] sources[j].descriptor.role
    &&& forall|k: int|
        0 <= k < kind_roles(kind).len() ==> exists|i: int|
            0 <= i < sources.len() && sources[i].descriptor.role == #[trigger] kind_roles(kind)[k]
}

/// The first request-level failure, in check order.
pub open spec fn inputs_error(request: OperationInputs) -> Option<RequestError> {
    if request.schema@ != OPERATION_SCHEMA@ {
        Some(RequestError::UnsupportedSchema)
    } else if request.request_id@.len() == 0 {
        Some(RequestError::EmptyRequestId)
    } else if request.provider_selection.family@.len() == 0 || empty_if_some(request.provider_selection.provider_id)
        || empty_if_some(request.parser_selection.backend_id) {
        Some(RequestError::InvalidSelection)
    } else if !input_roles_exact(request.sources@, request.operation) {
        Some(RequestError::InvalidSourceRoles)
    } else {
        None
    }
}

fn has_role(sources: &Vec<SourceInput>, role: SourceRole) -> (r: bool)
    ensures
        r == exists|i: int| 0 <= i < sources@.len() && sources@[i].descriptor.role == role,
{
    let mut i: usize = 0;
    while i < sources.len()
        invariant
            i <= sources@.len(),
            forall|a: int| 0 <= a < i ==> sources@[a].descriptor.role != role,
        decreases sources@.len() - i,
    {
        if sources[i].descriptor.role == role {
            return true;
        }
        i = i + 1;
    }
    false
}

fn roles_exact_check(sources: &Vec<SourceInput>, kind: OperationKind) -> (r: bool)
    ensures
        r == input_roles_exact(sources@, kind),
{
    let expected = kind.source_roles();
    if sources.len() != expected.len() {
        return false;
    }
    let mut i: usize = 0;
    while i < sources.len()
        invariant
            expected@ == kind_roles(kind),
            sources@.len() == expected@.len(),
            i <= sources@.len(),
            forall|a: int, b: int|
                0 <= a < b < sources@.len() && a < i ==> #[trigger] sources@[a].descriptor.role
                    != #[trigger] sources@[b].descriptor.role,
        decreases sources@.len() - i,
    {
        let mut j: usize = i + 1;
        while j < sources.len()
            invariant
                i < j <= sources@.len(),
                forall|b: int| i < b < j ==> sources@[i as int].descriptor.role != #[trigger] sources@[b].descriptor.role,
            decreases sources@.len() - j,
        {
            if sources[i].descriptor.role == sources[j].descriptor.role {
                return false;
            }
            j = j + 1;
        }
        i = i + 1;
    }
    let mut k: usize = 0;
    while k < expected.len()
        invariant
            expected@ == kind_roles(kind),
            k <= expected@.len(),
            forall|q: int|
                0 <= q < k ==> exists|i: int|
                    0 <= i < sources@.len() && sources@[i].descriptor.role == #[trigger] expected@[q],
        decreases expected@.len() - k,
    {
        let found = has_role(sources, expected[k]);
        if !found {
            return false;
        }
        k = k + 1;
    }
    true
}

fn opt_is_empty(o: &Option<String>) -> (r: bool)
    ensures
        r == empty_if_some(*o),
{
    match o {
        Some(s) => s.as_str().is_empty(),
        None => false,
    }
}

/// Validate typed inputs before any parser or provider dispatch. This does
/// not select a provider.
pub fn validate_operation_inputs(request: OperationInputs, max_total_bytes: u64) -> (r: Result<
    SourceMap,
    RequestError,
>)
    ensures
        match inputs_error(request) {
            Some(e) => r == Err::<SourceMap, RequestError>(e),
            None => match r {
                Ok(m) => {
                    &&& forall|i: int|
                        0 <= i < request.sources@.len() ==> #[trigger] input_error(
                            request.sources@,
                            i,
                            max_total_bytes as int,
                        ) is None
                    &&& m.docs().len() == request.sources@.len()
                    &&& forall|i: int|
                        0 <= i < request.sources@.len() ==> #[trigger] m.docs()[i].desc()
                            == request.sources@[i].descriptor && m.docs()[i].data()
                            == request.sources@[i].bytes@
                },
                Err(RequestError::Source(e)) => exists|i: int|
                    #![trigger input_error(request.sources@, i, max_total_bytes as int)]
                    0 <= i < request.sources@.len() && (forall|j: int|
                        0 <= j < i ==> #[trigger] input_error(request.sources@, j, max_total_bytes as int)
                            is None) && input_error(request.sources@, i, max_total_bytes as int)
                        == Some(e.code) && e.source_id@ == request.sources@[i].descriptor.source_id@,
                Err(_) => false,
            },
        },
{
    if !str_eq(request.schema.as_str(), OPERATION_SCHEMA) {
        return Err(RequestError::UnsupportedSchema);
    }
    if request.request_id.as_str().is_empty() {
        return Err(RequestError::EmptyRequestId);
    }
    if request.provider_selection.family.as_str().is_empty() || opt_is_empty(
        &request.provider_selection.provider_id,
    ) || opt_is_empty(&request.parser_selection.backend_id) {
        return Err(RequestError::InvalidSelection);
    }
    if !roles_exact_check(&request.sources, request.operation) {
        return Err(RequestError::InvalidSourceRoles);
    }
    match SourceMap::validate(request.sources, max_total_bytes) {
        Ok(m) => Ok(m),
        Err(e) => Err(RequestError::Source(e)),
    }
}

} // verus!
