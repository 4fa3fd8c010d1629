//! Host-facing records: the stable error shape, parse limits, and the shared
//! cancellation signal an operation observes.
use crate::operation_result::opt_view;
use crate::portable_diagnostic::PortableCategory;
use crate::source::{SourceDescriptor, SourceError, SourceErrorCode};
use crate::ParserSelection;
use crate::text::{copy_opt_string, copy_string, owned, str_eq};
use std::sync::atomic::AtomicBool;
use std::sync::Arc;
use vstd::prelude::*;

verus! {

/// A stable core code and a human message.
#[derive(Clone, Debug, PartialEq, Eq)]
pub struct CoreError {
    pub code: String,
    pub message: String,
}

impl CoreError {
    /// A host-bridge error carrying `message`.
    pub fn new(message: String) -> (e: CoreError)
        ensures
            e.code@ == "host_bridge"@,
            e.message == message,
    {
        CoreError { code: owned("host_bridge"), message }
    }
}

/// A parser service failure, holding as plain values what the kernel reads of
/// it: a rejected source carries its error and that error's text, a failed
/// selection the backend the request named and the JSON text of the
/// selection report, and a rejected parse result the debug name of the
/// validation error.
#[derive(Clone, Debug, PartialEq, Eq)]
pub enum ServiceError {
    InvalidRequest,
    LimitExceeded,
    Cancelled,
    DeadlineExceeded,
    Source { error: SourceError, text: String },
    Selection { requested_backend: Option<String>, report: String },
    Provider { backend_id: String, fault_code: String, fault_message: String },
    ProviderPanic { backend_id: String },
    InvalidBatch { backend_id: String },
    InvalidResult { backend_id: String, error: String },
}

/// The stable core code of a service failure. A resource limit is reported
/// as such whichever layer found it.
pub open spec fn service_code(e: ServiceError) -> Seq<char> {
    match e {
        ServiceError::InvalidRequest => "request.invalid"@,
        ServiceError::LimitExceeded => "resource.limit"@,
        ServiceError::Cancelled => "execution.cancelled"@,
        ServiceError::DeadlineExceeded => "execution.deadline_exceeded"@,
        ServiceError::Source { error, .. } => if error.code == SourceErrorCode::LimitExceeded {
            "resource.limit"@
        } else {
            "source.invalid"@
        },
        ServiceError::Selection { .. } => "selection.no_parser"@,
        ServiceError::Provider { .. } => "parser.provider_fault"@,
        ServiceError::ProviderPanic { .. } => "parser.provider_panic"@,
        ServiceError::InvalidBatch { .. } => "parser.invalid_batch"@,
        ServiceError::InvalidResult { error, .. } => if error@ == "LimitExceeded"@ {
            "resource.limit"@
        } else {
            "parser.invalid_result"@
        },
    }
}

/// The message of a service failure: the provider's native code and message
/// stay inside it, never in the code.
pub open spec fn service_message(e: ServiceError) -> Seq<char> {
    match e {
        ServiceError::InvalidRequest => "invalid parser request"@,
        ServiceError::LimitExceeded => "parser resource limit exceeded"@,
        ServiceError::Cancelled => "operation cancelled"@,
        ServiceError::DeadlineExceeded => "operation deadline exceeded"@,
        ServiceError::Source { text, .. } => text@,
        ServiceError::Selection { requested_backend, .. } => match requested_backend {
            Some(id) => "no eligible parser for explicit backend "@ + id@,
            None => "no eligible parser for request"@,
        },
        ServiceError::Provider { backend_id, fault_code, fault_message } => "parser "@ + backend_id@ + ": "@
            + fault_code@ + ": "@ + fault_message@,
        ServiceError::ProviderPanic { backend_id } => "parser "@ + backend_id@ + " panicked"@,
        ServiceError::InvalidBatch { backend_id } => "parser "@ + backend_id@ + " returned an invalid batch"@,
        ServiceError::InvalidResult { backend_id, error } => "parser "@ + backend_id@
            + " result failed validation: "@ + error@,
    }
}

fn service_code_text(e: &ServiceError) -> (s: &'static str)
    ensures
        s@ == service_code(*e),
{
    match e {
        ServiceError::InvalidRequest => "request.invalid",
        ServiceError::LimitExceeded => "resource.limit",
        ServiceError::Cancelled => "execution.cancelled",
        ServiceError::DeadlineExceeded => "execution.deadline_exceeded",
        ServiceError::Source { error, .. } => if error.code == SourceErrorCode::LimitExceeded {
            "resource.limit"
        } else {
            "source.invalid"
        },
        ServiceError::Selection { .. } => "selection.no_parser",
        ServiceError::Provider { .. } => "parser.provider_fault",
        ServiceError::ProviderPanic { .. } => "parser.provider_panic",
        ServiceError::InvalidBatch { .. } => "parser.invalid_batch",
        ServiceError::InvalidResult { error, .. } => if str_eq(error.as_str(), "LimitExceeded") {
            "resource.limit"
        } else {
            "parser.invalid_result"
        },
    }
}

fn parser_message(backend_id: &String, rest: &str) -> (s: String)
    ensures
        s@ == "parser "@ + backend_id@ + rest@,
{
    let mut s = owned("parser ");
    s.append(backend_id.as_str());
    s.append(rest);
    s
}

fn service_message_text(e: &ServiceError) -> (s: String)
    ensures
        s@ == service_message(*e),
{
    match e {
        ServiceError::InvalidRequest => owned("invalid parser request"),
        ServiceError::LimitExceeded => owned("parser resource limit exceeded"),
        ServiceError::Cancelled => owned("operation cancelled"),
        ServiceError::DeadlineExceeded => owned("operation deadline exceeded"),
        ServiceError::Source { text, .. } => copy_string(text),
        ServiceError::Selection { requested_backend, .. } => match requested_backend {
            Some(id) => {
                let mut s = owned("no eligible parser for explicit backend ");
                s.append(id.as_str());
                s
            },
            None => owned("no eligible parser for request"),
        },
        ServiceError::Provider { backend_id, fault_code, fault_message } => {
            let mut s = parser_message(backend_id, ": ");
            s.append(fault_code.as_str());
            s.append(": ");
            s.append(fault_message.as_str());
            proof {
                assert(s@ == "parser "@ + backend_id@ + ": "@ + fault_code@ + ": "@ + fault_message@);
            }
            s
        },
        ServiceError::ProviderPanic { backend_id } => parser_message(backend_id, " panicked"),
        ServiceError::InvalidBatch { backend_id } => parser_message(backend_id, " returned an invalid batch"),
        ServiceError::InvalidResult { backend_id, error } => {
            let mut s = parser_message(backend_id, " result failed validation: ");
            s.append(error.as_str());
            s
        },
    }
}

impl CoreError {
    /// The core error a parser service failure is reported as.
    pub fn from_service(error: &ServiceError) -> (e: CoreError)
        ensures
            e.code@ == service_code(*error),
            e.message@ == service_message(*error),
    {
        CoreError { code: owned(service_code_text(error)), message: service_message_text(error) }
    }

    /// The error as text: its code, a colon and its message.
    pub fn to_text(&self) -> (s: String)
        ensures
            s@ == self.code@ + ": "@ + self.message@,
    {
        let mut s = copy_string(&self.code);
        s.append(": ");
        s.append(self.message.as_str());
        s
    }
}

/// The diagnostic category a parser service failure is reported under.
pub open spec fn service_category(e: ServiceError) -> PortableCategory {
    match e {
        ServiceError::Cancelled => PortableCategory::Cancelled,
        ServiceError::DeadlineExceeded => PortableCategory::DeadlineExceeded,
        ServiceError::LimitExceeded => PortableCategory::ResourceLimit,
        ServiceError::Source { error, .. } => if error.code == SourceErrorCode::LimitExceeded {
            PortableCategory::ResourceLimit
        } else {
            PortableCategory::InvalidRequest
        },
        ServiceError::InvalidResult { error, .. } => if error@ == "LimitExceeded"@ {
            PortableCategory::ResourceLimit
        } else {
            PortableCategory::InternalError
        },
        ServiceError::Selection { .. } => PortableCategory::SelectionError,
        ServiceError::InvalidRequest => PortableCategory::InvalidRequest,
        _ => PortableCategory::InternalError,
    }
}

pub fn service_failure_category(error: &ServiceError) -> (c: PortableCategory)
    ensures
        c == service_category(*error),
{
    match error {
        ServiceError::Cancelled => PortableCategory::Cancelled,
        ServiceError::DeadlineExceeded => PortableCategory::DeadlineExceeded,
        ServiceError::LimitExceeded => PortableCategory::ResourceLimit,
        ServiceError::Source { error, .. } => if error.code == SourceErrorCode::LimitExceeded {
            PortableCategory::ResourceLimit
        } else {
            PortableCategory::InvalidRequest
        },
        ServiceError::InvalidResult { error, .. } => if str_eq(error.as_str(), "LimitExceeded") {
            PortableCategory::ResourceLimit
        } else {
            PortableCategory::InternalError
        },
        ServiceError::Selection { .. } => PortableCategory::SelectionError,
        ServiceError::InvalidRequest => PortableCategory::InvalidRequest,
        _ => PortableCategory::InternalError,
    }
}

/// Structured service-failure evidence. Native codes stay separate from the
/// stable core code; `selection` is the JSON text of the selection report.
#[derive(Clone, Debug, PartialEq, Eq)]
pub struct ParserFailure {
    pub code: String,
    pub message: String,
    pub backend_id: Option<String>,
    pub native_code: Option<String>,
    pub native_message: Option<String>,
    pub source_id: Option<String>,
    pub selection: Option<String>,
}

/// The evidence a service failure leaves besides its core code and message.
pub open spec fn failure_evidence(e: ServiceError) -> (
    Option<Seq<char>>,
    Option<Seq<char>>,
    Option<Seq<char>>,
    Option<Seq<char>>,
    Option<Seq<char>>,
) {
    match e {
        ServiceError::Provider { backend_id, fault_code, fault_message } => (
            Some(backend_id@),
            Some(fault_code@),
            Some(fault_message@),
            None,
            None,
        ),
        ServiceError::ProviderPanic { backend_id } => (Some(backend_id@), None, None, None, None),
        ServiceError::InvalidBatch { backend_id } => (Some(backend_id@), None, None, None, None),
        ServiceError::InvalidResult { backend_id, .. } => (Some(backend_id@), None, None, None, None),
        ServiceError::Selection { report, .. } => (None, None, None, None, Some(report@)),
        ServiceError::Source { error, .. } => (None, None, None, Some(error.source_id@), None),
        _ => (None, None, None, None, None),
    }
}

fn some_copy(s: &String) -> (r: Option<String>)
    ensures
        opt_view(r) == Some(s@),
{
    Some(copy_string(s))
}

impl ParserFailure {
    /// The failure record of a parser service failure: the core code and
    /// message, and per failure the backend, the provider's native code and
    /// message, the rejected source, or the selection report.
    pub fn from_service(error: &ServiceError) -> (f: ParserFailure)
        ensures
            f.code@ == service_code(*error),
            f.message@ == service_message(*error),
            (opt_view(f.backend_id), opt_view(f.native_code), opt_view(f.native_message), opt_view(f.source_id),
                opt_view(f.selection)) == failure_evidence(*error),
    {
        let core = CoreError::from_service(error);
        let mut failure = ParserFailure {
            code: core.code,
            message: core.message,
            backend_id: None,
            native_code: None,
            native_message: None,
            source_id: None,
            selection: None,
        };
        match error {
            ServiceError::Provider { backend_id, fault_code, fault_message } => {
                failure.backend_id = some_copy(backend_id);
                failure.native_code = some_copy(fault_code);
                failure.native_message = some_copy(fault_message);
            },
            ServiceError::ProviderPanic { backend_id } => {
                failure.backend_id = some_copy(backend_id);
            },
            ServiceError::InvalidBatch { backend_id } => {
                failure.backend_id = some_copy(backend_id);
            },
            ServiceError::InvalidResult { backend_id, .. } => {
                failure.backend_id = some_copy(backend_id);
            },
            ServiceError::Selection { report, .. } => {
                failure.selection = some_copy(report);
            },
            ServiceError::Source { error, .. } => {
                failure.source_id = some_copy(&error.source_id);
            },
            _ => {},
        }
        failure
    }
}

/// One parser a selection considered.
#[derive(Clone, Debug, PartialEq, Eq)]
pub struct ParserCandidate {
    pub backend_id: String,
    pub selected: bool,
    pub available: Option<bool>,
    pub loadable: Option<bool>,
    /// The reasons the candidate was rejected, each as JSON text.
    pub rejections: Vec<String>,
    /// The fault its probe raised, as JSON text.
    pub probe_fault: Option<String>,
}

/// What the parser service reported for a selection request: the request,
/// the registry snapshot it was made against, every candidate, and the
/// backend it selected, if any.
#[derive(Clone, Debug, PartialEq, Eq)]
pub struct SelectionReport {
    pub requested: ParserSelection,
    pub generation: u64,
    pub digest: String,
    pub candidates: Vec<ParserCandidate>,
    pub selected_backend: Option<String>,
}

/// A parser provider's declaration: its identity, the languages, result
/// contracts and capabilities it declares, and the whole declaration as
/// JSON text.
#[derive(Clone, Debug, PartialEq, Eq)]
pub struct ParserProviderDescriptor {
    pub id: String,
    pub languages: Vec<String>,
    pub contracts: Vec<String>,
    pub capabilities: Vec<String>,
    pub record: String,
}

/// A parser's output: whether it accepted the source, the parse request
/// identity, the source it parsed, and the whole output as JSON text.
#[derive(Clone, Debug, PartialEq, Eq)]
pub struct ParseOutput {
    pub ok: bool,
    pub request_id: String,
    pub source: SourceDescriptor,
    pub record: String,
}

/// A parse result as evidence: its contract, the selection that chose the
/// parser, the parser's declaration and its output.
#[derive(Clone, Debug, PartialEq, Eq)]
pub struct CoreParseResult {
    pub schema: String,
    pub selection: SelectionReport,
    pub backend: ParserProviderDescriptor,
    pub parsed: ParseOutput,
}

#[derive(Clone, Debug, PartialEq, Eq)]
pub struct ParseLimits {
    pub max_batch_items: usize,
    pub max_input_bytes: u64,
    pub max_nodes: usize,
    pub max_diagnostics: usize,
    /// Monotonic operation budget, including selection and output
    /// verification. `None` disables the deadline; zero rejects before any
    /// parser callback.
    pub timeout_millis: Option<u64>,
}

/// Shared, one-way cancellation signal. Clones observe the same state. It
/// is a process-local capability, not request data.
#[derive(Clone, Debug)]
pub struct OperationControl {
    cancelled: Arc<AtomicBool>,
}

impl OperationControl {
    /// A control that has not been cancelled.
    pub fn new() -> (c: OperationControl) {
        OperationControl { cancelled: Arc::new(AtomicBool::new(false)) }
    }

    /// Signal cancellation to every clone of this control.
    pub fn cancel(&self) {
        self.cancelled.store(true, std::sync::atomic::Ordering::Release);
    }

    /// Whether some clone of this control has been cancelled.
    pub fn is_cancelled(&self) -> (r: bool) {
        self.cancelled.load(std::sync::atomic::Ordering::Acquire)
    }
}

pub fn create_operation_control() -> (c: OperationControl) {
    OperationControl::new()
}

} // verus!
