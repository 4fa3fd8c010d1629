//! The typed native owner diff boundary: which profiles diff, and the result
//! a diff execution, or the reason it stopped, becomes. No output, synthetic
//! base or host-owned matching is introduced.
use crate::host::{service_code, service_message, CoreError, ParserFailure};
use crate::merge::{
    error_is, failure_is_evidence, project_merge_failure, same_descriptors, same_parser_failure,
    NativeAnalysisRejection, NativeMergeError, ParseEvidence,
};
use crate::profiles::{PYTHON_DECLARATIONS, YAML_MAPPING};
use crate::source::SourceDescriptor;
use crate::text::{owned, str_eq};
use vstd::prelude::*;

verus! {

/// What a diff execution reports: the owner diff as JSON text, the sources
/// it compared and every input parse.
#[derive(Clone, Debug, PartialEq, Eq)]
pub struct DiffExecutionReport {
    pub diff: String,
    pub sources: Vec<SourceDescriptor>,
    pub input_parses: Vec<ParseEvidence>,
}

#[derive(Clone, Debug, PartialEq, Eq)]
pub struct NativeDiffResult {
    pub request_id: String,
    pub profile_id: String,
    pub ok: bool,
    pub sources: Vec<SourceDescriptor>,
    /// The owner diff as JSON text.
    pub diff: Option<String>,
    /// Diagnostics as JSON text.
    pub diagnostics: Vec<String>,
    pub input_parses: Vec<ParseEvidence>,
    pub input_failure: Option<ParserFailure>,
    pub analysis_rejections: Vec<NativeAnalysisRejection>,
}

/// The parser language of a profile that diffs native owners.
pub open spec fn diff_language_spec(profile_id: Seq<char>) -> Option<Seq<char>> {
    if profile_id == YAML_MAPPING@ {
        Some("yaml"@)
    } else if profile_id == PYTHON_DECLARATIONS@ {
        Some("python"@)
    } else {
        None
    }
}

/// The parser language a diff request is executed with: it needs a request
/// identity first, then a profile that diffs native owners.
pub fn diff_language(request_id: &str, profile_id: &str) -> (r: Result<&'static str, CoreError>)
    ensures
        request_id@.len() == 0 ==> (r matches Err(e) && error_is(e, "request.invalid"@, "diff requires request identity"@)),
        request_id@.len() > 0 ==> match diff_language_spec(profile_id@) {
            Some(l) => r matches Ok(s) && s@ == l,
            None => r matches Err(e) && error_is(
                e,
                "unsupported_native_profile"@,
                "no diff implementation for requested profile"@,
            ),
        },
{
    if request_id.is_empty() {
        return Err(CoreError { code: owned("request.invalid"), message: owned("diff requires request identity") });
    }
    if str_eq(profile_id, YAML_MAPPING) {
        Ok("yaml")
    } else if str_eq(profile_id, PYTHON_DECLARATIONS) {
        Ok("python")
    } else {
        Err(
            CoreError {
                code: owned("unsupported_native_profile"),
                message: owned("no diff implementation for requested profile"),
            },
        )
    }
}

/// A diff result with no diff: its identity and sources kept, nothing
/// compared.
pub open spec fn diff_stopped(r: NativeDiffResult, request_id: Seq<char>, profile_id: Seq<char>, sources: Seq<SourceDescriptor>) -> bool {
    &&& r.request_id@ == request_id
    &&& r.profile_id@ == profile_id
    &&& !r.ok
    &&& same_descriptors(r.sources@, sources)
    &&& r.diff is None
    &&& r.diagnostics@.len() == 0
}

/// The result a stopped diff execution becomes, or its error.
pub open spec fn diff_failure_projected(
    request_id: Seq<char>,
    profile_id: Seq<char>,
    e: NativeMergeError,
    r: Result<NativeDiffResult, CoreError>,
) -> bool {
    match e {
        NativeMergeError::Parse(s) => r matches Err(c) && error_is(c, service_code(s), service_message(s)),
        NativeMergeError::InputParseFailed { error, sources } => if failure_is_evidence(error) {
            r matches Ok(res) && {
                &&& diff_stopped(res, request_id, profile_id, sources@)
                &&& res.input_parses@.len() == 0
                &&& res.analysis_rejections@.len() == 0
                &&& res.input_failure matches Some(f) && same_parser_failure(f, error)
            }
        } else {
            r matches Err(c) && error_is(c, service_code(error), service_message(error))
        },
        NativeMergeError::NativeParseRejected { parses, sources } => r matches Ok(res) && {
            &&& diff_stopped(res, request_id, profile_id, sources@)
            &&& res.input_parses@ == parses@
            &&& res.analysis_rejections@.len() == 0
            &&& res.input_failure is None
        },
        NativeMergeError::AnalysisRejected { failures, parses, sources } => r matches Ok(res) && {
            &&& diff_stopped(res, request_id, profile_id, sources@)
            &&& res.input_parses@ == parses@
            &&& res.input_failure is None
            &&& res.analysis_rejections@.len() == failures@.len()
            &&& forall|i: int|
                0 <= i < failures@.len() ==> {
                    &&& (#[trigger] res.analysis_rejections@[i]).code@ == "analysis.unsupported_profile"@
                    &&& res.analysis_rejections@[i].source_id@ == failures@[i].source_id@
                    &&& res.analysis_rejections@[i].source_role == failures@[i].source_role
                    &&& res.analysis_rejections@[i].message@ == failures@[i].message@
                }
        },
        NativeMergeError::InvalidInputs => r matches Err(c) && error_is(
            c,
            "invalid_diff_inputs"@,
            "diff requires compatible before/after parse inputs"@,
        ),
        NativeMergeError::Unsupported(m) => r matches Err(c) && error_is(c, "unsupported_native_profile"@, m@),
    }
}

/// The result of a diff execution, or of the reason it stopped.
pub fn project_diff_result(
    request_id: String,
    profile_id: String,
    result: Result<DiffExecutionReport, NativeMergeError>,
) -> (r: Result<NativeDiffResult, CoreError>)
    ensures
        match result {
            Ok(execution) => r matches Ok(res) && {
                &&& res.request_id == request_id
                &&& res.profile_id == profile_id
                &&& res.ok
                &&& res.sources == execution.sources
                &&& res.diff == Some(execution.diff)
                &&& res.diagnostics@.len() == 0
                &&& res.input_parses == execution.input_parses
                &&& res.input_failure is None
                &&& res.analysis_rejections@.len() == 0
            },
            Err(e) => diff_failure_projected(request_id@, profile_id@, e, r),
        },
{
    match result {
        Ok(execution) => Ok(
            NativeDiffResult {
                request_id,
                profile_id,
                ok: true,
                sources: execution.sources,
                diff: Some(execution.diff),
                diagnostics: Vec::new(),
                input_parses: execution.input_parses,
                input_failure: None,
                analysis_rejections: Vec::new(),
            },
        ),
        Err(NativeMergeError::InvalidInputs) => Err(
            CoreError {
                code: owned("invalid_diff_inputs"),
                message: owned("diff requires compatible before/after parse inputs"),
            },
        ),
        Err(error) => {
            let ghost e = error;
            match project_merge_failure(profile_id.as_str(), error) {
                Ok(failure) => Ok(
                    NativeDiffResult {
                        request_id,
                        profile_id,
                        ok: false,
                        sources: failure.sources,
                        diff: None,
                        diagnostics: failure.diagnostics,
                        input_parses: failure.input_parses,
                        input_failure: failure.input_failure,
                        analysis_rejections: failure.analysis_rejections,
                    },
                ),
                Err(c) => Err(c),
            }
        },
    }
}

} // verus!
