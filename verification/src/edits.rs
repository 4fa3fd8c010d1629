//! Explicit source edits: the checks a caller-selected edit batch passes
//! before the shared renderer applies it, and the result the renderer's
//! output becomes. No AST selection and no filesystem mutation.
use crate::host::ServiceError;
use crate::source::{
    copy_descriptor, describes, document_error, same_descriptor, string_from_utf8, SourceDescriptor,
    SourceDocument, SourceEncoding, SourceError, SourceErrorCode, SourceInput, SourceRole,
};
use crate::text::{copy_string, owned, str_bytes, utf8_of};
use vstd::prelude::*;
use vstd::utf8::valid_utf8;

verus! {

#[derive(Clone, Debug, PartialEq, Eq)]
pub struct ExplicitSourceEdit {
    pub start_byte: usize,
    pub end_byte: usize,
    pub replacement: String,
}

#[derive(Clone, Debug, PartialEq, Eq)]
pub struct SourceEditRequest {
    pub request_id: String,
    pub source: SourceInput,
    pub edits: Vec<ExplicitSourceEdit>,
}

#[derive(Clone, Debug, PartialEq, Eq)]
pub struct SourceEditLimits {
    pub max_input_bytes: u64,
    pub max_output_bytes: u64,
    pub max_edits: usize,
}

#[derive(Clone, Debug, PartialEq, Eq)]
pub struct SourceEditResult {
    pub request_id: String,
    pub source: SourceDescriptor,
    pub output: String,
    pub edit_count: usize,
}

/// Why an edit batch fails. Every failure leaves no output.
#[derive(Clone, Debug, PartialEq, Eq)]
pub enum SourceEditError {
    /// No request identity, or not a UTF-8 input in the source role.
    InvalidRequest,
    /// Too many edits, or a projected size beyond a limit.
    LimitExceeded,
    /// The source input does not validate.
    Source(SourceError),
    /// An edit ends before it starts.
    ReversedRange,
    /// The edits remove more bytes than the source has.
    RemovalExceedsSource,
    /// The renderer refused the edits, with its message.
    Rejected(String),
}

pub open spec fn edit_error_code(e: SourceEditError) -> Seq<char> {
    match e {
        SourceEditError::InvalidRequest => "request.invalid"@,
        SourceEditError::LimitExceeded => "resource.limit"@,
        SourceEditError::Source(s) => if s.code == SourceErrorCode::LimitExceeded {
            "resource.limit"@
        } else {
            "source.invalid"@
        },
        _ => "source_edit.rejected"@,
    }
}

pub open spec fn edit_error_message(e: SourceEditError) -> Option<Seq<char>> {
    match e {
        SourceEditError::InvalidRequest => Some(
            "explicit edits require request identity and a UTF-8 source-role input"@,
        ),
        SourceEditError::LimitExceeded => Some("source edit resource limit exceeded"@),
        SourceEditError::Source(_) => None,
        SourceEditError::ReversedRange => Some("reversed source edit range"@),
        SourceEditError::RemovalExceedsSource => Some("source edit removal exceeds source length"@),
        SourceEditError::Rejected(m) => Some(m@),
    }
}

impl SourceEditError {
    /// The stable core code of the failure.
    pub fn code(&self) -> (s: &'static str)
        ensures
            s@ == edit_error_code(*self),
    {
        match self {
            SourceEditError::InvalidRequest => "request.invalid",
            SourceEditError::LimitExceeded => "resource.limit",
            SourceEditError::Source(s) => if s.code == SourceErrorCode::LimitExceeded {
                "resource.limit"
            } else {
                "source.invalid"
            },
            _ => "source_edit.rejected",
        }
    }

    /// The failure's message; a source failure is described by the parser
    /// layer's text of its source error, not here.
    pub fn message(&self) -> (m: Option<String>)
        ensures
            match (m, edit_error_message(*self)) {
                (Some(a), Some(b)) => a@ == b,
                (None, None) => true,
                _ => false,
            },
    {
        match self {
            SourceEditError::InvalidRequest => Some(
                owned("explicit edits require request identity and a UTF-8 source-role input"),
            ),
            SourceEditError::LimitExceeded => Some(owned("source edit resource limit exceeded")),
            SourceEditError::Source(_) => None,
            SourceEditError::ReversedRange => Some(owned("reversed source edit range")),
            SourceEditError::RemovalExceedsSource => Some(owned("source edit removal exceeds source length")),
            SourceEditError::Rejected(m) => Some(copy_string(m)),
        }
    }
}

/// The UTF-8 length of an edit's replacement.
pub open spec fn replacement_len(e: ExplicitSourceEdit) -> int {
    utf8_of(e.replacement@).len() as int
}

/// Bytes removed by the first `n` edits.
pub open spec fn removed_upto(es: Seq<ExplicitSourceEdit>, n: int) -> int
    decreases n,
{
    if n <= 0 {
        0
    } else {
        removed_upto(es, n - 1) + (es[n - 1].end_byte - es[n - 1].start_byte)
    }
}

/// Bytes added by the first `n` edits.
pub open spec fn added_upto(es: Seq<ExplicitSourceEdit>, n: int) -> int
    decreases n,
{
    if n <= 0 {
        0
    } else {
        added_upto(es, n - 1) + replacement_len(es[n - 1])
    }
}

/// The first failure of a scan over the first `n` edits: a reversed range,
/// or a running total of removed or added bytes beyond 64 bits.
pub open spec fn scan_error(es: Seq<ExplicitSourceEdit>, n: int) -> Option<SourceEditError>
    decreases n,
{
    if n <= 0 {
        None
    } else {
        match scan_error(es, n - 1) {
            Some(e) => Some(e),
            None => if es[n - 1].end_byte < es[n - 1].start_byte {
                Some(SourceEditError::ReversedRange)
            } else if removed_upto(es, n) > u64::MAX {
                Some(SourceEditError::LimitExceeded)
            } else if added_upto(es, n) > u64::MAX {
                Some(SourceEditError::LimitExceeded)
            } else {
                None
            },
        }
    }
}

/// The failure an edit batch meets before rendering, if any, in check order:
/// request shape, edit count, source validation, the edit scan, then the
/// projected output size against the source length and the limits.
pub open spec fn edit_precheck_error(r: SourceEditRequest, l: SourceEditLimits) -> Option<SourceEditError> {
    let d = r.source.descriptor;
    let b = r.source.bytes@;
    let es = r.edits@;
    if r.request_id@.len() == 0 || d.role != SourceRole::Source || d.encoding != SourceEncoding::Utf8 {
        Some(SourceEditError::InvalidRequest)
    } else if es.len() > l.max_edits {
        Some(SourceEditError::LimitExceeded)
    } else if document_error(d, b, l.max_input_bytes as int) is Some {
        Some(
            SourceEditError::Source(
                SourceError {
                    source_id: d.source_id,
                    code: document_error(d, b, l.max_input_bytes as int)->0,
                },
            ),
        )
    } else if scan_error(es, es.len() as int) is Some {
        scan_error(es, es.len() as int)
    } else if b.len() < removed_upto(es, es.len() as int) {
        Some(SourceEditError::RemovalExceedsSource)
    } else if b.len() - removed_upto(es, es.len() as int) + added_upto(es, es.len() as int) > u64::MAX {
        Some(SourceEditError::LimitExceeded)
    } else if b.len() - removed_upto(es, es.len() as int) + added_upto(es, es.len() as int) > l.max_output_bytes
        || b.len() - removed_upto(es, es.len() as int) + added_upto(es, es.len() as int) > usize::MAX {
        Some(SourceEditError::LimitExceeded)
    } else {
        None
    }
}

/// Two failures are the same failure: the same kind, and for a source or
/// renderer failure the same source error or message.
pub open spec fn same_edit_error(a: SourceEditError, b: SourceEditError) -> bool {
    match (a, b) {
        (SourceEditError::Source(x), SourceEditError::Source(y)) => x.code == y.code && x.source_id@
            == y.source_id@,
        (SourceEditError::Rejected(x), SourceEditError::Rejected(y)) => x@ == y@,
        _ => a == b,
    }
}

/// A checked edit batch: the validated source, its text, the edits and the
/// exact length the output will have.
pub struct PreparedSourceEdits {
    pub request_id: String,
    pub source: SourceDocument,
    pub text: String,
    pub edits: Vec<ExplicitSourceEdit>,
    pub projected_length: u64,
}

/// The removed and added byte totals of the edits, or the scan's failure.
fn scan_edits(edits: &Vec<ExplicitSourceEdit>) -> (r: Result<(u64, u64), SourceEditError>)
    ensures
        match r {
            Ok((removed, added)) => {
                &&& scan_error(edits@, edits@.len() as int) is None
                &&& removed == removed_upto(edits@, edits@.len() as int)
                &&& added == added_upto(edits@, edits@.len() as int)
            },
            Err(e) => scan_error(edits@, edits@.len() as int) == Some(e),
        },
{
    let ghost es = edits@;
    let mut removed: u64 = 0;
    let mut added: u64 = 0;
    let mut i: usize = 0;
    while i < edits.len()
        invariant
            es == edits@,
            i <= es.len(),
            scan_error(es, i as int) is None,
            removed == removed_upto(es, i as int),
            added == added_upto(es, i as int),
        decreases es.len() - i,
    {
        let edit = &edits[i];
        if edit.end_byte < edit.start_byte {
            proof {
                lemma_scan_stops(es, i as int + 1, es.len() as int);
            }
            return Err(SourceEditError::ReversedRange);
        }
        let width = (edit.end_byte - edit.start_byte) as u64;
        let len = str_bytes(edit.replacement.as_str()).len() as u64;
        match removed.checked_add(width) {
            Some(v) => {
                removed = v;
            },
            None => {
                proof {
                    lemma_scan_stops(es, i as int + 1, es.len() as int);
                }
                return Err(SourceEditError::LimitExceeded);
            },
        }
        match added.checked_add(len) {
            Some(v) => {
                added = v;
            },
            None => {
                proof {
                    lemma_scan_stops(es, i as int + 1, es.len() as int);
                }
                return Err(SourceEditError::LimitExceeded);
            },
        }
        i = i + 1;
    }
    Ok((removed, added))
}

/// Check an edit batch before rendering. It fails exactly as
/// `edit_precheck_error` says; otherwise the source is validated, its text
/// decoded, and the output length is the source length less the removed
/// bytes plus the replacement bytes.
pub fn prepare_source_edits(request: SourceEditRequest, limits: SourceEditLimits) -> (r: Result<
    PreparedSourceEdits,
    SourceEditError,
>)
    ensures
        match r {
            Ok(p) => {
                &&& edit_precheck_error(request, limits) is None
                &&& p.request_id == request.request_id
                &&& p.source.desc() == request.source.descriptor
                &&& p.source.data() == request.source.bytes@
                &&& utf8_of(p.text@) == request.source.bytes@
                &&& p.edits == request.edits
                &&& p.projected_length == request.source.bytes@.len() - removed_upto(
                    request.edits@,
                    request.edits@.len() as int,
                ) + added_upto(request.edits@, request.edits@.len() as int)
            },
            Err(e) => edit_precheck_error(request, limits) matches Some(x) && same_edit_error(e, x),
        },
{
    if request.request_id.as_str().is_empty() || request.source.descriptor.role != SourceRole::Source
        || request.source.descriptor.encoding != SourceEncoding::Utf8 {
        return Err(SourceEditError::InvalidRequest);
    }
    if request.edits.len() > limits.max_edits {
        return Err(SourceEditError::LimitExceeded);
    }
    let SourceEditRequest { request_id, source, edits } = request;
    let source = match SourceDocument::validate(source, limits.max_input_bytes) {
        Ok(doc) => doc,
        Err(e) => {
            return Err(SourceEditError::Source(e));
        },
    };
    let (removed, added) = match scan_edits(&edits) {
        Ok(totals) => totals,
        Err(e) => {
            return Err(e);
        },
    };
    let length = source.bytes().len() as u64;
    if length < removed {
        return Err(SourceEditError::RemovalExceedsSource);
    }
    let projected = match (length - removed).checked_add(added) {
        Some(v) => v,
        None => {
            return Err(SourceEditError::LimitExceeded);
        },
    };
    if projected > limits.max_output_bytes || projected > usize::MAX as u64 {
        return Err(SourceEditError::LimitExceeded);
    }
    let text = string_from_utf8(source.bytes());
    Ok(PreparedSourceEdits { request_id, source, text, edits, projected_length: projected })
}

/// Once the scan fails, it fails the same way over any longer prefix.
proof fn lemma_scan_stops(es: Seq<ExplicitSourceEdit>, n: int, m: int)
    requires
        0 <= n <= m <= es.len(),
        scan_error(es, n) is Some,
    ensures
        scan_error(es, m) == scan_error(es, n),
    decreases m - n,
{
    if m > n {
        lemma_scan_stops(es, n, m - 1);
    }
}

/// The result of a rendered edit batch: the renderer's refusal, or its
/// output with the source descriptor and the number of edits applied.
pub fn finish_source_edits(prepared: PreparedSourceEdits, rendered: Result<String, String>) -> (r: Result<
    SourceEditResult,
    SourceEditError,
>)
    ensures
        match rendered {
            Ok(output) => r matches Ok(res) && {
                &&& res.request_id == prepared.request_id
                &&& same_descriptor(res.source, prepared.source.desc())
                &&& res.output == output
                &&& res.edit_count == prepared.edits@.len()
            },
            Err(message) => r == Err::<SourceEditResult, SourceEditError>(SourceEditError::Rejected(message)),
        },
{
    match rendered {
        Ok(output) => {
            let source = copy_descriptor(prepared.source.descriptor());
            Ok(
                SourceEditResult {
                    request_id: prepared.request_id,
                    source,
                    output,
                    edit_count: prepared.edits.len(),
                },
            )
        },
        Err(message) => Err(SourceEditError::Rejected(message)),
    }
}

} // verus!
