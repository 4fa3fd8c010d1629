//! Request normalization for the typed common-operation facade. Sources must
//! arrive as checked inline content or bytes: the facade never resolves a
//! source reference and never opens a named path.
use crate::host::CoreError;
use crate::operation::{
    all_inline, bind_run, lemma_refused_bind, pre_error, refused_outcome, req_roles, request_error_text,
    request_outcome, source_bytes, validated_sources, OperationRequest, OperationRequestErrorCode,
    OperationSource, ValidatedOperationRequest,
};
use crate::text::owned;
use vstd::prelude::*;

verus! {

/// The code the facade reports for a request that fails validation.
pub open spec fn facade_code(c: OperationRequestErrorCode) -> Seq<char> {
    if c == OperationRequestErrorCode::ResourceLimit {
        "resource.limit"@
    } else if c == OperationRequestErrorCode::SourceResolution {
        "source.unresolved_reference"@
    } else {
        "operation.invalid_request"@
    }
}

/// Every request for the bytes of a source reference is refused.
fn refuse_reference(_s: &OperationSource, _n: u64) -> (r: Result<Vec<u8>, String>)
    ensures
        r matches Err(m) && m@ == "common facade requires inline source content or bytes"@,
{
    Err(owned("common facade requires inline source content or bytes"))
}

/// Validate a request for the facade under the input byte budget, with
/// every source reference refused. A failure carries the facade's code for
/// the request error and the error's text; success hands back the request
/// with its inline sources bound to their checked bytes.
pub fn normalize_operation_request(request: OperationRequest, max_input_bytes: u64) -> (r: Result<
    ValidatedOperationRequest,
    CoreError,
>)
    ensures
        match refused_outcome(
            request,
            max_input_bytes as int,
            "common facade requires inline source content or bytes"@,
        ) {
            Some((code, _, message)) => r matches Err(e) && e.code@ == facade_code(code) && e.message@
                == request_error_text(code, request.request_id@, message),
            None => r matches Ok(v) && v.spec_request() == request && validated_sources(request, v.spec_sources())
                && all_inline(request),
        },
{
    let ghost req = request;
    let ghost max = max_input_bytes as int;
    let checked = request.validate(max_input_bytes, refuse_reference);
    proof {
        if pre_error(req, max) is None {
            let got = choose|got: Seq<Result<Vec<u8>, String>>|
                #![trigger bind_run(refuse_reference, req, max, 0, got)]
                {
                    &&& got.len() == req_roles(req).len()
                    &&& bind_run(refuse_reference, req, max, 0, got) == Some(request_outcome(checked))
                    &&& checked matches Ok(v) ==> forall|i: int|
                        0 <= i < req_roles(req).len() ==> Some(#[trigger] v.spec_sources().docs()[i].data())
                            == source_bytes(req, i, got[i])
                };
            lemma_refused_bind(
                refuse_reference,
                req,
                max,
                0,
                got,
                "common facade requires inline source content or bytes"@,
            );
        }
    }
    match checked {
        Ok(v) => Ok(v),
        Err(e) => {
            let code = if e.code == OperationRequestErrorCode::ResourceLimit {
                "resource.limit"
            } else if e.code == OperationRequestErrorCode::SourceResolution {
                "source.unresolved_reference"
            } else {
                "operation.invalid_request"
            };
            Err(CoreError { code: owned(code), message: e.to_string() })
        },
    }
}

} // verus!
