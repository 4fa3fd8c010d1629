use structuredmerge_core::host::service_failure_category;
use structuredmerge_core::portable_diagnostic::PortableCategory;
use structuredmerge_core::source::{SourceError, SourceErrorCode};
use structuredmerge_core::{CoreError, ParserFailure, ServiceError};

const SELECTION_REPORT: &str = r#"{"requested":{"backend_id":"missing","preference":[],"required_capabilities":[]},"generation":0,"digest":"snapshot","candidates":[],"selected_backend":null}"#;

fn source_error(code: SourceErrorCode) -> ServiceError {
    ServiceError::Source {
        error: SourceError { code, source_id: "ours".into() },
        text: "source ours failed validation".into(),
    }
}

#[test]
fn service_failures_have_stable_distinct_codes() {
    let cases = [
        (ServiceError::InvalidRequest, "request.invalid"),
        (ServiceError::LimitExceeded, "resource.limit"),
        (ServiceError::Cancelled, "execution.cancelled"),
        (ServiceError::DeadlineExceeded, "execution.deadline_exceeded"),
        (source_error(SourceErrorCode::DescriptorMismatch), "source.invalid"),
        (
            ServiceError::Selection {
                requested_backend: Some("missing".into()),
                report: SELECTION_REPORT.into(),
            },
            "selection.no_parser",
        ),
        (
            ServiceError::Provider {
                backend_id: "native".into(),
                fault_code: "native_code".into(),
                fault_message: "native exception".into(),
            },
            "parser.provider_fault",
        ),
        (ServiceError::ProviderPanic { backend_id: "native".into() }, "parser.provider_panic"),
        (ServiceError::InvalidBatch { backend_id: "native".into() }, "parser.invalid_batch"),
        (
            ServiceError::InvalidResult { backend_id: "native".into(), error: "IdentityMismatch".into() },
            "parser.invalid_result",
        ),
        (
            ServiceError::InvalidResult { backend_id: "native".into(), error: "LimitExceeded".into() },
            "resource.limit",
        ),
    ];
    for (error, expected) in cases {
        let projected = CoreError::from_service(&error);
        assert_eq!(projected.code, expected);
        assert!(!projected.message.is_empty());
        assert!(projected.to_text().starts_with(&format!("{expected}: ")));
    }
}

#[test]
fn provider_native_code_cannot_replace_the_portable_code() {
    let error = CoreError::from_service(&ServiceError::Provider {
        backend_id: "ruby.psych".into(),
        fault_code: "execution.cancelled".into(),
        fault_message: "provider says cancelled".into(),
    });
    assert_eq!(error.code, "parser.provider_fault");
    assert!(error.message.contains("ruby.psych"));
    assert!(error.message.contains("execution.cancelled"));
}

#[test]
fn service_failure_messages_are_exact() {
    let message = |e: ServiceError| CoreError::from_service(&e).message;
    assert_eq!(
        message(ServiceError::Provider {
            backend_id: "b".into(),
            fault_code: "c".into(),
            fault_message: "m".into()
        }),
        "parser b: c: m"
    );
    assert_eq!(message(ServiceError::ProviderPanic { backend_id: "b".into() }), "parser b panicked");
    assert_eq!(
        message(ServiceError::InvalidBatch { backend_id: "b".into() }),
        "parser b returned an invalid batch"
    );
    assert_eq!(
        message(ServiceError::InvalidResult { backend_id: "b".into(), error: "LimitExceeded".into() }),
        "parser b result failed validation: LimitExceeded"
    );
    assert_eq!(
        message(ServiceError::Selection { requested_backend: Some("x".into()), report: "{}".into() }),
        "no eligible parser for explicit backend x"
    );
    assert_eq!(
        message(ServiceError::Selection { requested_backend: None, report: "{}".into() }),
        "no eligible parser for request"
    );
    assert_eq!(message(source_error(SourceErrorCode::InvalidUtf8)), "source ours failed validation");
    assert_eq!(message(ServiceError::Cancelled), "operation cancelled");
    assert_eq!(
        CoreError::from_service(&source_error(SourceErrorCode::LimitExceeded)).code,
        "resource.limit"
    );
    assert_eq!(CoreError::from_service(&ServiceError::Cancelled).to_text(), "execution.cancelled: operation cancelled");
}

#[test]
fn parser_failures_keep_native_evidence_beside_the_portable_code() {
    let failure = ParserFailure::from_service(&ServiceError::Provider {
        backend_id: "ruby.psych".into(),
        fault_code: "native_code".into(),
        fault_message: "private".into(),
    });
    assert_eq!(failure.code, "parser.provider_fault");
    assert_eq!(failure.backend_id.as_deref(), Some("ruby.psych"));
    assert_eq!(failure.native_code.as_deref(), Some("native_code"));
    assert_eq!(failure.native_message.as_deref(), Some("private"));
    assert_eq!((failure.source_id, failure.selection), (None, None));

    let failure = ParserFailure::from_service(&ServiceError::Selection {
        requested_backend: Some("missing".into()),
        report: SELECTION_REPORT.into(),
    });
    assert_eq!(failure.code, "selection.no_parser");
    assert_eq!(failure.selection.as_deref(), Some(SELECTION_REPORT));
    assert_eq!(failure.backend_id, None);

    let failure = ParserFailure::from_service(&source_error(SourceErrorCode::DescriptorMismatch));
    assert_eq!(failure.source_id.as_deref(), Some("ours"));
    assert_eq!(failure.backend_id, None);

    let failure = ParserFailure::from_service(&ServiceError::InvalidBatch { backend_id: "b".into() });
    assert_eq!(failure.backend_id.as_deref(), Some("b"));
    assert_eq!(failure.native_code, None);

    let failure = ParserFailure::from_service(&ServiceError::Cancelled);
    assert_eq!(failure.code, "execution.cancelled");
    assert_eq!(
        (failure.backend_id, failure.native_code, failure.native_message, failure.source_id, failure.selection),
        (None, None, None, None, None)
    );
}

#[test]
fn service_failure_categories_separate_limits_from_invalid_input() {
    assert_eq!(service_failure_category(&ServiceError::Cancelled), PortableCategory::Cancelled);
    assert_eq!(service_failure_category(&ServiceError::DeadlineExceeded), PortableCategory::DeadlineExceeded);
    assert_eq!(service_failure_category(&ServiceError::LimitExceeded), PortableCategory::ResourceLimit);
    assert_eq!(
        service_failure_category(&source_error(SourceErrorCode::LimitExceeded)),
        PortableCategory::ResourceLimit
    );
    assert_eq!(
        service_failure_category(&source_error(SourceErrorCode::InvalidUtf8)),
        PortableCategory::InvalidRequest
    );
    assert_eq!(
        service_failure_category(&ServiceError::InvalidResult {
            backend_id: "native".into(),
            error: "LimitExceeded".into()
        }),
        PortableCategory::ResourceLimit
    );
    assert_eq!(
        service_failure_category(&ServiceError::InvalidResult {
            backend_id: "native".into(),
            error: "IdentityMismatch".into()
        }),
        PortableCategory::InternalError
    );
    assert_eq!(
        service_failure_category(&ServiceError::Selection { requested_backend: None, report: "{}".into() }),
        PortableCategory::SelectionError
    );
    assert_eq!(service_failure_category(&ServiceError::InvalidRequest), PortableCategory::InvalidRequest);
    assert_eq!(
        service_failure_category(&ServiceError::ProviderPanic { backend_id: "native".into() }),
        PortableCategory::InternalError
    );
}
