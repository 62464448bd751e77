use orion_error::context::OperationContext;
use orion_error::error::{ErrorIdentity, StructError};
use orion_error::protocol::{DefaultExposurePolicy, ErrorProtocolSnapshot, ExposureDecision, Visibility};
use orion_error::reason::{DomainReason, ErrorCategory, ErrorIdentityProvider};
use orion_error::report::{DiagnosticReport, RedactPolicy};
use orion_error::source::StdSource;
use orion_error::universal::UnifiedReason;

#[derive(Debug, Clone, PartialEq)]
enum TestReason {
    TestError,
    General(UnifiedReason),
}

impl DomainReason for TestReason {
    fn message(&self) -> String {
        match self {
            TestReason::TestError => "test error".to_string(),
            TestReason::General(r) => r.message(),
        }
    }
}

impl ErrorIdentityProvider for TestReason {
    fn stable_code(&self) -> &'static str {
        match self {
            TestReason::TestError => "test.test_error",
            TestReason::General(r) => r.stable_code(),
        }
    }

    fn error_category(&self) -> ErrorCategory {
        match self {
            TestReason::TestError => ErrorCategory::Logic,
            TestReason::General(r) => r.error_category(),
        }
    }
}

struct TestPolicy;

impl RedactPolicy for TestPolicy {
    fn redact_key(&self, key: &str) -> bool {
        matches!(key, "token" | "password" | "config.secret")
    }

    fn redact_value(&self, _key: Option<&str>, _value: &str) -> Option<String> {
        Some("<redacted>".to_string())
    }
}

fn engine_error() -> StructError<TestReason> {
    let source = StructError::from(TestReason::TestError).with_context(
        OperationContext::doing("load defaults").with_meta("config.kind", "sink_defaults"),
    );
    StructError::from(TestReason::General(UnifiedReason::system_error()))
        .with_context(OperationContext::doing("start engine").with_meta("component.name", "engine"))
        .with_struct_source(source)
}

#[test]
fn report_cases_tests_test_report_contains_root_and_source_data() {
    let err = engine_error();
    let report = err.report();
    let rendered = report.render();

    assert_eq!(report.reason(), "system error");
    assert!(rendered.contains("reason: system error"));
    assert!(rendered.contains("context:"));
    assert!(rendered.contains("start engine"));
}

#[test]
fn report_cases_tests_test_struct_error_into_report_matches_borrowed_report() {
    let err = engine_error();
    let via_borrowed = err.report();
    let via_owned = err.into_report();

    assert_eq!(via_owned, via_borrowed);
}

#[test]
fn report_cases_tests_test_report_from_struct_error_matches_report_methods() {
    let err = engine_error();
    let via_method = err.report();
    let via_borrowed = DiagnosticReport::from(&err);
    let via_owned = DiagnosticReport::from(err);

    assert_eq!(via_borrowed, via_method);
    assert_eq!(via_owned, via_method);
}

#[test]
fn test_struct_error_exposure_uses_real_stable_identity() {
    let err = StructError::from(TestReason::General(UnifiedReason::system_error()))
        .with_detail("engine bootstrap failed")
        .with_context(OperationContext::doing("start engine"));

    let snapshot = err.exposure_snapshot(&DefaultExposurePolicy);

    assert_eq!(snapshot.identity.code, "sys.io_error");
    assert_eq!(snapshot.identity.category, ErrorCategory::Sys);
    assert_eq!(snapshot.decision.http_status, 500);
    assert_eq!(
        snapshot.decision.default_hints,
        vec!["check filesystem state", "verify file permissions"]
    );
    assert_eq!(
        snapshot.decision,
        ExposureDecision {
            http_status: 500,
            visibility: Visibility::Internal,
            default_hints: vec!["check filesystem state", "verify file permissions"],
            retryable: false,
        }
    );
    assert_eq!(snapshot.identity.reason, "system error");
    assert!(snapshot.render().contains("reason: system error"));
}

#[test]
fn report_cases_tests_test_report_decision_uses_exposure_identity_fallback() {
    let report = DiagnosticReport::from_parts(
        "configuration error".to_string(),
        Some("invalid config".to_string()),
        None,
        vec![],
    );

    let identity = ErrorIdentity {
        code: "test.error".to_string(),
        category: ErrorCategory::Sys,
        reason: "configuration error".to_string(),
        detail: None,
        position: None,
        path: None,
    };

    let snapshot =
        ErrorProtocolSnapshot::from_report_skeleton(report, identity, &DefaultExposurePolicy);

    assert_eq!(
        snapshot.decision,
        ExposureDecision {
            http_status: 500,
            visibility: Visibility::Internal,
            default_hints: vec![],
            retryable: false,
        }
    );
}

#[test]
fn redaction_tests_test_render_user_debug_redacted_masks_sensitive_fields() {
    let err = StructError::from(TestReason::TestError).with_detail("token=abc").with_context({
        let mut ctx = OperationContext::doing("load");
        ctx.record_field("token", "abc");
        ctx.record_meta("component.name", "order_service");
        ctx.record_meta("config.secret", "abc");
        ctx
    });

    let rendered =
        err.exposure_snapshot(&DefaultExposurePolicy).render_user_debug_redacted(&TestPolicy);

    assert!(rendered.contains("<redacted>"));
    assert!(!rendered.contains("token=abc"));
    assert!(!rendered.contains("token=\"abc\""));
    assert!(!rendered.contains("config.secret"));
}

#[test]
fn redaction_tests_test_report_redaction_masks_sensitive_fields() {
    let err = StructError::from(TestReason::TestError)
        .with_detail("token=abc")
        .with_std_source(StdSource::new("token=abc", "std::io::Error"))
        .with_context(OperationContext::doing("load").with_meta("config.secret", "abc"));

    let rendered = err.render_redacted(&TestPolicy);
    assert!(rendered.contains("<redacted>"));
    assert!(!rendered.contains("abc"));
}

#[test]
fn redaction_tests_test_report_redaction_masks_source_frame_message() {
    let err = StructError::from(TestReason::TestError)
        .with_std_source(StdSource::new("https://svc.local?token=abc", "std::io::Error"));

    let rendered = err.render_redacted(&TestPolicy);

    assert!(rendered.contains("<redacted>"));
    assert!(!rendered.contains("svc.local"));
    assert!(!rendered.contains("token=abc"));
}

struct ValueOnlyPolicy;

impl RedactPolicy for ValueOnlyPolicy {
    fn redact_key(&self, _key: &str) -> bool {
        false
    }

    fn redact_value(&self, key: Option<&str>, value: &str) -> Option<String> {
        match key {
            Some("detail") => Some("<detail-redacted>".to_string()),
            Some("token") => Some("<token-redacted>".to_string()),
            Some("config.secret") => Some("<secret-redacted>".to_string()),
            _ => Some(value.to_string()),
        }
    }
}

#[test]
fn redaction_tests_test_report_redaction_applies_value_hook_without_redact_key() {
    let err = StructError::from(TestReason::TestError).with_detail("token=abc").with_context({
        let mut ctx = OperationContext::doing("load");
        ctx.record("token", "abc");
        ctx.record_meta("config.secret", "abc");
        ctx
    });

    let rendered = err.render_redacted(&ValueOnlyPolicy);
    assert!(rendered.contains("<detail-redacted>"));
    assert!(rendered.contains("<token-redacted>"));
    assert!(!rendered.contains("token=abc"));
    assert!(!rendered.contains("token: abc"));
    assert!(!rendered.contains("config.secret"));
}

#[test]
fn report_test_render_user_debug_redacted_masks_sensitive_fields() {
    let err = StructError::from(TestReason::TestError).with_detail("token=abc").with_context({
        let mut ctx = OperationContext::doing("load");
        ctx.record_field("token", "abc");
        ctx.record_meta("component.name", "order_service");
        ctx.record_meta("config.secret", "abc");
        ctx
    });

    let rendered =
        err.exposure_snapshot(&DefaultExposurePolicy).render_user_debug_redacted(&TestPolicy);

    assert!(rendered.contains("<redacted>"));
    assert!(!rendered.contains("token=abc"));
    assert!(!rendered.contains("token=\"abc\""));
    assert!(!rendered.contains("config.secret"));
}

#[test]
fn report_test_report_redaction_masks_sensitive_fields() {
    let err = StructError::from(TestReason::TestError)
        .with_detail("token=abc")
        .with_std_source(StdSource::new("token=abc", "std::io::Error"))
        .with_context(OperationContext::doing("load").with_meta("config.secret", "abc"));

    let rendered = err.render_redacted(&TestPolicy);
    assert!(rendered.contains("<redacted>"));
    assert!(!rendered.contains("abc"));
}

#[test]
fn report_test_report_redaction_masks_source_frame_message() {
    let err = StructError::from(TestReason::TestError)
        .with_std_source(StdSource::new("https://svc.local?token=abc", "std::io::Error"));

    let rendered = err.render_redacted(&TestPolicy);

    assert!(rendered.contains("<redacted>"));
    assert!(!rendered.contains("svc.local"));
    assert!(!rendered.contains("token=abc"));
}

#[test]
fn report_test_report_redaction_applies_value_hook_without_redact_key() {
    let err = StructError::from(TestReason::TestError).with_detail("token=abc").with_context({
        let mut ctx = OperationContext::doing("load");
        ctx.record("token", "abc");
        ctx.record_meta("config.secret", "abc");
        ctx
    });

    let rendered = err.render_redacted(&ValueOnlyPolicy);
    assert!(rendered.contains("<detail-redacted>"));
    assert!(rendered.contains("<token-redacted>"));
    assert!(!rendered.contains("token=abc"));
    assert!(!rendered.contains("token: abc"));
    assert!(!rendered.contains("config.secret"));
}
