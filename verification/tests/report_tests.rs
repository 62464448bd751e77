use orion_error::context::OperationContext;
use orion_error::error::ErrorIdentity;
use orion_error::metadata::ErrorMetadata;
use orion_error::protocol::{DefaultExposurePolicy, ExposureDecision, ExposurePolicy, Visibility};
use orion_error::reason::ErrorCategory;
use orion_error::report::{DiagnosticReport, RedactPolicy};
use orion_error::snapshot::{
    StableErrorSnapshot, StableSnapshotContextFrame, StableSnapshotSourceFrame,
    STABLE_SNAPSHOT_SCHEMA_VERSION,
};

#[derive(Debug)]
struct PathPolicy;

impl RedactPolicy for PathPolicy {
    fn redact_key(&self, _key: &str) -> bool {
        false
    }

    fn redact_value(&self, key: Option<&str>, value: &str) -> Option<String> {
        match key {
            Some("position") | Some("want") | Some("path") | Some("locator") => {
                Some(value.replace("/srv/app/config.toml", "<path-redacted>"))
            }
            _ => Some(value.to_string()),
        }
    }
}

#[derive(Debug)]
struct ReasonPolicy;

impl RedactPolicy for ReasonPolicy {
    fn redact_key(&self, _key: &str) -> bool {
        false
    }

    fn redact_value(&self, key: Option<&str>, value: &str) -> Option<String> {
        match key {
            Some("reason") | Some("source.reason") => Some(value.replace("secret", "<redacted>")),
            _ => Some(value.to_string()),
        }
    }
}

fn identity(code: &str, category: ErrorCategory, reason: &str) -> ErrorIdentity {
    ErrorIdentity {
        code: code.to_string(),
        category,
        reason: reason.to_string(),
        detail: None,
        position: None,
        path: None,
    }
}

fn check_default_exposure_policy() {
    let exposure_policy = DefaultExposurePolicy;
    let biz_identity = identity("biz.validation_error", ErrorCategory::Biz, "validation error");
    let sys_identity = identity("sys.io_error", ErrorCategory::Sys, "system error");

    assert_eq!(exposure_policy.http_status(&biz_identity), 400);
    assert_eq!(exposure_policy.http_status(&sys_identity), 500);
    assert_eq!(
        exposure_policy.visibility(&biz_identity),
        Visibility::Public
    );
    assert_eq!(
        exposure_policy.visibility(&sys_identity),
        Visibility::Internal
    );
    assert_eq!(
        exposure_policy.default_hints(&sys_identity),
        ["check filesystem state", "verify file permissions"]
    );
    assert_eq!(
        exposure_policy.decide(&sys_identity),
        ExposureDecision {
            http_status: 500,
            visibility: Visibility::Internal,
            default_hints: vec!["check filesystem state", "verify file permissions"],
            retryable: false,
        }
    );
}

#[test]
fn test_report_from_stable_snapshot_matches_report_methods() {
    let stable = StableErrorSnapshot {
        schema_version: STABLE_SNAPSHOT_SCHEMA_VERSION,
        reason: "system error".to_string(),
        detail: Some("outer detail".to_string()),
        position: None,
        path: Some("start engine".to_string()),
        context: vec![StableSnapshotContextFrame {
            target: Some("start engine".to_string()),
            action: None,
            locator: None,
            path: vec!["start engine".to_string()],
            metadata: ErrorMetadata::new(),
        }],
        root_metadata: ErrorMetadata::new(),
        source_frames: vec![StableSnapshotSourceFrame {
            index: 0,
            message: "db unavailable".to_string(),
            error_code: None,
            reason: None,
            path: Some("load config / read".to_string()),
            detail: Some("inner detail".to_string()),
            metadata: ErrorMetadata::new(),
            is_root_cause: true,
        }],
        category: ErrorCategory::Sys,
        code: "sys.test_error".to_string(),
    };

    let via_method = stable.report();
    let via_borrowed = DiagnosticReport::from(&stable);
    let via_owned = DiagnosticReport::from(stable);

    assert_eq!(via_borrowed, via_method);
    assert_eq!(via_owned, via_method);
}

fn check_verbose_render() {
    let report = DiagnosticReport::from_parts(
        "test error".to_string(),
        Some("failed".to_string()),
        None,
        vec![OperationContext::doing("load")],
    );

    let rendered = report.render();

    assert!(rendered.contains("reason: test error"));
    assert!(rendered.contains("detail: failed"));
    assert!(rendered.contains("context:"));
}

#[test]
fn report_test_report_verbose_render_includes_metadata() {
    check_verbose_render();
}

#[test]
fn report_cases_tests_test_report_verbose_render_includes_metadata() {
    check_verbose_render();
}

#[test]
fn report_test_default_exposure_policy_maps_category_to_http_status_and_visibility() {
    check_default_exposure_policy();
}

#[test]
fn protocol_json_tests_test_default_exposure_policy_maps_category_to_http_status_and_visibility() {
    check_default_exposure_policy();
}

fn check_root_and_frame_paths() {
    let report = DiagnosticReport::from_parts(
        "test error".to_string(),
        None,
        Some("/srv/app/config.toml:10".to_string()),
        vec![OperationContext::at("/srv/app/config.toml")],
    );

    let rendered = report.render_redacted(&PathPolicy);
    assert!(rendered.contains("<path-redacted>"));
    assert!(!rendered.contains("/srv/app/config.toml"));
}

#[test]
fn report_test_report_redaction_masks_root_and_frame_paths() {
    check_root_and_frame_paths();
}

#[test]
fn redaction_tests_test_report_redaction_masks_root_and_frame_paths() {
    check_root_and_frame_paths();
}

fn check_reason_fields() {
    let report = DiagnosticReport::from_parts(
        "tenant secret error".to_string(),
        None,
        None,
        vec![],
    );

    let redacted = report.redacted(&ReasonPolicy);
    assert_eq!(redacted.reason(), "tenant <redacted> error");
}

#[test]
fn report_test_report_redaction_masks_reason_fields() {
    check_reason_fields();
}

#[test]
fn redaction_tests_test_report_redaction_masks_reason_fields() {
    check_reason_fields();
}
