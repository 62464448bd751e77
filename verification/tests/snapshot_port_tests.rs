use orion_error::context::OperationContext;
use orion_error::error::StructError;
use orion_error::metadata::ErrorMetadata;
use orion_error::reason::{DomainReason, ErrorCategory, ErrorIdentityProvider};
use orion_error::snapshot::{
    ErrorSnapshot, SnapshotSourceFrame, StableErrorSnapshot, StableSnapshotCompat,
    StableSnapshotSourceFrame, STABLE_SNAPSHOT_SCHEMA_VERSION,
};
use orion_error::source::SourceFrame;
use orion_error::universal::UnifiedReason;

#[derive(Debug, Clone, PartialEq)]
enum TestReason {
    TestError,
    Uvs(UnifiedReason),
}

impl DomainReason for TestReason {
    fn message(&self) -> String {
        match self {
            TestReason::TestError => "test error".to_string(),
            TestReason::Uvs(r) => r.message(),
        }
    }
}

impl ErrorIdentityProvider for TestReason {
    fn stable_code(&self) -> &'static str {
        match self {
            TestReason::TestError => "test.test_error",
            TestReason::Uvs(r) => r.stable_code(),
        }
    }

    fn error_category(&self) -> ErrorCategory {
        match self {
            TestReason::TestError => ErrorCategory::Logic,
            TestReason::Uvs(r) => r.error_category(),
        }
    }
}

fn defaults_source() -> StructError<TestReason> {
    StructError::from(TestReason::TestError).with_detail("inner detail").with_context(
        OperationContext::doing("load defaults").with_meta("config.kind", "sink_defaults"),
    )
}

fn start_engine_error() -> StructError<TestReason> {
    StructError::from(TestReason::TestError)
        .with_detail("engine bootstrap failed")
        .with_context(OperationContext::doing("start engine"))
}

#[test]
fn tests_test_snapshot_captures_runtime_fields_and_source_frames() {
    let source = StructError::from(TestReason::TestError).with_context(
        OperationContext::doing("load defaults").with_meta("config.kind", "sink_defaults"),
    );
    let err = StructError::from(TestReason::Uvs(UnifiedReason::system_error()))
        .with_detail("engine bootstrap failed")
        .with_position("src/main.rs:42")
        .with_context(OperationContext::doing("start engine").with_meta("component.name", "engine"))
        .with_struct_source(source);

    let snapshot = err.snapshot();

    assert_eq!(snapshot.reason, "system error");
    assert_eq!(snapshot.detail.as_deref(), Some("engine bootstrap failed"));
    assert_eq!(snapshot.position.as_deref(), Some("src/main.rs:42"));
    assert_eq!(snapshot.context[0].target.as_deref(), Some("start engine"));
    assert_eq!(snapshot.root_metadata.get_str("component.name"), Some("engine"));
    assert_eq!(snapshot.source_frames[0].metadata.get_str("config.kind"), Some("sink_defaults"));
}

#[test]
fn test_identity_snapshot_captures_stable_identity_fields() {
    let err = StructError::from(TestReason::Uvs(UnifiedReason::system_error()))
        .with_detail("engine bootstrap failed")
        .with_position("src/main.rs:42")
        .with_context(OperationContext::doing("start engine"));

    let identity = err.identity_snapshot();

    assert_eq!(identity.code, "sys.io_error");
    assert_eq!(identity.category, ErrorCategory::Sys);
    assert_eq!(identity.reason, "system error");
    assert_eq!(identity.detail.as_deref(), Some("engine bootstrap failed"));
    assert_eq!(identity.position.as_deref(), Some("src/main.rs:42"));
    assert_eq!(identity.path.as_deref(), Some("start engine"));
}

#[test]
fn test_snapshot_preserves_action_and_locator_context_fields() {
    let mut ctx = OperationContext::at("config.toml");
    ctx.with_doing("parse config");

    let err = StructError::from(TestReason::Uvs(UnifiedReason::system_error()))
        .with_context(OperationContext::doing("load config").with_meta("component.name", "engine"))
        .with_context(ctx);

    let snapshot = err.snapshot();

    assert_eq!(snapshot.context[0].action.as_deref(), Some("load config"));
    assert_eq!(snapshot.context[1].action.as_deref(), Some("parse config"));
    assert_eq!(snapshot.context[1].locator.as_deref(), Some("config.toml"));

    let report = snapshot.into_report();
    assert_eq!(report.context()[1].action().as_deref(), Some("parse config"));
    assert_eq!(report.context()[1].locator().as_deref(), Some("config.toml"));
}

#[test]
fn tests_test_snapshot_from_struct_error_matches_snapshot_method() {
    let err = start_engine_error();
    let via_method = err.snapshot();
    let via_from = ErrorSnapshot::from(&err);
    assert_eq!(via_from, via_method);
}

#[test]
fn tests_test_snapshot_from_owned_struct_error_matches_snapshot_method() {
    let err = start_engine_error();
    let via_method = err.snapshot();
    let via_from = ErrorSnapshot::from(err);
    assert_eq!(via_from, via_method);
}

#[test]
fn tests_test_struct_error_into_snapshot_matches_snapshot_method() {
    let err = start_engine_error();
    let via_method = err.snapshot();
    let via_into = err.into_snapshot();
    assert_eq!(via_into, via_method);
}

#[test]
fn tests_test_snapshot_stable_helpers_prefer_snapshot_native_frames() {
    let err = StructError::from(TestReason::Uvs(UnifiedReason::system_error()))
        .with_detail("outer detail")
        .with_context(OperationContext::doing("start engine"))
        .with_struct_source(defaults_source());

    let snapshot = err.snapshot();

    assert_eq!(snapshot.stable_context(), snapshot.context.as_slice());
    assert_eq!(snapshot.stable_source_frames(), snapshot.source_frames.as_slice());
    assert_eq!(snapshot.root_source_frame().unwrap().message, "test error");
    assert_eq!(
        snapshot.root_source_frame().unwrap().metadata.get_str("config.kind"),
        Some("sink_defaults")
    );
}

#[test]
fn tests_test_snapshot_stable_export_strips_compat_projection_fields() {
    let mut outer = OperationContext::at("engine.toml");
    outer.with_doing("start engine");
    let err = StructError::from(TestReason::Uvs(UnifiedReason::system_error()))
        .with_detail("outer detail")
        .with_context(outer)
        .with_struct_source(defaults_source());

    let snapshot = err.snapshot();
    let stable = snapshot.stable_export();

    assert_eq!(stable.schema_version(), STABLE_SNAPSHOT_SCHEMA_VERSION);
    assert_eq!(stable.reason(), snapshot.reason);
    assert_eq!(stable.path(), Some("start engine / engine.toml"));
    assert_eq!(stable.root_metadata().get_str("component.name"), None);
    let report = stable.report();
    assert_eq!(report.context()[0].compat_target().as_deref(), Some("start engine"));
    assert_eq!(report.context()[0].action().as_deref(), Some("start engine"));
    assert_eq!(report.context()[0].locator().as_deref(), Some("engine.toml"));
}

#[test]
fn tests_test_stable_snapshot_from_struct_error_matches_snapshot_stable_export() {
    let err = StructError::from(TestReason::Uvs(UnifiedReason::system_error()))
        .with_detail("outer detail")
        .with_context(OperationContext::doing("start engine"))
        .with_struct_source(defaults_source());

    let via_method = err.snapshot().stable_export();
    let via_borrowed = StableErrorSnapshot::from(&err);
    let via_owned = StableErrorSnapshot::from(err);

    assert_eq!(via_borrowed, via_method);
    assert_eq!(via_owned, via_method);
}

#[test]
fn tests_test_snapshot_source_frame_roundtrip_to_report_frame() {
    let frame = SnapshotSourceFrame {
        index: 0,
        message: "db unavailable".to_string(),
        display: Some("db unavailable".to_string()),
        error_type: Some("std::io::Error".to_string()),
        error_code: None,
        reason: None,
        path: Some("load config / read".to_string()),
        detail: Some("inner detail".to_string()),
        metadata: {
            let mut metadata = ErrorMetadata::new();
            metadata.insert("config.kind", "sink_defaults");
            metadata
        },
        is_root_cause: true,
    };

    let report_frame: SourceFrame = frame.clone().into();
    let roundtrip = SnapshotSourceFrame::from(report_frame);

    assert_eq!(roundtrip, frame);
}

#[test]
fn test_stable_snapshot_source_frame_to_source_frame_roundtrip() {
    let stable = StableSnapshotSourceFrame {
        index: 0,
        message: "db unavailable".to_string(),
        error_code: Some(200),
        reason: Some("test error".to_string()),
        path: Some("load config / read".to_string()),
        detail: Some("inner detail".to_string()),
        metadata: {
            let mut metadata = ErrorMetadata::new();
            metadata.insert("config.kind", "sink_defaults");
            metadata
        },
        is_root_cause: true,
    };

    let source_frame: SourceFrame = stable.clone().into();
    let roundtrip: SnapshotSourceFrame = source_frame.into();

    assert_eq!(roundtrip.index, stable.index);
    assert_eq!(roundtrip.message, stable.message);
    assert_eq!(roundtrip.error_code, stable.error_code);
    assert_eq!(roundtrip.reason, stable.reason);
    assert_eq!(roundtrip.path, stable.path);
    assert_eq!(roundtrip.detail, stable.detail);
    assert_eq!(roundtrip.metadata.get_str("config.kind"), Some("sink_defaults"));
    assert!(roundtrip.is_root_cause);
}

#[test]
fn snapshot_test_struct_error_into_snapshot_matches_snapshot_method() {
    let err = start_engine_error();
    let via_method = err.snapshot();
    let via_into = err.into_snapshot();
    assert_eq!(via_into, via_method);
}

#[test]
fn snapshot_test_snapshot_stable_helpers_prefer_snapshot_native_frames() {
    let err = StructError::from(TestReason::Uvs(UnifiedReason::system_error()))
        .with_detail("outer detail")
        .with_context(OperationContext::doing("start engine"))
        .with_struct_source(defaults_source());

    let snapshot = err.snapshot();

    assert_eq!(snapshot.stable_context(), snapshot.context.as_slice());
    assert_eq!(snapshot.stable_source_frames(), snapshot.source_frames.as_slice());
    assert_eq!(snapshot.root_source_frame().unwrap().message, "test error");
    assert_eq!(
        snapshot.root_source_frame().unwrap().metadata.get_str("config.kind"),
        Some("sink_defaults")
    );
}

fn plain_frame(index: usize, message: &str, root: bool) -> SnapshotSourceFrame {
    SnapshotSourceFrame {
        index,
        message: message.to_string(),
        display: None,
        error_type: None,
        error_code: None,
        reason: None,
        path: None,
        detail: None,
        metadata: ErrorMetadata::new(),
        is_root_cause: root,
    }
}

#[test]
fn law_case_root_source_frame_is_first_flagged() {
    let mut snapshot = StructError::from(TestReason::TestError).snapshot();
    snapshot.source_frames = vec![plain_frame(0, "outer", false), plain_frame(1, "inner", false)];
    assert!(snapshot.root_source_frame().is_none());
    snapshot.source_frames = vec![
        plain_frame(0, "outer", false),
        plain_frame(1, "middle", true),
        plain_frame(2, "inner", true),
    ];
    assert_eq!(snapshot.root_source_frame().unwrap().message, "middle");
}
