use orion_error::context::{OperationContext, OperationResult};
use orion_error::metadata::ErrorMetadata;
use orion_error::reason::ErrorCategory;
use orion_error::report::DiagnosticReport;
use orion_error::snapshot::{
    ErrorSnapshot, SnapshotContextFrame, SnapshotSourceFrame, StableErrorSnapshot,
    StableSnapshotCompat, StableSnapshotContextFrame, StableSnapshotSourceFrame,
    STABLE_SNAPSHOT_SCHEMA_VERSION,
};

fn start_engine_frame(fields: Vec<(String, String)>) -> SnapshotContextFrame {
    SnapshotContextFrame {
        target: Some("start engine".to_string()),
        action: None,
        locator: None,
        path: vec!["start engine".to_string()],
        metadata: ErrorMetadata::new(),
        fields,
        result: OperationResult::Fail,
    }
}

fn db_frame(display: Option<&str>, error_type: Option<&str>) -> SnapshotSourceFrame {
    SnapshotSourceFrame {
        index: 0,
        message: "db unavailable".to_string(),
        display: display.map(str::to_string),
        error_type: error_type.map(str::to_string),
        error_code: None,
        reason: None,
        path: Some("load config / read".to_string()),
        detail: Some("inner detail".to_string()),
        metadata: ErrorMetadata::new(),
        is_root_cause: true,
    }
}

fn stable_start_engine_frame() -> StableSnapshotContextFrame {
    StableSnapshotContextFrame {
        target: Some("start engine".to_string()),
        action: None,
        locator: None,
        path: vec!["start engine".to_string()],
        metadata: ErrorMetadata::new(),
    }
}

fn stable_db_frame() -> StableSnapshotSourceFrame {
    StableSnapshotSourceFrame {
        index: 0,
        message: "db unavailable".to_string(),
        error_code: None,
        reason: None,
        path: Some("load config / read".to_string()),
        detail: Some("inner detail".to_string()),
        metadata: ErrorMetadata::new(),
        is_root_cause: true,
    }
}

#[test]
fn snapshot_test_snapshot_into_report_matches_borrowed_report() {
    let snapshot = ErrorSnapshot {
        reason: "system error".to_string(),
        detail: Some("engine bootstrap failed".to_string()),
        position: Some("src/main.rs:42".to_string()),
        path: Some("start engine".to_string()),
        category: ErrorCategory::Sys,
        code: "sys.test_error".to_string(),
        context: vec![start_engine_frame(vec![("tenant".to_string(), "alpha".to_string())])],
        root_metadata: ErrorMetadata::new(),
        source_frames: vec![db_frame(Some("db unavailable"), Some("std::io::Error"))],
    };

    let via_borrowed = snapshot.report();
    let via_owned = snapshot.clone().into_report();
    let via_from = DiagnosticReport::from(snapshot);

    assert_eq!(via_owned, via_borrowed);
    assert_eq!(via_from, via_borrowed);
}

#[test]
fn snapshot_test_snapshot_into_stable_export_matches_borrowed_stable_export() {
    let snapshot = ErrorSnapshot {
        reason: "system error".to_string(),
        detail: Some("outer detail".to_string()),
        position: Some("src/main.rs:42".to_string()),
        path: Some("start engine".to_string()),
        category: ErrorCategory::Sys,
        code: "sys.test_error".to_string(),
        context: vec![start_engine_frame(vec![("tenant".to_string(), "alpha".to_string())])],
        root_metadata: ErrorMetadata::new(),
        source_frames: vec![db_frame(Some("db unavailable"), Some("std::io::Error"))],
    };

    let via_borrowed = snapshot.stable_export();
    let via_owned = snapshot.clone().into_stable_export();
    let via_from_borrowed = StableErrorSnapshot::from(&snapshot);
    let via_from_owned = StableErrorSnapshot::from(snapshot);

    assert_eq!(via_owned, via_borrowed);
    assert_eq!(via_from_borrowed, via_borrowed);
    assert_eq!(via_from_owned, via_borrowed);
    assert_eq!(via_borrowed.schema_version, STABLE_SNAPSHOT_SCHEMA_VERSION);
}

#[test]
fn test_snapshot_frame_stable_from_matches_stable_export() {
    let context = start_engine_frame(vec![("tenant".to_string(), "alpha".to_string())]);
    let source = db_frame(Some("db unavailable"), Some("std::io::Error"));

    assert_eq!(
        StableSnapshotContextFrame::from(&context),
        context.stable_export()
    );
    assert_eq!(
        StableSnapshotContextFrame::from(context.clone()),
        context.stable_export()
    );
    assert_eq!(
        StableSnapshotSourceFrame::from(&source),
        source.stable_export()
    );
    assert_eq!(
        StableSnapshotSourceFrame::from(source.clone()),
        source.stable_export()
    );
}

fn stable_fixture(position: Option<&str>) -> StableErrorSnapshot {
    StableErrorSnapshot {
        schema_version: STABLE_SNAPSHOT_SCHEMA_VERSION,
        reason: "system error".to_string(),
        detail: Some("outer detail".to_string()),
        position: position.map(str::to_string),
        path: Some("start engine".to_string()),
        category: ErrorCategory::Sys,
        code: "sys.test_error".to_string(),
        context: vec![stable_start_engine_frame()],
        root_metadata: ErrorMetadata::new(),
        source_frames: vec![stable_db_frame()],
    }
}

#[test]
fn test_stable_snapshot_compat_export_is_lossy_projection() {
    let stable = stable_fixture(Some("src/main.rs:42"));

    let via_method = StableSnapshotCompat::compat_export(&stable);
    let via_borrowed_explicit = StableSnapshotCompat::compat_export(&stable);
    let via_owned_explicit = StableSnapshotCompat::into_compat_export(stable.clone());

    assert_eq!(via_borrowed_explicit, via_method);
    assert_eq!(via_owned_explicit, via_method);
    assert_eq!(via_method.reason, stable.reason);
    assert_eq!(via_method.context[0].fields, Vec::<(String, String)>::new());
    assert_eq!(via_method.context[0].result, OperationResult::Fail);
    assert_eq!(via_method.source_frames[0].display, None);
    assert_eq!(via_method.source_frames[0].error_type, None);
}

#[test]
fn test_stable_snapshot_into_report_matches_compat_report() {
    let stable = stable_fixture(None);

    let via_method = stable.report();
    let via_owned = stable.clone().into_report();

    assert_eq!(via_owned, via_method);
    assert_eq!(
        via_method,
        StableSnapshotCompat::compat_export(&stable).report()
    );
}

#[test]
fn test_stable_frame_to_compat_frame_defaults_compat_fields() {
    let context = stable_start_engine_frame();
    let source = stable_db_frame();

    let compat_context = SnapshotContextFrame::from(&context);
    let compat_source = SnapshotSourceFrame::from(&source);

    assert_eq!(compat_context.target, context.target);
    assert_eq!(compat_context.path, context.path);
    assert_eq!(compat_context.fields, Vec::<(String, String)>::new());
    assert_eq!(compat_context.result, OperationResult::Fail);
    assert_eq!(compat_source.message, source.message);
    assert_eq!(compat_source.display, None);
    assert_eq!(compat_source.error_type, None);
}

#[test]
fn snapshot_test_snapshot_context_frame_roundtrip_normalizes_action_locator_path() {
    let mut ctx = OperationContext::at("engine.toml");
    ctx.with_doing("start engine");

    let snapshot_frame = SnapshotContextFrame::from(ctx);
    let roundtrip: OperationContext = snapshot_frame.clone().into();

    assert_eq!(snapshot_frame.target.as_deref(), Some("start engine"));
    assert_eq!(snapshot_frame.action.as_deref(), Some("start engine"));
    assert_eq!(snapshot_frame.locator.as_deref(), Some("engine.toml"));
    assert_eq!(
        snapshot_frame.path,
        vec!["start engine".to_string(), "engine.toml".to_string()]
    );
    assert_eq!(
        roundtrip.path(),
        vec!["start engine".to_string(), "engine.toml".to_string()]
    );
    assert_eq!(
        roundtrip.path_string().as_deref(),
        Some("start engine / engine.toml")
    );
}

#[test]
fn tests_test_snapshot_report_conversion_preserves_payload() {
    let snapshot = ErrorSnapshot {
        reason: "system error".to_string(),
        detail: Some("engine bootstrap failed".to_string()),
        position: Some("src/main.rs:42".to_string()),
        path: Some("start engine / load defaults".to_string()),
        context: vec![start_engine_frame(vec![])],
        root_metadata: {
            let mut metadata = ErrorMetadata::new();
            metadata.insert("component.name", "engine");
            metadata
        },
        source_frames: vec![],
        category: ErrorCategory::Sys,
        code: "sys.test_error".to_string(),
    };

    let report = snapshot.report();

    assert_eq!(report.reason(), snapshot.reason);
    assert_eq!(report.detail(), snapshot.detail.as_deref());
    assert_eq!(report.position(), snapshot.position.as_deref());
    assert_eq!(
        report.context(),
        snapshot
            .context
            .clone()
            .into_iter()
            .map(Into::into)
            .collect::<Vec<OperationContext>>()
            .as_slice()
    );
}

#[test]
fn tests_test_snapshot_into_report_matches_borrowed_report() {
    let snapshot = ErrorSnapshot {
        reason: "system error".to_string(),
        detail: Some("engine bootstrap failed".to_string()),
        position: Some("src/main.rs:42".to_string()),
        path: Some("start engine".to_string()),
        context: vec![start_engine_frame(vec![("tenant".to_string(), "alpha".to_string())])],
        root_metadata: ErrorMetadata::new(),
        source_frames: vec![db_frame(Some("db unavailable"), Some("std::io::Error"))],
        category: ErrorCategory::Sys,
        code: "sys.test_error".to_string(),
    };

    let via_borrowed = snapshot.report();
    let via_owned = snapshot.clone().into_report();
    let via_from = DiagnosticReport::from(snapshot);

    assert_eq!(via_owned, via_borrowed);
    assert_eq!(via_from, via_borrowed);
}

#[test]
fn tests_test_snapshot_into_stable_export_matches_borrowed_stable_export() {
    let snapshot = ErrorSnapshot {
        reason: "system error".to_string(),
        detail: Some("outer detail".to_string()),
        position: Some("src/main.rs:42".to_string()),
        path: Some("start engine".to_string()),
        context: vec![start_engine_frame(vec![("tenant".to_string(), "alpha".to_string())])],
        root_metadata: ErrorMetadata::new(),
        source_frames: vec![db_frame(Some("db unavailable"), Some("std::io::Error"))],
        category: ErrorCategory::Sys,
        code: "sys.test_error".to_string(),
    };

    let via_borrowed = snapshot.stable_export();
    let via_owned = snapshot.clone().into_stable_export();
    let via_from_borrowed = StableErrorSnapshot::from(&snapshot);
    let via_from_owned = StableErrorSnapshot::from(snapshot);

    assert_eq!(via_owned, via_borrowed);
    assert_eq!(via_from_borrowed, via_borrowed);
    assert_eq!(via_from_owned, via_borrowed);
    assert_eq!(
        via_borrowed.schema_version(),
        STABLE_SNAPSHOT_SCHEMA_VERSION
    );
}

#[test]
fn test_stable_snapshot_into_report_matches_report() {
    let stable = ErrorSnapshot {
        reason: "system error".to_string(),
        detail: Some("outer detail".to_string()),
        position: None,
        path: Some("start engine".to_string()),
        context: vec![start_engine_frame(vec![])],
        root_metadata: ErrorMetadata::new(),
        source_frames: vec![db_frame(None, None)],
        category: ErrorCategory::Sys,
        code: "sys.test_error".to_string(),
    }
    .stable_export();

    let via_method = stable.report();
    let via_owned = stable.clone().into_report();

    assert_eq!(via_owned, via_method);
}

#[test]
fn test_stable_snapshot_accessors_expose_only_top_level_contract() {
    let stable = ErrorSnapshot {
        reason: "system error".to_string(),
        detail: Some("outer detail".to_string()),
        position: Some("src/main.rs:42".to_string()),
        path: Some("start engine / engine.toml".to_string()),
        context: vec![],
        root_metadata: {
            let mut metadata = ErrorMetadata::new();
            metadata.insert("component.name", "engine");
            metadata
        },
        source_frames: vec![],
        category: ErrorCategory::Sys,
        code: "sys.test_error".to_string(),
    }
    .stable_export();

    assert_eq!(stable.schema_version(), STABLE_SNAPSHOT_SCHEMA_VERSION);
    assert_eq!(stable.reason(), "system error");
    assert_eq!(stable.detail(), Some("outer detail"));
    assert_eq!(stable.position(), Some("src/main.rs:42"));
    assert_eq!(stable.path(), Some("start engine / engine.toml"));
    assert_eq!(stable.category(), ErrorCategory::Sys);
    assert_eq!(stable.code(), "sys.test_error");
    assert_eq!(
        stable.root_metadata().get_str("component.name"),
        Some("engine")
    );
}

#[test]
fn tests_test_snapshot_context_frame_roundtrip_to_operation_context() {
    let mut ctx = OperationContext::doing("start engine");
    ctx.with_doing("load defaults");
    ctx.record("tenant", "alpha");
    ctx.record_meta("component.name", "engine");

    let snapshot_frame = SnapshotContextFrame::from(ctx.clone());
    let roundtrip: OperationContext = snapshot_frame.clone().into();

    assert_eq!(snapshot_frame.target.as_deref(), Some("start engine"));
    assert_eq!(
        snapshot_frame.path,
        vec!["start engine".to_string(), "load defaults".to_string()]
    );
    assert_eq!(roundtrip.compat_target().as_deref(), Some("start engine"));
    assert_eq!(
        roundtrip.path(),
        vec!["start engine".to_string(), "load defaults".to_string()]
    );
    assert_eq!(
        roundtrip.metadata().get_str("component.name"),
        Some("engine")
    );
    assert_eq!(
        roundtrip.context().items,
        vec![("tenant".to_string(), "alpha".to_string())]
    );
}

#[test]
fn tests_test_snapshot_context_frame_roundtrip_normalizes_action_locator_path() {
    let mut ctx = OperationContext::at("engine.toml");
    ctx.with_doing("start engine");

    let snapshot_frame = SnapshotContextFrame::from(ctx);
    let roundtrip: OperationContext = snapshot_frame.clone().into();

    assert_eq!(snapshot_frame.target.as_deref(), Some("start engine"));
    assert_eq!(snapshot_frame.action.as_deref(), Some("start engine"));
    assert_eq!(snapshot_frame.locator.as_deref(), Some("engine.toml"));
    assert_eq!(
        snapshot_frame.path,
        vec!["start engine".to_string(), "engine.toml".to_string()]
    );
    assert_eq!(
        roundtrip.path(),
        vec!["start engine".to_string(), "engine.toml".to_string()]
    );
    assert_eq!(
        roundtrip.path_string().as_deref(),
        Some("start engine / engine.toml")
    );
}

#[test]
fn test_stable_snapshot_context_frame_to_operation_context_roundtrip() {
    let stable = StableSnapshotContextFrame {
        target: Some("start engine".to_string()),
        action: Some("start engine".to_string()),
        locator: Some("engine.toml".to_string()),
        path: vec!["start engine".to_string(), "engine.toml".to_string()],
        metadata: {
            let mut metadata = ErrorMetadata::new();
            metadata.insert("component.name", "engine");
            metadata
        },
    };

    let ctx: OperationContext = stable.into();

    assert_eq!(ctx.action().as_deref(), Some("start engine"));
    assert_eq!(ctx.locator().as_deref(), Some("engine.toml"));
    assert_eq!(
        ctx.path(),
        &["start engine".to_string(), "engine.toml".to_string()]
    );
    assert_eq!(ctx.metadata().get_str("component.name"), Some("engine"));
}
