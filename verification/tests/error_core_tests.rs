use orion_error::context::{CallContext, OperationContext};
use orion_error::conversion::ErrorWith;
use orion_error::error::StructError;
use orion_error::reason::DomainReason;
use orion_error::source::{SourcePayloadKind, StdSource};
use orion_error::universal::UnifiedReason;

#[derive(Debug, Clone, PartialEq)]
enum TestDomainReason {
    TestError,
    Uvs(UnifiedReason),
}

impl From<UnifiedReason> for TestDomainReason {
    fn from(value: UnifiedReason) -> Self {
        TestDomainReason::Uvs(value)
    }
}

impl DomainReason for TestDomainReason {
    fn message(&self) -> String {
        match self {
            TestDomainReason::TestError => "test error".to_string(),
            TestDomainReason::Uvs(r) => r.message(),
        }
    }
}

fn outer_error() -> StdSource {
    StdSource::new("outer source", "orion_error_tests::OuterError").with_cause("inner source")
}

fn io_error(message: &str) -> StdSource {
    StdSource::new(message, "std::io::Error")
}

#[test]
fn tests_test_struct_error_source_tracking() {
    let error = StructError::builder(TestDomainReason::TestError)
        .detail("high-level detail")
        .source_std(outer_error())
        .finish();

    assert_eq!(error.source_ref().unwrap(), "outer source");
    assert_eq!(error.root_cause().unwrap(), "inner source");
    assert_eq!(error.root_cause_frame().unwrap().message, "inner source");
}

#[test]
fn test_struct_error_uses_outer_action_and_full_path() {
    let mut outer = OperationContext::doing("place_order");
    outer.with_doing("read_order_payload");
    outer.with_doing("parse_order");
    outer.record("order_id", "42");

    let error = StructError::from(TestDomainReason::TestError).with_context(outer);

    assert_eq!(error.action_main().as_deref(), Some("place_order"));
    assert_eq!(
        error.target_path().as_deref(),
        Some("place_order / read_order_payload / parse_order")
    );
    assert_eq!(
        error.path_segments(),
        vec![
            "place_order".to_string(),
            "read_order_payload".to_string(),
            "parse_order".to_string()
        ]
    );

    let display_output = error.to_string();
    assert!(display_output.contains("-> Call: place_order / read_order_payload / parse_order"));
}

#[test]
fn tests_test_errorwith_doing_and_at_write_structured_context_semantics() {
    let error = StructError::from(TestDomainReason::TestError)
        .doing("parse config")
        .at("config.toml");

    assert_eq!(error.action_main().as_deref(), Some("parse config"));
    assert_eq!(error.locator_main().as_deref(), Some("config.toml"));
    assert_eq!(error.target_path().as_deref(), Some("parse config / config.toml"));
    assert_eq!(error.contexts()[0].action().as_deref(), Some("parse config"));
    assert_eq!(error.contexts()[1].locator().as_deref(), Some("config.toml"));
}

#[test]
fn tests_test_errorwith_doing_and_at_match_single_context_compat_path_order() {
    let split = StructError::from(TestDomainReason::TestError)
        .doing("parse config")
        .at("config.toml");

    let mut combined_ctx = OperationContext::doing("parse config");
    combined_ctx.with_at("config.toml");
    let combined = StructError::from(TestDomainReason::TestError).with_context(combined_ctx);

    assert_eq!(split.target_path(), combined.target_path());
    assert_eq!(split.path_segments(), combined.path_segments());
}

#[test]
fn tests_test_errorwith_multiple_at_segments_preserve_locator_chain() {
    let error = StructError::from(TestDomainReason::TestError)
        .doing("parse config")
        .at("tenant-a")
        .at("config.toml");

    assert_eq!(
        error.target_path().as_deref(),
        Some("parse config / tenant-a / config.toml")
    );
    assert_eq!(
        error.path_segments(),
        vec!["parse config".to_string(), "tenant-a".to_string(), "config.toml".to_string()]
    );
}

#[test]
fn error_test_struct_error_display_chain() {
    let error = StructError::builder(TestDomainReason::TestError)
        .detail("high-level detail")
        .source_std(outer_error())
        .finish();

    assert_eq!(
        error.source_chain(),
        vec!["outer source".to_string(), "inner source".to_string()]
    );
    assert_eq!(error.source_frames().len(), 2);
    assert_eq!(error.source_frames()[0].index, 0);
    assert_eq!(error.source_frames()[0].message, "outer source");
    assert_eq!(error.source_frames()[1].index, 1);
    assert_eq!(error.source_frames()[1].message, "inner source");
    assert!(error.source_frames()[1].is_root_cause);
    assert_eq!(
        error.source_frames()[0].error_type.as_deref(),
        Some("orion_error_tests::OuterError")
    );
    assert_eq!(error.source_frames()[1].error_type, None);

    let display_chain = error.display_chain();
    assert!(display_chain.contains("Caused by:"));
    assert!(display_chain.contains("0: outer source"));
    assert!(display_chain.contains("1: inner source"));
}

#[test]
fn tests_test_struct_error_context_metadata_prefers_inner_context() {
    let inner = OperationContext::doing("load sink defaults")
        .with_meta("config.kind", "sink_defaults")
        .with_meta("file.path", "/tmp/defaults.toml");
    let outer = OperationContext::doing("load infra sink routes")
        .with_meta("config.kind", "sink_route")
        .with_meta("config.group", "infra");

    let error = StructError::from(TestDomainReason::TestError)
        .with_context(inner)
        .with_context(outer);

    let metadata = error.context_metadata();
    assert_eq!(metadata.get_str("config.kind"), Some("sink_defaults"));
    assert_eq!(metadata.get_str("file.path"), Some("/tmp/defaults.toml"));
    assert_eq!(metadata.get_str("config.group"), Some("infra"));
}

fn sourced_defaults() -> StructError<TestDomainReason> {
    StructError::from(TestDomainReason::TestError).with_context(
        OperationContext::doing("load sink defaults").with_meta("config.kind", "sink_defaults"),
    )
}

#[test]
fn tests_test_with_struct_source_preserves_source_context_metadata() {
    let error = StructError::from(TestDomainReason::Uvs(UnifiedReason::system_error()))
        .with_struct_source(sourced_defaults());

    assert_eq!(error.source_payload_kind(), Some(SourcePayloadKind::Struct));
    assert_eq!(error.source_frames()[0].metadata.get_str("config.kind"), Some("sink_defaults"));
}

#[test]
fn tests_test_with_std_source_marks_internal_source_kind() {
    let error =
        StructError::from(TestDomainReason::TestError).with_std_source(io_error("disk offline"));
    assert_eq!(error.source_payload_kind(), Some(SourcePayloadKind::Std));
}

#[test]
fn tests_test_with_source_auto_routes_std_source_kind() {
    let error = StructError::from(TestDomainReason::TestError).with_source(io_error("disk offline"));
    assert_eq!(error.source_payload_kind(), Some(SourcePayloadKind::Std));
}

#[test]
fn tests_test_with_source_auto_routes_struct_source_kind() {
    let error = StructError::from(TestDomainReason::Uvs(UnifiedReason::system_error()))
        .with_source(sourced_defaults());

    assert_eq!(error.source_payload_kind(), Some(SourcePayloadKind::Struct));
    assert_eq!(error.source_frames()[0].metadata.get_str("config.kind"), Some("sink_defaults"));
}

#[test]
fn tests_test_builder_source_struct_preserves_source_context_metadata() {
    let error = StructError::builder(TestDomainReason::Uvs(UnifiedReason::system_error()))
        .source_struct(sourced_defaults())
        .finish();

    assert_eq!(error.source_payload_kind(), Some(SourcePayloadKind::Struct));
    assert_eq!(error.source_frames()[0].metadata.get_str("config.kind"), Some("sink_defaults"));
}

#[test]
fn tests_test_builder_source_std_marks_internal_source_kind() {
    let error = StructError::builder(TestDomainReason::TestError)
        .source_std(io_error("disk offline"))
        .finish();
    assert_eq!(error.source_payload_kind(), Some(SourcePayloadKind::Std));
}

#[test]
fn tests_test_builder_source_auto_routes_std_source_kind() {
    let error = StructError::builder(TestDomainReason::TestError)
        .source(io_error("disk offline"))
        .finish();
    assert_eq!(error.source_payload_kind(), Some(SourcePayloadKind::Std));
}

#[test]
fn tests_test_builder_source_auto_routes_struct_source_kind() {
    let error = StructError::builder(TestDomainReason::Uvs(UnifiedReason::system_error()))
        .source(sourced_defaults())
        .finish();

    assert_eq!(error.source_payload_kind(), Some(SourcePayloadKind::Struct));
    assert_eq!(error.source_frames()[0].metadata.get_str("config.kind"), Some("sink_defaults"));
}

#[test]
fn tests_test_public_source_payload_ref_exposes_std_source_read_only() {
    let error =
        StructError::from(TestDomainReason::TestError).with_std_source(io_error("disk offline"));

    let payload = error.source_payload().expect("expected source payload");

    assert_eq!(payload.kind(), SourcePayloadKind::Std);
    assert_eq!(error.source_payload_kind(), Some(SourcePayloadKind::Std));
    assert_eq!(payload.source(), "disk offline");
    assert_eq!(payload.root_cause(), "disk offline");
    assert_eq!(payload.frames()[0].message, "disk offline");
    assert_eq!(payload.source_chain(), vec!["disk offline".to_string()]);
}

#[test]
fn test_with_source_routes_std_source_payload() {
    let error = StructError::from(TestDomainReason::TestError).with_source(io_error("disk offline"));

    assert_eq!(error.source_payload_kind(), Some(SourcePayloadKind::Std));
    assert_eq!(error.source_ref().unwrap(), "disk offline");
    assert_eq!(error.source_frames()[0].message, "disk offline");
}

#[test]
fn test_with_source_routes_struct_source_payload() {
    let source = StructError::from(TestDomainReason::TestError)
        .with_detail("repo layer failed")
        .with_std_source(io_error("db unavailable"));
    let error =
        StructError::from(TestDomainReason::Uvs(UnifiedReason::system_error())).with_source(source);

    assert_eq!(error.source_payload_kind(), Some(SourcePayloadKind::Struct));
    assert_eq!(error.source_frames()[0].reason.as_deref(), Some("test error"));
    assert_eq!(error.root_cause().unwrap(), "db unavailable");
}

#[test]
fn test_builder_source_routes_std_source_payload() {
    let error = StructError::builder(TestDomainReason::TestError)
        .source(io_error("disk offline"))
        .finish();

    assert_eq!(error.source_payload_kind(), Some(SourcePayloadKind::Std));
    assert_eq!(error.source_ref().unwrap(), "disk offline");
}

#[test]
fn tests_test_with_struct_source_keeps_nested_source_frame_metadata() {
    let leaf = StructError::from(TestDomainReason::TestError).with_context(
        OperationContext::doing("parse route")
            .with_meta("config.kind", "sink_route")
            .with_meta("config.group", "infra"),
    );
    let middle = StructError::from(TestDomainReason::Uvs(UnifiedReason::validation_error()))
        .with_struct_source(leaf);

    let error = StructError::from(TestDomainReason::Uvs(UnifiedReason::system_error()))
        .with_struct_source(middle);

    assert_eq!(error.source_frames()[1].metadata.get_str("config.kind"), Some("sink_route"));
    assert_eq!(error.source_frames()[1].metadata.get_str("config.group"), Some("infra"));
}

#[test]
fn tests_test_root_and_source_metadata_can_be_read_separately() {
    let error = StructError::from(TestDomainReason::Uvs(UnifiedReason::system_error()))
        .with_context(OperationContext::doing("start engine").with_meta("component.name", "engine"))
        .with_struct_source(sourced_defaults());

    assert_eq!(error.context_metadata().get_str("component.name"), Some("engine"));
    assert_eq!(error.source_frames()[0].metadata.get_str("config.kind"), Some("sink_defaults"));
}

#[test]
fn tests_test_display_does_not_include_metadata() {
    let error = StructError::from(TestDomainReason::TestError).with_context(
        OperationContext::doing("load sink defaults")
            .with_meta("config.kind", "sink_defaults")
            .with_meta("config.group", "infra"),
    );

    let display_output = error.to_string();
    assert!(!display_output.contains("config.kind"));
    assert!(!display_output.contains("sink_defaults"));
}

#[test]
fn tests_test_inherent_with_context_accepts_call_context() {
    let ctx = CallContext { items: vec![("tenant".to_string(), "acme".to_string())] };

    let error = StructError::from(TestDomainReason::TestError).with_context(ctx);

    assert_eq!(error.contexts().len(), 1);
    assert_eq!(error.contexts()[0].context().items.len(), 1);
    assert_eq!(error.contexts()[0].context().items[0].0, "tenant");
    assert_eq!(error.contexts()[0].context().items[0].1, "acme");
}

#[test]
fn test_path_segments_empty_context_chain() {
    let error = StructError::from(TestDomainReason::TestError);
    assert!(error.path_segments().is_empty());
    assert!(error.target_path().is_none());
}

#[test]
fn test_path_segments_only_at_no_doing() {
    let error = StructError::from(TestDomainReason::TestError).at("config.toml");

    assert_eq!(error.path_segments(), vec!["config.toml"]);
    assert_eq!(error.target_path().as_deref(), Some("config.toml"));
}

#[test]
fn test_path_segments_multiple_at_no_doing() {
    let error = StructError::from(TestDomainReason::TestError).at("tenant-a").at("config.toml");

    assert_eq!(error.path_segments(), vec!["tenant-a", "config.toml"]);
    assert_eq!(error.target_path().as_deref(), Some("tenant-a / config.toml"));
}

#[test]
fn test_path_segments_repeated_segment_is_deduplicated() {
    let error = StructError::from(TestDomainReason::TestError)
        .doing("load config")
        .at("load config");

    assert_eq!(error.path_segments(), vec!["load config"]);
}

#[test]
fn test_path_segments_repeated_segment_in_merge() {
    let mut inner = OperationContext::doing("service");
    inner.with_doing("parse");
    let mut outer = OperationContext::doing("service");
    outer.with_doing("validate");

    let error = StructError::from(TestDomainReason::TestError)
        .with_context(inner)
        .with_context(outer);

    assert_eq!(error.path_segments(), vec!["service", "validate", "service", "parse"]);
}

#[test]
fn test_path_segments_at_only_inner_outer_mixed() {
    let inner = OperationContext::doing("inner task");
    let mut outer = OperationContext::doing("outer task");
    outer.with_at("locator-a");

    let error = StructError::from(TestDomainReason::TestError)
        .with_context(inner)
        .at("locator-b")
        .with_context(outer);

    assert_eq!(
        error.path_segments(),
        vec!["outer task", "locator-a", "inner task", "locator-b"]
    );
}

#[test]
fn test_path_segments_many_locators_are_collected() {
    let error = StructError::from(TestDomainReason::TestError)
        .doing("process")
        .at("a")
        .at("b")
        .at("c")
        .at("d");

    assert_eq!(error.path_segments(), vec!["process", "a", "b", "c", "d"]);
    assert_eq!(error.target_path().as_deref(), Some("process / a / b / c / d"));
}

#[test]
fn test_path_segments_locator_main_is_first_when_no_action() {
    let error = StructError::from(TestDomainReason::TestError)
        .at("engine.toml")
        .doing("start engine");

    assert_eq!(error.path_segments(), vec!["start engine", "engine.toml"]);
}

#[test]
fn error_test_errorwith_doing_and_at_match_single_context_compat_path_order() {
    let split = StructError::from(TestDomainReason::TestError)
        .doing("parse config")
        .at("config.toml");

    let mut combined_ctx = OperationContext::doing("parse config");
    combined_ctx.with_at("config.toml");
    let combined = StructError::from(TestDomainReason::TestError).with_context(combined_ctx);

    assert_eq!(split.target_path(), combined.target_path());
    assert_eq!(split.path_segments(), combined.path_segments());
}

#[test]
fn error_test_errorwith_multiple_at_segments_preserve_locator_chain() {
    let error = StructError::from(TestDomainReason::TestError)
        .doing("parse config")
        .at("tenant-a")
        .at("config.toml");

    assert_eq!(
        error.target_path().as_deref(),
        Some("parse config / tenant-a / config.toml")
    );
    assert_eq!(
        error.path_segments(),
        vec!["parse config".to_string(), "tenant-a".to_string(), "config.toml".to_string()]
    );
}

#[test]
fn error_test_struct_error_context_metadata_prefers_inner_context() {
    let inner = OperationContext::doing("load sink defaults")
        .with_meta("config.kind", "sink_defaults")
        .with_meta("file.path", "/tmp/defaults.toml");
    let outer = OperationContext::doing("load infra sink routes")
        .with_meta("config.kind", "sink_route")
        .with_meta("config.group", "infra");

    let error = StructError::from(TestDomainReason::TestError)
        .with_context(inner)
        .with_context(outer);

    let metadata = error.context_metadata();
    assert_eq!(metadata.get_str("config.kind"), Some("sink_defaults"));
    assert_eq!(metadata.get_str("file.path"), Some("/tmp/defaults.toml"));
    assert_eq!(metadata.get_str("config.group"), Some("infra"));
}

#[test]
fn error_test_with_struct_source_preserves_source_context_metadata() {
    let error = StructError::from(TestDomainReason::Uvs(UnifiedReason::system_error()))
        .with_struct_source(sourced_defaults());

    assert_eq!(error.source_payload_kind(), Some(SourcePayloadKind::Struct));
    assert_eq!(error.source_frames()[0].metadata.get_str("config.kind"), Some("sink_defaults"));
}

#[test]
fn error_test_with_std_source_marks_internal_source_kind() {
    let error =
        StructError::from(TestDomainReason::TestError).with_std_source(io_error("disk offline"));
    assert_eq!(error.source_payload_kind(), Some(SourcePayloadKind::Std));
}

#[test]
fn error_test_with_source_auto_routes_std_source_kind() {
    let error = StructError::from(TestDomainReason::TestError).with_source(io_error("disk offline"));
    assert_eq!(error.source_payload_kind(), Some(SourcePayloadKind::Std));
}

#[test]
fn error_test_with_source_auto_routes_struct_source_kind() {
    let error = StructError::from(TestDomainReason::Uvs(UnifiedReason::system_error()))
        .with_source(sourced_defaults());

    assert_eq!(error.source_payload_kind(), Some(SourcePayloadKind::Struct));
    assert_eq!(error.source_frames()[0].metadata.get_str("config.kind"), Some("sink_defaults"));
}

#[test]
fn error_test_builder_source_struct_preserves_source_context_metadata() {
    let error = StructError::builder(TestDomainReason::Uvs(UnifiedReason::system_error()))
        .source_struct(sourced_defaults())
        .finish();

    assert_eq!(error.source_payload_kind(), Some(SourcePayloadKind::Struct));
    assert_eq!(error.source_frames()[0].metadata.get_str("config.kind"), Some("sink_defaults"));
}

#[test]
fn error_test_builder_source_std_marks_internal_source_kind() {
    let error = StructError::builder(TestDomainReason::TestError)
        .source_std(io_error("disk offline"))
        .finish();
    assert_eq!(error.source_payload_kind(), Some(SourcePayloadKind::Std));
}

#[test]
fn error_test_builder_source_auto_routes_std_source_kind() {
    let error = StructError::builder(TestDomainReason::TestError)
        .source(io_error("disk offline"))
        .finish();
    assert_eq!(error.source_payload_kind(), Some(SourcePayloadKind::Std));
}

#[test]
fn error_test_builder_source_auto_routes_struct_source_kind() {
    let error = StructError::builder(TestDomainReason::Uvs(UnifiedReason::system_error()))
        .source(sourced_defaults())
        .finish();

    assert_eq!(error.source_payload_kind(), Some(SourcePayloadKind::Struct));
    assert_eq!(error.source_frames()[0].metadata.get_str("config.kind"), Some("sink_defaults"));
}

#[test]
fn error_test_public_source_payload_ref_exposes_std_source_read_only() {
    let error =
        StructError::from(TestDomainReason::TestError).with_std_source(io_error("disk offline"));

    let payload = error.source_payload().expect("expected source payload");

    assert_eq!(payload.kind(), SourcePayloadKind::Std);
    assert_eq!(error.source_payload_kind(), Some(SourcePayloadKind::Std));
    assert_eq!(payload.source(), "disk offline");
    assert_eq!(payload.root_cause(), "disk offline");
    assert_eq!(payload.frames()[0].message, "disk offline");
    assert_eq!(payload.source_chain(), vec!["disk offline".to_string()]);
}

#[test]
fn error_test_with_struct_source_keeps_nested_source_frame_metadata() {
    let leaf = StructError::from(TestDomainReason::TestError).with_context(
        OperationContext::doing("parse route")
            .with_meta("config.kind", "sink_route")
            .with_meta("config.group", "infra"),
    );
    let middle = StructError::from(TestDomainReason::Uvs(UnifiedReason::validation_error()))
        .with_struct_source(leaf);

    let error = StructError::from(TestDomainReason::Uvs(UnifiedReason::system_error()))
        .with_struct_source(middle);

    assert_eq!(error.source_frames()[1].metadata.get_str("config.kind"), Some("sink_route"));
    assert_eq!(error.source_frames()[1].metadata.get_str("config.group"), Some("infra"));
}

#[test]
fn error_test_display_does_not_include_metadata() {
    let error = StructError::from(TestDomainReason::TestError).with_context(
        OperationContext::doing("load sink defaults")
            .with_meta("config.kind", "sink_defaults")
            .with_meta("config.group", "infra"),
    );

    let display_output = error.to_string();
    assert!(!display_output.contains("config.kind"));
    assert!(!display_output.contains("sink_defaults"));
}

#[test]
fn error_test_inherent_with_context_accepts_call_context() {
    let ctx = CallContext { items: vec![("tenant".to_string(), "acme".to_string())] };

    let error = StructError::from(TestDomainReason::TestError).with_context(ctx);

    assert_eq!(error.contexts().len(), 1);
    assert_eq!(error.contexts()[0].context().items.len(), 1);
    assert_eq!(error.contexts()[0].context().items[0].0, "tenant");
    assert_eq!(error.contexts()[0].context().items[0].1, "acme");
}

#[test]
fn error_test_struct_error_source_tracking() {
    let error = StructError::builder(TestDomainReason::TestError)
        .detail("high-level detail")
        .source_std(outer_error())
        .finish();

    assert_eq!(error.source_ref().unwrap(), "outer source");
    assert_eq!(error.root_cause().unwrap(), "inner source");
    assert_eq!(error.root_cause_frame().unwrap().message, "inner source");

    let display_output = error.to_string();
    assert!(display_output.contains("-> Source: outer source"));
}

#[test]
fn error_test_errorwith_doing_and_at_write_structured_context_semantics() {
    let error = StructError::from(TestDomainReason::TestError)
        .doing("parse config")
        .at("config.toml");

    assert_eq!(error.action_main().as_deref(), Some("parse config"));
    assert_eq!(error.locator_main().as_deref(), Some("config.toml"));
    assert_eq!(error.target_main().as_deref(), Some("parse config"));
    assert_eq!(error.target_path().as_deref(), Some("parse config / config.toml"));
    assert_eq!(error.contexts()[0].action().as_deref(), Some("parse config"));
    assert_eq!(error.contexts()[1].locator().as_deref(), Some("config.toml"));
}

#[test]
fn error_test_root_and_source_metadata_can_be_read_separately() {
    let error = StructError::from(TestDomainReason::Uvs(UnifiedReason::system_error()))
        .with_context(OperationContext::doing("start engine").with_meta("component.name", "engine"))
        .with_struct_source(sourced_defaults());

    assert_eq!(error.context_metadata().get_str("component.name"), Some("engine"));
    assert_eq!(error.source_frames()[0].metadata.get_str("config.kind"), Some("sink_defaults"));
}
