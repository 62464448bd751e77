use orion_error::context::OperationContext;
use orion_error::conversion::{
    raw_source, ConvStructError, ErrorConv, ErrorWith, ErrorWrapAs, IntoAs, RawStdError,
    ToStructError, WrapStructErrorAs,
};
use orion_error::error::{convert_error, StructError};
use orion_error::protocol::{DefaultExposurePolicy, Visibility};
use orion_error::reason::{
    category_from_name, identity_category, message_from_identity, DomainReason, ErrorCategory,
    ErrorIdentityProvider,
};
use orion_error::report::RedactPolicy;
use orion_error::source::{SourcePayloadKind, StdSource};
use orion_error::universal::UnifiedReason;

#[derive(Debug, Clone, PartialEq)]
enum TestReason {
    TestError,
    Uvs(UnifiedReason),
}

impl From<UnifiedReason> for TestReason {
    fn from(value: UnifiedReason) -> Self {
        TestReason::Uvs(value)
    }
}

impl DomainReason for TestReason {
    fn message(&self) -> String {
        match self {
            TestReason::TestError => "test error".to_string(),
            TestReason::Uvs(r) => r.message(),
        }
    }
}

impl ErrorIdentityProvider for TestReason {
    fn stable_code(&self) -> &'static str {
        match self {
            TestReason::TestError => "test.test_error",
            TestReason::Uvs(r) => r.stable_code(),
        }
    }

    fn error_category(&self) -> ErrorCategory {
        match self {
            TestReason::TestError => ErrorCategory::Logic,
            TestReason::Uvs(r) => r.error_category(),
        }
    }
}

struct TokenPolicy;

impl RedactPolicy for TokenPolicy {
    fn redact_key(&self, key: &str) -> bool {
        key == "token"
    }

    fn redact_value(&self, key: Option<&str>, value: &str) -> Option<String> {
        match key {
            Some("token") => None,
            Some("detail") => Some(value.replace("abc", "***")),
            _ => Some(value.to_string()),
        }
    }
}

struct ThirdPartyError;

impl RawStdError for ThirdPartyError {}

#[test]
fn error_display_lists_position_path_detail_and_contexts() {
    let err = StructError::from(UnifiedReason::system_error())
        .with_detail("disk full")
        .with_position("src/main.rs:42");
    assert_eq!(
        err.to_string(),
        "system error\n  -> At: src/main.rs:42\n  -> Details: disk full"
    );
    let err = err.doing("load");
    assert_eq!(
        err.to_string(),
        "system error\n  -> At: src/main.rs:42\n  -> Call: load\n  -> Details: disk full\n  -> Context stack:\ncontext 0: \ndoing: load\n\n"
    );
}

#[test]
fn error_path_joins_action_then_locator_without_repeats() {
    let err = StructError::from(UnifiedReason::system_error())
        .with_detail("read config failed")
        .doing("load config")
        .at("config.toml");
    assert_eq!(err.target_path().as_deref(), Some("load config / config.toml"));
    assert_eq!(err.action_main().as_deref(), Some("load config"));
    assert_eq!(err.locator_main().as_deref(), Some("config.toml"));

    let repeated = StructError::from(UnifiedReason::system_error())
        .doing("load")
        .doing("load");
    assert_eq!(repeated.path_segments(), vec!["load".to_string()]);
    assert_eq!(StructError::from(UnifiedReason::system_error()).target_path(), None);
}

#[test]
fn error_context_metadata_innermost_wins() {
    let err = StructError::from(UnifiedReason::system_error())
        .with_context(OperationContext::doing("inner").with_meta("config.kind", "inner_value"))
        .with_context(
            OperationContext::doing("outer")
                .with_meta("config.kind", "outer_value")
                .with_meta("component.name", "engine"),
        );
    let merged = err.context_metadata();
    assert_eq!(merged.get_str("config.kind"), Some("inner_value"));
    assert_eq!(merged.get_str("component.name"), Some("engine"));
    assert_eq!(
        err.context_metadata_at(1).unwrap().get_str("config.kind"),
        Some("outer_value")
    );
    assert!(err.context_metadata_at(2).is_none());
}

#[test]
fn error_std_source_chain() {
    let source = StdSource::new("outer source", "app::OuterError").with_cause("inner source");
    let err = StructError::builder(TestReason::TestError)
        .detail("high-level detail")
        .source_std(source)
        .finish();

    assert_eq!(err.source_ref().as_deref(), Some("outer source"));
    assert_eq!(err.root_cause().as_deref(), Some("inner source"));
    assert_eq!(err.root_cause_frame().unwrap().message.as_str(), "inner source");
    assert_eq!(
        err.source_chain(),
        vec!["outer source".to_string(), "inner source".to_string()]
    );
    assert_eq!(err.source_payload_kind(), Some(SourcePayloadKind::Std));
    assert_eq!(
        err.display_chain(),
        "test error\n  -> Details: high-level detail\n  -> Source: outer source\nCaused by:\n  0: outer source\n  1: inner source"
    );
}

#[test]
fn error_wrap_as_keeps_inner_error_as_source() {
    let inner = StructError::from(TestReason::TestError)
        .with_detail("inner detail")
        .with_context(OperationContext::doing("load defaults").with_meta("config.kind", "sink"));
    let outer = inner.wrap_as(UnifiedReason::system_error(), "outer detail");

    assert_eq!(outer.detail().as_deref(), Some("outer detail"));
    assert_eq!(outer.source_payload_kind(), Some(SourcePayloadKind::Struct));
    let frames = outer.source_frames();
    assert_eq!(frames.len(), 1);
    assert_eq!(frames[0].message.as_str(), "test error");
    assert_eq!(frames[0].detail.as_deref(), Some("inner detail"));
    assert_eq!(frames[0].path.as_deref(), Some("load defaults"));
    assert_eq!(frames[0].metadata.get_str("config.kind"), Some("sink"));
    assert!(frames[0].is_root_cause);

    let result: Result<(), StructError<TestReason>> = Err(StructError::from(TestReason::TestError));
    let wrapped = result.wrap_as(UnifiedReason::validation_error(), "bad input");
    let err = wrapped.unwrap_err();
    assert_eq!(err.reason(), &UnifiedReason::validation_error());
    assert_eq!(err.source_chain(), vec!["test error".to_string()]);
}

#[test]
fn error_conversion_changes_only_the_reason() {
    let err = StructError::from(UnifiedReason::network_error())
        .with_detail("timeout talking to db")
        .doing("query");
    let converted: StructError<TestReason> = convert_error(err);
    assert_eq!(converted.reason(), &TestReason::Uvs(UnifiedReason::network_error()));
    assert_eq!(converted.detail().as_deref(), Some("timeout talking to db"));
    assert_eq!(converted.action_main().as_deref(), Some("query"));

    let conv: StructError<TestReason> = StructError::from(UnifiedReason::timeout_error()).conv();
    assert_eq!(conv.reason(), &TestReason::Uvs(UnifiedReason::timeout_error()));

    let result: Result<u8, StructError<UnifiedReason>> = Ok(7);
    let mapped: Result<u8, StructError<TestReason>> = result.err_conv();
    assert_eq!(mapped.ok(), Some(7));
}

#[test]
fn error_builder_and_to_err() {
    let err = StructError::builder(UnifiedReason::business_error())
        .detail("order rejected")
        .position("orders.rs:10")
        .context(OperationContext::doing("place order"))
        .finish();
    assert_eq!(err.detail().as_deref(), Some("order rejected"));
    assert_eq!(StructError::position(&err).as_deref(), Some("orders.rs:10"));
    assert_eq!(err.contexts().len(), 1);

    let e = UnifiedReason::not_found_error().to_err();
    assert_eq!(e.reason(), &UnifiedReason::not_found_error());
    let r: Result<(), StructError<UnifiedReason>> = UnifiedReason::not_found_error().err_result();
    assert!(r.is_err());
}

#[test]
fn error_with_on_results() {
    let ok: Result<u8, StructError<UnifiedReason>> = Ok(1);
    assert_eq!(ok.doing("noop").ok(), Some(1));
    let failed: Result<u8, StructError<UnifiedReason>> =
        Err(StructError::from(UnifiedReason::validation_error()));
    let err = failed.doing("validate").at("input.json").position("x.rs:1").unwrap_err();
    assert_eq!(err.action_main().as_deref(), Some("validate"));
    assert_eq!(err.locator_main().as_deref(), Some("input.json"));
    assert_eq!(StructError::position(&err).as_deref(), Some("x.rs:1"));
}

#[test]
fn error_identity_and_protocol_snapshot() {
    let err = StructError::from(TestReason::Uvs(UnifiedReason::system_error()))
        .with_detail("engine bootstrap failed")
        .with_position("src/main.rs:42")
        .with_context(OperationContext::doing("start engine").with_meta("component.name", "engine"));

    let identity = err.identity_snapshot();
    assert_eq!(identity.code, "sys.io_error");
    assert_eq!(identity.category, ErrorCategory::Sys);
    assert_eq!(identity.reason, "system error");
    assert_eq!(identity.path.as_deref(), Some("start engine"));

    let proto = err.exposure_snapshot(&DefaultExposurePolicy);
    assert_eq!(proto.decision.http_status, 500);
    assert_eq!(proto.decision.visibility, Visibility::Internal);
    assert_eq!(
        proto.decision.default_hints,
        vec!["check filesystem state", "verify file permissions"]
    );
    assert_eq!(
        proto.render_user_debug(),
        "code          : sys.io_error (sys)\ndetail        : engine bootstrap failed\nhttp          : 500 internal retryable=false\npath          : start engine\ncomponent     : engine"
    );

    let view = proto.json_view();
    assert_eq!(view.message, "system error");
    assert_eq!(view.rpc_detail, None);
    assert_eq!(view.summary, "system error: engine bootstrap failed");

    let public = StructError::from(UnifiedReason::validation_error())
        .with_detail("email missing")
        .exposure_snapshot(&DefaultExposurePolicy);
    let public_view = public.json_view();
    assert_eq!(public_view.status, 400);
    assert_eq!(public_view.message, "email missing");
    assert_eq!(public_view.rpc_detail.as_deref(), Some("email missing"));
    assert_eq!(public_view.visibility, "public");
}

#[test]
fn error_user_debug_lists_fields_metadata_and_source() {
    let mut ctx = OperationContext::doing("load");
    ctx.record("user", "bob");
    let err = StructError::from(UnifiedReason::network_error())
        .with_context(ctx.with_meta("attempt", 2u32))
        .with_std_source(StdSource::new("connection refused", "std::io::Error"));
    let text = err.exposure_snapshot(&DefaultExposurePolicy).render_user_debug();
    assert_eq!(
        text,
        "code          : sys.network_error (sys)\ndetail        : network error\nhttp          : 500 internal retryable=true\npath          : load\ncontext       : user=\"bob\"\nmetadata      : attempt=2\nsource        : connection refused"
    );
}

#[test]
fn error_redaction_masks_sensitive_keys() {
    let mut ctx = OperationContext::doing("load");
    ctx.record("token", "abc");
    ctx.record("user", "bob");
    let err = StructError::from(UnifiedReason::system_error())
        .with_detail("token=abc")
        .with_context(ctx.with_meta("token", "abc").with_meta("attempt", 3u32));
    let report = err.report_redacted(&TokenPolicy);
    assert_eq!(report.detail(), Some("token=***"));
    let items = &report.context()[0].context().items;
    assert_eq!(items[0], ("token".to_string(), "<redacted>".to_string()));
    assert_eq!(items[1], ("user".to_string(), "bob".to_string()));
    assert_eq!(report.context()[0].metadata().get_str("token"), Some("<redacted>"));
    assert!(report.context()[0].metadata().get("attempt").is_some());
    let rendered = err.render_redacted(&TokenPolicy);
    assert!(!rendered.contains("abc"));
}

#[test]
fn error_into_as_attaches_raw_chain() {
    let result: Result<(), StdSource> = Err(StdSource::new("disk offline", "std::io::Error"));
    let err = result
        .into_as(UnifiedReason::system_error(), "load config failed")
        .unwrap_err();
    assert_eq!(err.detail().as_deref(), Some("load config failed"));
    assert_eq!(err.source_ref().as_deref(), Some("disk offline"));

    let marked: Result<(), _> = Err(raw_source(StdSource::new("parser aborted", "toml::de::Error")));
    let err = marked
        .into_as(UnifiedReason::validation_error(), "parse config failed")
        .unwrap_err();
    assert_eq!(err.source_ref().as_deref(), Some("parser aborted"));

    let wrapped = raw_source(ThirdPartyError);
    let _inner: &ThirdPartyError = wrapped.inner();
}

#[test]
fn identity_text_rules() {
    assert_eq!(message_from_identity("biz.order_not_found"), "order not found");
    assert_eq!(message_from_identity("plain_text"), "plain text");
    assert_eq!(message_from_identity("a.b."), "");
    assert_eq!(identity_category("sys.io_error"), Some(ErrorCategory::Sys));
    assert_eq!(identity_category("conf"), Some(ErrorCategory::Conf));
    assert_eq!(identity_category("network.down"), None);
    assert_eq!(category_from_name("logic"), Some(ErrorCategory::Logic));
    assert_eq!(category_from_name("Logic"), None);
}

#[test]
fn error_equality_ignores_source() {
    let a = StructError::from(UnifiedReason::system_error())
        .with_detail("disk full")
        .doing("load");
    let b = a.clone().with_std_source(StdSource::new("io", "std::io::Error"));
    assert!(a == b);
    let c = a.clone().with_detail("other");
    assert!(a != c);
    let d = a.clone().doing("again");
    assert!(a != d);
    assert!(a == a.clone());
}

#[test]
fn json_view_operation_is_outermost_target() {
    let err = StructError::from(UnifiedReason::system_error())
        .with_detail("disk offline")
        .with_context(OperationContext::doing("load config"));
    assert_eq!(err.target_main().as_deref(), Some("load config"));
    let view = err.exposure_snapshot(&DefaultExposurePolicy).json_view();
    assert_eq!(view.operation.as_deref(), Some("load config"));
    assert_eq!(view.path.as_deref(), Some("load config"));
    let bare = StructError::from(UnifiedReason::system_error());
    assert_eq!(bare.exposure_snapshot(&DefaultExposurePolicy).json_view().operation, None);
}
