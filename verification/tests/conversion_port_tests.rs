use orion_error::context::OperationContext;
use orion_error::conversion::{raw_source, ConvStructError, ErrorConv, ErrorWrapAs, IntoAs, ToStructError};
use orion_error::error::StructError;
use orion_error::reason::{DomainReason, ErrorCode};
use orion_error::source::StdSource;
use orion_error::universal::UnifiedReason;

#[derive(Debug, Clone, PartialEq)]
enum TestReason {
    TestError,
    Uvs(UnifiedReason),
}

impl ErrorCode for TestReason {
    fn error_code(&self) -> i32 {
        match self {
            TestReason::TestError => 1001,
            TestReason::Uvs(uvs) => uvs.error_code(),
        }
    }
}

impl DomainReason for TestReason {
    fn message(&self) -> String {
        match self {
            TestReason::TestError => "test error".to_string(),
            TestReason::Uvs(uvs) => uvs.message(),
        }
    }
}

#[derive(Debug, Clone, PartialEq)]
enum AnotherReason {
    AnotherError,
    Uvs(UnifiedReason),
}

impl ErrorCode for AnotherReason {
    fn error_code(&self) -> i32 {
        match self {
            AnotherReason::AnotherError => 2001,
            AnotherReason::Uvs(uvs) => uvs.error_code(),
        }
    }
}

impl DomainReason for AnotherReason {
    fn message(&self) -> String {
        match self {
            AnotherReason::AnotherError => "another error".to_string(),
            AnotherReason::Uvs(uvs) => uvs.message(),
        }
    }
}

impl From<TestReason> for AnotherReason {
    fn from(test: TestReason) -> Self {
        match test {
            TestReason::TestError => AnotherReason::AnotherError,
            TestReason::Uvs(uvs) => AnotherReason::Uvs(uvs),
        }
    }
}

fn db_unavailable() -> StdSource {
    StdSource::new("db unavailable", "std::io::Error")
}

#[test]
fn test_error_conv_trait() {
    let original_result: Result<i32, StructError<TestReason>> = Err(TestReason::TestError.to_err());

    let converted_result: Result<i32, StructError<AnotherReason>> = original_result.err_conv();

    assert!(converted_result.is_err());
    let converted_error = converted_result.unwrap_err();
    assert_eq!(converted_error.reason().error_code(), 2001);

    let success_result: Result<i32, StructError<TestReason>> = Ok(42);
    let converted_success: Result<i32, StructError<AnotherReason>> = success_result.err_conv();

    assert!(converted_success.is_ok());
    assert_eq!(converted_success.unwrap(), 42);
}

#[test]
fn test_conv_struct_error_trait() {
    let original_error: StructError<TestReason> = TestReason::TestError.to_err();
    let converted_error: StructError<AnotherReason> = original_error.conv();
    assert_eq!(converted_error.reason().error_code(), 2001);

    let uvs_error: StructError<TestReason> = TestReason::Uvs(UnifiedReason::network_error()).to_err();
    let converted_uvs_error: StructError<AnotherReason> = uvs_error.conv();
    assert_eq!(converted_uvs_error.reason().error_code(), 202);
}

#[test]
fn test_to_struct_error_trait() {
    let reason = TestReason::TestError;
    let error: StructError<TestReason> = reason.to_err();
    assert_eq!(error.reason().error_code(), 1001);

    let reason2 = TestReason::TestError;
    let result: Result<String, StructError<TestReason>> = reason2.err_result();
    assert!(result.is_err());
    let error_from_result = result.unwrap_err();
    assert_eq!(error_from_result.reason().error_code(), 1001);

    let uvs_reason1 = UnifiedReason::validation_error();
    let uvs_error: StructError<UnifiedReason> = uvs_reason1.to_err();
    assert_eq!(uvs_error.reason().error_code(), 100);

    let uvs_reason2 = UnifiedReason::validation_error();
    let uvs_result: Result<i32, StructError<UnifiedReason>> = uvs_reason2.err_result();
    assert!(uvs_result.is_err());
    assert_eq!(uvs_result.unwrap_err().reason().error_code(), 100);
}

#[test]
fn test_err_conv_preserves_source() {
    let original: Result<i32, StructError<TestReason>> =
        Err(StructError::from(TestReason::TestError).with_std_source(db_unavailable()));

    let converted: Result<i32, StructError<AnotherReason>> = original.err_conv();
    let err = converted.unwrap_err();

    assert_eq!(err.reason().error_code(), 2001);
    assert_eq!(err.source_ref().unwrap(), "db unavailable");
}

#[test]
fn test_wrap_as_preserves_previous_struct_error_chain() {
    let original: Result<i32, StructError<TestReason>> = Err(StructError::from(TestReason::TestError)
        .with_detail("repo layer failed")
        .with_std_source(db_unavailable()));

    let wrapped: Result<i32, StructError<AnotherReason>> =
        original.wrap_as(AnotherReason::AnotherError, "service layer failed");
    let err = wrapped.unwrap_err();

    assert_eq!(err.reason().error_code(), 2001);
    assert_eq!(err.detail().as_deref(), Some("service layer failed"));
    assert_eq!(
        err.source_ref().unwrap(),
        "test error\n  -> Details: repo layer failed\n  -> Source: db unavailable"
    );
    assert_eq!(err.root_cause().unwrap(), "db unavailable");
    assert_eq!(err.source_chain().len(), 2);
    assert_eq!(err.source_frames()[0].message, "test error");
    assert!(err.source_frames()[0].display.as_ref().unwrap().contains("repo layer failed"));
    assert_eq!(err.source_frames()[0].error_code, None);
    assert_eq!(err.source_frames()[0].reason.as_deref(), Some("test error"));
    assert_eq!(err.source_frames()[0].detail.as_deref(), Some("repo layer failed"));
    assert_eq!(err.source_frames()[1].message, "db unavailable");
    assert!(err.source_frames()[1].is_root_cause);
}

#[test]
fn test_err_conv_preserves_context_metadata() {
    let original: Result<i32, StructError<TestReason>> = Err(StructError::from(TestReason::TestError)
        .with_context(
            OperationContext::doing("load sink defaults").with_meta("config.kind", "sink_defaults"),
        ));

    let converted: Result<i32, StructError<AnotherReason>> = original.err_conv();
    let err = converted.unwrap_err();

    assert_eq!(err.context_metadata().get_str("config.kind"), Some("sink_defaults"));
}

#[test]
fn test_wrap_as_preserves_source_frame_metadata() {
    let original: Result<i32, StructError<TestReason>> = Err(StructError::from(TestReason::TestError)
        .with_context(
            OperationContext::doing("load sink defaults").with_meta("config.kind", "sink_defaults"),
        ));

    let wrapped: Result<i32, StructError<AnotherReason>> =
        original.wrap_as(AnotherReason::AnotherError, "service layer failed");
    let err = wrapped.unwrap_err();

    assert_eq!(err.detail().as_deref(), Some("service layer failed"));
    assert_eq!(err.source_frames()[0].metadata.get_str("config.kind"), Some("sink_defaults"));
}

#[test]
fn test_wrap_as_preserves_detail_source_chain_and_metadata() {
    let original: Result<i32, StructError<TestReason>> = Err(StructError::from(TestReason::TestError)
        .with_detail("repo layer failed")
        .with_context(
            OperationContext::doing("load sink defaults").with_meta("config.kind", "sink_defaults"),
        )
        .with_std_source(db_unavailable()));

    let wrapped: Result<i32, StructError<AnotherReason>> =
        original.wrap_as(AnotherReason::AnotherError, "service layer failed");
    let err = wrapped.unwrap_err();

    assert_eq!(err.reason().error_code(), 2001);
    assert_eq!(err.detail().as_deref(), Some("service layer failed"));
    assert!(err.source_ref().unwrap().contains("test error"));
    assert_eq!(err.root_cause().unwrap(), "db unavailable");
    assert_eq!(err.source_chain().len(), 2);
    assert_eq!(err.source_frames()[0].message, "test error");
    assert_eq!(err.source_frames()[0].error_code, None);
    assert_eq!(err.source_frames()[0].detail.as_deref(), Some("repo layer failed"));
    assert_eq!(err.source_frames()[0].metadata.get_str("config.kind"), Some("sink_defaults"));
    assert_eq!(err.source_frames()[1].message, "db unavailable");
    assert!(err.source_frames()[1].is_root_cause);
}

#[test]
fn test_into_as_for_io_error() {
    let result: Result<(), StdSource> = Err(StdSource::new("disk offline", "std::io::Error"));

    let err = result
        .into_as(UnifiedReason::system_error(), "load config failed")
        .expect_err("expected structured error");

    assert_eq!(err.detail().as_deref(), Some("load config failed"));
    assert_eq!(err.source_ref().unwrap(), "disk offline");
}

#[test]
fn test_into_as_for_raw_source_wrapper() {
    let result: Result<(), StdSource> =
        Err(StdSource::new("parser aborted", "orion_error_tests::ThirdPartyError"));

    let err = result
        .map_err(raw_source)
        .into_as(UnifiedReason::validation_error(), "parse config failed")
        .expect_err("expected structured error");

    assert_eq!(err.detail().as_deref(), Some("parse config failed"));
    assert_eq!(err.source_ref().unwrap(), "parser aborted");
}
