use orion_error::context::OperationContext;
use orion_error::error::{convert_error, StructError};
use orion_error::reason::{DomainReason, ErrorCode};
use orion_error::universal::UnifiedReason;

#[derive(Debug, PartialEq, Clone)]
enum TestDomainReason {
    Why1,
    General(UnifiedReason),
}

impl ErrorCode for TestDomainReason {
    fn error_code(&self) -> i32 {
        match self {
            TestDomainReason::Why1 => 200,
            TestDomainReason::General(uvs_reason) => uvs_reason.error_code(),
        }
    }
}

impl DomainReason for TestDomainReason {
    fn message(&self) -> String {
        match self {
            TestDomainReason::Why1 => "why1".to_string(),
            TestDomainReason::General(r) => r.message(),
        }
    }
}

#[derive(Debug, PartialEq, Clone)]
enum OtherDomainReason {
    Why2,
    General(UnifiedReason),
}

impl DomainReason for OtherDomainReason {
    fn message(&self) -> String {
        match self {
            OtherDomainReason::Why2 => "why1".to_string(),
            OtherDomainReason::General(r) => r.message(),
        }
    }
}

impl From<TestDomainReason> for OtherDomainReason {
    fn from(value: TestDomainReason) -> Self {
        match value {
            TestDomainReason::Why1 => Self::Why2,
            TestDomainReason::General(uvs_reason) => Self::General(uvs_reason),
        }
    }
}

#[test]
fn test_domain_error_creation() {
    let err = StructError::from(TestDomainReason::Why1);

    assert_eq!(err.reason(), &TestDomainReason::Why1);
    assert_eq!(err.reason().error_code(), 200);
}

#[test]
fn test_error_with_details() {
    let err = StructError::from(TestDomainReason::Why1).with_detail("detailed message");

    assert_eq!(err.detail(), &Some("detailed message".to_string()));
}

#[test]
fn test_error_context() {
    let mut ctx = OperationContext::doing("user_profile");
    ctx.record("user_id", "12345");

    let err = StructError::from(TestDomainReason::Why1).with_context(ctx);

    assert_eq!(err.action_main(), Some("user_profile".to_string()));
    assert!(err
        .contexts()
        .first()
        .unwrap()
        .context()
        .items
        .contains(&("user_id".into(), "12345".into())));
}

#[test]
fn test_error_conversion() {
    let original = StructError::from(TestDomainReason::Why1)
        .with_detail("conversion test")
        .with_position("test.rs:1")
        .with_context(OperationContext::doing("ctx").context().clone());

    let converted: StructError<OtherDomainReason> = convert_error(original);

    assert_eq!(converted.reason(), &OtherDomainReason::Why2);
    assert_eq!(converted.detail(), &Some("conversion test".into()));
}
