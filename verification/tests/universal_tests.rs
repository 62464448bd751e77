use orion_error::reason::{ErrorCategory, ErrorCode, ErrorIdentityProvider};
use orion_error::universal::UnifiedReason;

#[test]
fn test_error_code_ranges() {
    // Business layer (100-199)
    assert_eq!(UnifiedReason::validation_error().error_code(), 100);
    assert_eq!(UnifiedReason::business_error().error_code(), 101);
    assert_eq!(UnifiedReason::not_found_error().error_code(), 102);
    assert_eq!(UnifiedReason::permission_error().error_code(), 103);

    // Infrastructure layer (200-299)
    assert_eq!(UnifiedReason::data_error().error_code(), 200);
    assert_eq!(UnifiedReason::system_error().error_code(), 201);
    assert_eq!(UnifiedReason::network_error().error_code(), 202);
    assert_eq!(UnifiedReason::resource_error().error_code(), 203);
    assert_eq!(UnifiedReason::timeout_error().error_code(), 204);

    // Configuration & external layer (300-399)
    assert_eq!(UnifiedReason::core_conf().error_code(), 300);
    assert_eq!(UnifiedReason::external_error().error_code(), 301);
}

#[test]
fn test_retryable_errors() {
    assert!(UnifiedReason::network_error().is_retryable());
    assert!(UnifiedReason::timeout_error().is_retryable());
    assert!(!UnifiedReason::validation_error().is_retryable());
    assert!(!UnifiedReason::business_error().is_retryable());
}

#[test]
fn test_high_severity_errors() {
    assert!(UnifiedReason::system_error().is_high_severity());
    assert!(UnifiedReason::resource_error().is_high_severity());
    assert!(!UnifiedReason::validation_error().is_high_severity());
    assert!(!UnifiedReason::NotFoundError.is_high_severity());
}

#[test]
fn test_category_names() {
    assert_eq!(UnifiedReason::network_error().category_name(), "network");
    assert_eq!(UnifiedReason::business_error().category_name(), "business");
    assert_eq!(UnifiedReason::core_conf().category_name(), "config");
}

#[test]
fn test_stable_code_values() {
    assert_eq!(
        UnifiedReason::validation_error().stable_code(),
        "biz.validation_error"
    );
    assert_eq!(UnifiedReason::system_error().stable_code(), "sys.io_error");
    assert_eq!(
        UnifiedReason::core_conf().stable_code(),
        "conf.core_invalid"
    );
    assert_eq!(
        UnifiedReason::logic_error().stable_code(),
        "logic.internal_invariant_broken"
    );
}

#[test]
fn test_error_categories() {
    assert_eq!(
        UnifiedReason::validation_error().error_category(),
        ErrorCategory::Biz
    );
    assert_eq!(
        UnifiedReason::system_error().error_category(),
        ErrorCategory::Sys
    );
    assert_eq!(
        UnifiedReason::core_conf().error_category(),
        ErrorCategory::Conf
    );
    assert_eq!(
        UnifiedReason::logic_error().error_category(),
        ErrorCategory::Logic
    );
    assert_eq!(ErrorCategory::Biz.as_str(), "biz");
}

#[test]
fn test_trait_implementations() {
    let reason = UnifiedReason::network_error();
    assert_eq!(reason.error_code(), 202);

    let reason = UnifiedReason::validation_error();
    assert_eq!(reason.error_code(), 100);

    let reason = UnifiedReason::external_error();
    assert_eq!(reason.error_code(), 301);
    assert_eq!(reason.error_category(), ErrorCategory::Sys);
}

#[test]
fn logic_error_code_is_in_the_external_layer() {
    let code = UnifiedReason::logic_error().error_code();
    assert_eq!(code, 302);
    assert!((300..400).contains(&code));
}
