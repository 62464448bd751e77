//! The built-in universal reason classification and its configuration
//! sub-classification.
use vstd::prelude::*;

use crate::reason::{DomainReason, ErrorCategory, ErrorCode, ErrorIdentityProvider};

verus! {

/// Configuration error sub-classification.
#[derive(Debug, Clone, Copy, PartialEq, Eq, Structural)]
pub enum ConfErrReason {
    Core,
    Feature,
    Dynamic,
}

/// Universal error reason classification.
///
/// Error code ranges: 100-199 business layer, 200-299 infrastructure layer,
/// 300-399 configuration and external layer.
#[derive(Debug, Clone, Copy, PartialEq, Eq, Structural)]
pub enum UnifiedReason {
    /// Input validation errors.
    ValidationError,
    /// Business logic rule violations.
    BusinessError,
    /// Rule execution failures.
    RunRuleError,
    /// Resource not found.
    NotFoundError,
    /// Permission and authorization errors.
    PermissionError,
    /// Database and data processing errors.
    DataError,
    /// File system and OS-level errors.
    SystemError,
    /// Network connectivity and protocol errors.
    NetworkError,
    /// Resource exhaustion.
    ResourceError,
    /// Operation timeouts.
    TimeoutError,
    /// Configuration-related errors.
    ConfigError(ConfErrReason),
    /// Third-party service errors.
    ExternalError,
    /// Internal logic errors.
    LogicError,
}

/// Former name of [`UnifiedReason`].
pub type UvsReason = UnifiedReason;

/// The message a configuration sub-reason displays as.
pub open spec fn conf_text(c: ConfErrReason) -> Seq<char> {
    match c {
        ConfErrReason::Core => "core config"@,
        ConfErrReason::Feature => "feature config error"@,
        ConfErrReason::Dynamic => "dynamic config error"@,
    }
}

impl ConfErrReason {
    /// The message this sub-reason displays as.
    pub fn as_str(&self) -> (s: &'static str)
        ensures
            s@ == conf_text(*self),
    {
        match self {
            ConfErrReason::Core => "core config",
            ConfErrReason::Feature => "feature config error",
            ConfErrReason::Dynamic => "dynamic config error",
        }
    }
}

/// The message a universal reason displays as.
pub open spec fn unified_text(r: UnifiedReason) -> Seq<char> {
    match r {
        UnifiedReason::ValidationError => "validation error"@,
        UnifiedReason::BusinessError => "business logic error"@,
        UnifiedReason::RunRuleError => "run rule error"@,
        UnifiedReason::NotFoundError => "not found error"@,
        UnifiedReason::PermissionError => "permission error"@,
        UnifiedReason::DataError => "data error"@,
        UnifiedReason::SystemError => "system error"@,
        UnifiedReason::NetworkError => "network error"@,
        UnifiedReason::ResourceError => "resource error"@,
        UnifiedReason::TimeoutError => "timeout error"@,
        UnifiedReason::ConfigError(c) => "configuration error << "@ + conf_text(c),
        UnifiedReason::ExternalError => "external service error"@,
        UnifiedReason::LogicError => "BUG :logic error"@,
    }
}

/// The legacy numeric code of a universal reason.
pub open spec fn unified_code(r: UnifiedReason) -> i32 {
    match r {
        UnifiedReason::ValidationError => 100,
        UnifiedReason::BusinessError => 101,
        UnifiedReason::NotFoundError => 102,
        UnifiedReason::PermissionError => 103,
        UnifiedReason::LogicError => 302,
        UnifiedReason::RunRuleError => 105,
        UnifiedReason::DataError => 200,
        UnifiedReason::SystemError => 201,
        UnifiedReason::NetworkError => 202,
        UnifiedReason::ResourceError => 203,
        UnifiedReason::TimeoutError => 204,
        UnifiedReason::ConfigError(_) => 300,
        UnifiedReason::ExternalError => 301,
    }
}

/// The stable identity code of a universal reason.
pub open spec fn unified_stable_code(r: UnifiedReason) -> Seq<char> {
    match r {
        UnifiedReason::ValidationError => "biz.validation_error"@,
        UnifiedReason::BusinessError => "biz.business_error"@,
        UnifiedReason::RunRuleError => "biz.run_rule_error"@,
        UnifiedReason::NotFoundError => "biz.not_found"@,
        UnifiedReason::PermissionError => "biz.permission_denied"@,
        UnifiedReason::DataError => "sys.data_error"@,
        UnifiedReason::SystemError => "sys.io_error"@,
        UnifiedReason::NetworkError => "sys.network_error"@,
        UnifiedReason::ResourceError => "sys.resource_exhausted"@,
        UnifiedReason::TimeoutError => "sys.timeout"@,
        UnifiedReason::ConfigError(ConfErrReason::Core) => "conf.core_invalid"@,
        UnifiedReason::ConfigError(ConfErrReason::Feature) => "conf.feature_invalid"@,
        UnifiedReason::ConfigError(ConfErrReason::Dynamic) => "conf.dynamic_invalid"@,
        UnifiedReason::ExternalError => "sys.external_service_error"@,
        UnifiedReason::LogicError => "logic.internal_invariant_broken"@,
    }
}

/// The category of a universal reason.
pub open spec fn unified_category(r: UnifiedReason) -> ErrorCategory {
    match r {
        UnifiedReason::ConfigError(_) => ErrorCategory::Conf,
        UnifiedReason::LogicError => ErrorCategory::Logic,
        UnifiedReason::ValidationError | UnifiedReason::BusinessError
        | UnifiedReason::RunRuleError | UnifiedReason::NotFoundError
        | UnifiedReason::PermissionError => ErrorCategory::Biz,
        _ => ErrorCategory::Sys,
    }
}

/// Whether a universal reason is worth retrying.
pub open spec fn unified_retryable(r: UnifiedReason) -> bool {
    match r {
        UnifiedReason::NetworkError | UnifiedReason::TimeoutError | UnifiedReason::ResourceError
        | UnifiedReason::SystemError | UnifiedReason::ExternalError => true,
        _ => false,
    }
}

/// Whether a universal reason is logged with high severity.
pub open spec fn unified_high_severity(r: UnifiedReason) -> bool {
    match r {
        UnifiedReason::SystemError | UnifiedReason::ResourceError | UnifiedReason::ConfigError(
            _,
        ) => true,
        _ => false,
    }
}

/// The metrics category name of a universal reason.
pub open spec fn unified_category_name(r: UnifiedReason) -> Seq<char> {
    match r {
        UnifiedReason::ValidationError => "validation"@,
        UnifiedReason::BusinessError => "business"@,
        UnifiedReason::RunRuleError => "runrule"@,
        UnifiedReason::NotFoundError => "not_found"@,
        UnifiedReason::PermissionError => "permission"@,
        UnifiedReason::DataError => "data"@,
        UnifiedReason::SystemError => "system"@,
        UnifiedReason::NetworkError => "network"@,
        UnifiedReason::ResourceError => "resource"@,
        UnifiedReason::TimeoutError => "timeout"@,
        UnifiedReason::ConfigError(_) => "config"@,
        UnifiedReason::ExternalError => "external"@,
        UnifiedReason::LogicError => "logic"@,
    }
}

impl UnifiedReason {
    pub fn core_conf() -> (r: Self)
        ensures
            r == UnifiedReason::ConfigError(ConfErrReason::Core),
    {
        UnifiedReason::ConfigError(ConfErrReason::Core)
    }

    pub fn feature_conf() -> (r: Self)
        ensures
            r == UnifiedReason::ConfigError(ConfErrReason::Feature),
    {
        UnifiedReason::ConfigError(ConfErrReason::Feature)
    }

    pub fn dynamic_conf() -> (r: Self)
        ensures
            r == UnifiedReason::ConfigError(ConfErrReason::Dynamic),
    {
        UnifiedReason::ConfigError(ConfErrReason::Dynamic)
    }

    pub fn validation_error() -> (r: Self)
        ensures
            r == UnifiedReason::ValidationError,
    {
        UnifiedReason::ValidationError
    }

    pub fn business_error() -> (r: Self)
        ensures
            r == UnifiedReason::BusinessError,
    {
        UnifiedReason::BusinessError
    }

    pub fn rule_error() -> (r: Self)
        ensures
            r == UnifiedReason::RunRuleError,
    {
        UnifiedReason::RunRuleError
    }

    pub fn not_found_error() -> (r: Self)
        ensures
            r == UnifiedReason::NotFoundError,
    {
        UnifiedReason::NotFoundError
    }

    pub fn permission_error() -> (r: Self)
        ensures
            r == UnifiedReason::PermissionError,
    {
        UnifiedReason::PermissionError
    }

    pub fn data_error() -> (r: Self)
        ensures
            r == UnifiedReason::DataError,
    {
        UnifiedReason::DataError
    }

    pub fn system_error() -> (r: Self)
        ensures
            r == UnifiedReason::SystemError,
    {
        UnifiedReason::SystemError
    }

    pub fn network_error() -> (r: Self)
        ensures
            r == UnifiedReason::NetworkError,
    {
        UnifiedReason::NetworkError
    }

    pub fn resource_error() -> (r: Self)
        ensures
            r == UnifiedReason::ResourceError,
    {
        UnifiedReason::ResourceError
    }

    pub fn timeout_error() -> (r: Self)
        ensures
            r == UnifiedReason::TimeoutError,
    {
        UnifiedReason::TimeoutError
    }

    pub fn external_error() -> (r: Self)
        ensures
            r == UnifiedReason::ExternalError,
    {
        UnifiedReason::ExternalError
    }

    pub fn logic_error() -> (r: Self)
        ensures
            r == UnifiedReason::LogicError,
    {
        UnifiedReason::LogicError
    }

    /// Whether this error is worth retrying: infrastructure errors are, while
    /// business, configuration, data and logic errors are not.
    pub fn is_retryable(&self) -> (b: bool)
        ensures
            b == unified_retryable(*self),
    {
        match self {
            UnifiedReason::NetworkError => true,
            UnifiedReason::TimeoutError => true,
            UnifiedReason::ResourceError => true,
            UnifiedReason::SystemError => true,
            UnifiedReason::ExternalError => true,
            UnifiedReason::ValidationError => false,
            UnifiedReason::BusinessError => false,
            UnifiedReason::RunRuleError => false,
            UnifiedReason::NotFoundError => false,
            UnifiedReason::PermissionError => false,
            UnifiedReason::ConfigError(_) => false,
            UnifiedReason::DataError => false,
            UnifiedReason::LogicError => false,
        }
    }

    /// Whether this error should be logged with high severity.
    pub fn is_high_severity(&self) -> (b: bool)
        ensures
            b == unified_high_severity(*self),
    {
        match self {
            UnifiedReason::SystemError => true,
            UnifiedReason::ResourceError => true,
            UnifiedReason::ConfigError(_) => true,
            _ => false,
        }
    }

    /// The category name for monitoring and metrics.
    pub fn category_name(&self) -> (s: &'static str)
        ensures
            s@ == unified_category_name(*self),
    {
        match self {
            UnifiedReason::ValidationError => "validation",
            UnifiedReason::BusinessError => "business",
            UnifiedReason::RunRuleError => "runrule",
            UnifiedReason::NotFoundError => "not_found",
            UnifiedReason::PermissionError => "permission",
            UnifiedReason::DataError => "data",
            UnifiedReason::SystemError => "system",
            UnifiedReason::NetworkError => "network",
            UnifiedReason::ResourceError => "resource",
            UnifiedReason::TimeoutError => "timeout",
            UnifiedReason::ConfigError(_) => "config",
            UnifiedReason::ExternalError => "external",
            UnifiedReason::LogicError => "logic",
        }
    }
}

impl DomainReason for UnifiedReason {
    open spec fn spec_message(&self) -> Seq<char> {
        unified_text(*self)
    }

    fn message(&self) -> (s: String) {
        match self {
            UnifiedReason::ValidationError => "validation error".to_owned(),
            UnifiedReason::BusinessError => "business logic error".to_owned(),
            UnifiedReason::RunRuleError => "run rule error".to_owned(),
            UnifiedReason::NotFoundError => "not found error".to_owned(),
            UnifiedReason::PermissionError => "permission error".to_owned(),
            UnifiedReason::DataError => "data error".to_owned(),
            UnifiedReason::SystemError => "system error".to_owned(),
            UnifiedReason::NetworkError => "network error".to_owned(),
            UnifiedReason::ResourceError => "resource error".to_owned(),
            UnifiedReason::TimeoutError => "timeout error".to_owned(),
            UnifiedReason::ConfigError(c) => crate::text::concat2(
                "configuration error << ",
                c.as_str(),
            ),
            UnifiedReason::ExternalError => "external service error".to_owned(),
            UnifiedReason::LogicError => "BUG :logic error".to_owned(),
        }
    }
}

impl ErrorCode for UnifiedReason {
    fn error_code(&self) -> (c: i32)
        ensures
            c == unified_code(*self),
    {
        match self {
            UnifiedReason::ValidationError => 100,
            UnifiedReason::BusinessError => 101,
            UnifiedReason::NotFoundError => 102,
            UnifiedReason::PermissionError => 103,
            UnifiedReason::LogicError => 302,
            UnifiedReason::RunRuleError => 105,
            UnifiedReason::DataError => 200,
            UnifiedReason::SystemError => 201,
            UnifiedReason::NetworkError => 202,
            UnifiedReason::ResourceError => 203,
            UnifiedReason::TimeoutError => 204,
            UnifiedReason::ConfigError(_) => 300,
            UnifiedReason::ExternalError => 301,
        }
    }
}

impl ErrorIdentityProvider for UnifiedReason {
    open spec fn spec_stable_code(&self) -> Seq<char> {
        unified_stable_code(*self)
    }

    open spec fn spec_error_category(&self) -> ErrorCategory {
        unified_category(*self)
    }

    fn stable_code(&self) -> (s: &'static str) {
        match self {
            UnifiedReason::ValidationError => "biz.validation_error",
            UnifiedReason::BusinessError => "biz.business_error",
            UnifiedReason::RunRuleError => "biz.run_rule_error",
            UnifiedReason::NotFoundError => "biz.not_found",
            UnifiedReason::PermissionError => "biz.permission_denied",
            UnifiedReason::DataError => "sys.data_error",
            UnifiedReason::SystemError => "sys.io_error",
            UnifiedReason::NetworkError => "sys.network_error",
            UnifiedReason::ResourceError => "sys.resource_exhausted",
            UnifiedReason::TimeoutError => "sys.timeout",
            UnifiedReason::ConfigError(ConfErrReason::Core) => "conf.core_invalid",
            UnifiedReason::ConfigError(ConfErrReason::Feature) => "conf.feature_invalid",
            UnifiedReason::ConfigError(ConfErrReason::Dynamic) => "conf.dynamic_invalid",
            UnifiedReason::ExternalError => "sys.external_service_error",
            UnifiedReason::LogicError => "logic.internal_invariant_broken",
        }
    }

    fn error_category(&self) -> (c: ErrorCategory) {
        match self {
            UnifiedReason::ConfigError(_) => ErrorCategory::Conf,
            UnifiedReason::LogicError => ErrorCategory::Logic,
            UnifiedReason::ValidationError | UnifiedReason::BusinessError
            | UnifiedReason::RunRuleError | UnifiedReason::NotFoundError
            | UnifiedReason::PermissionError => ErrorCategory::Biz,
            _ => ErrorCategory::Sys,
        }
    }
}

/// Every universal reason's stable code starts with the name of its category
/// followed by a dot, and exactly the infrastructure reasons are retryable.
pub proof fn law_unified_code_prefix_matches_category(r: UnifiedReason)
    ensures
        unified_stable_code(r).subrange(0, crate::reason::category_text(unified_category(r)).len() as int)
            == crate::reason::category_text(unified_category(r)),
        unified_stable_code(r).len() > crate::reason::category_text(unified_category(r)).len(),
        unified_stable_code(r)[crate::reason::category_text(unified_category(r)).len() as int] == '.',
        unified_retryable(r) ==> unified_category(r) == ErrorCategory::Sys,
{
    reveal_strlit("biz.validation_error");
    reveal_strlit("biz.business_error");
    reveal_strlit("biz.run_rule_error");
    reveal_strlit("biz.not_found");
    reveal_strlit("biz.permission_denied");
    reveal_strlit("sys.data_error");
    reveal_strlit("sys.io_error");
    reveal_strlit("sys.network_error");
    reveal_strlit("sys.resource_exhausted");
    reveal_strlit("sys.timeout");
    reveal_strlit("conf.core_invalid");
    reveal_strlit("conf.feature_invalid");
    reveal_strlit("conf.dynamic_invalid");
    reveal_strlit("sys.external_service_error");
    reveal_strlit("logic.internal_invariant_broken");
    reveal_strlit("conf");
    reveal_strlit("biz");
    reveal_strlit("logic");
    reveal_strlit("sys");
    let code = unified_stable_code(r);
    let cat = crate::reason::category_text(unified_category(r));
    assert(code.subrange(0, cat.len() as int) =~= cat);
}


/// Every universal reason's stable code implies the reason's own category
/// when read as an identity.
pub proof fn law_unified_identity_category(r: UnifiedReason)
    ensures
        crate::reason::identity_category_of(unified_stable_code(r)) == Some(unified_category(r)),
{
    law_unified_code_prefix_matches_category(r);
    let code = unified_stable_code(r);
    let cat = crate::reason::category_text(unified_category(r));
    let k = cat.len() as int;
    reveal_strlit(".");
    assert(code =~= cat + "."@ + code.subrange(k + 1, code.len() as int)) by {
        assert(code.subrange(0, k) == cat);
    }
    crate::reason::law_identity_prefix_gives_category(
        unified_category(r),
        code.subrange(k + 1, code.len() as int),
    );
}


/// The legacy numeric codes are layered: every code lies in 100..400,
/// business reasons use 100..200, the 200..300 range is infrastructure
/// (system category), configuration reasons use 300, and only
/// infrastructure and external reasons (200 and above) are retryable. Each
/// reason's code lies in its layer's range: validation, business, rule,
/// not-found and permission errors in 100..200; data, system, network,
/// resource and timeout errors in 200..300; configuration, external and
/// logic errors in 300..400.
pub proof fn law_unified_code_ranges(r: UnifiedReason)
    ensures
        100 <= unified_code(r) < 400,
        unified_category(r) == ErrorCategory::Biz ==> 100 <= unified_code(r) < 200,
        200 <= unified_code(r) < 300 ==> unified_category(r) == ErrorCategory::Sys,
        unified_category(r) == ErrorCategory::Conf ==> unified_code(r) == 300,
        unified_retryable(r) ==> unified_code(r) >= 200,
        (r is ValidationError || r is BusinessError || r is RunRuleError || r is NotFoundError
            || r is PermissionError) <==> 100 <= unified_code(r) < 200,
        (r is DataError || r is SystemError || r is NetworkError || r is ResourceError
            || r is TimeoutError) <==> 200 <= unified_code(r) < 300,
        (r is ConfigError || r is ExternalError || r is LogicError) <==> 300 <= unified_code(r)
            < 400,
{
}

/// Exactly the infrastructure and external-service reasons are retryable:
/// network, timeout, resource, system and external errors.
pub proof fn law_unified_retryable_reasons(r: UnifiedReason)
    ensures
        unified_retryable(r) <==> (r is NetworkError || r is TimeoutError || r is ResourceError
            || r is SystemError || r is ExternalError),
{
}

} // verus!
