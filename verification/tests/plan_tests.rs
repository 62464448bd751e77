use orion_error::context::{OperationContext, OperationResult};
use orion_error::conversion::SourceErr;
use orion_error::derive_plan::{
    check_transparent_fields, universal_constructor_plan, attr_category, category_arm, category_choice, code_arm, code_plan, display_arm, display_plan,
    display_message, identity_plan, stable_code_arm, universal_delegate_variant, Arm, AttrValue,
    CategoryAttr, CategoryChoice, DeriveError, ReasonAttrs, VariantShape,
};
use orion_error::error::StructError;
use orion_error::reason::{DomainReason, ErrorCategory};
use orion_error::source::StdSource;
use orion_error::universal::UnifiedReason;

fn attrs() -> ReasonAttrs {
    ReasonAttrs {
        transparent: false,
        code: None,
        message: None,
        identity: None,
        category: None,
    }
}

#[derive(Debug, Clone, PartialEq)]
enum AppReason {
    General(UnifiedReason),
}

impl From<UnifiedReason> for AppReason {
    fn from(value: UnifiedReason) -> Self {
        AppReason::General(value)
    }
}

impl DomainReason for AppReason {
    fn message(&self) -> String {
        match self {
            AppReason::General(r) => r.message(),
        }
    }
}

#[test]
fn plan_category_literals_and_idents() {
    assert_eq!(
        category_choice(&CategoryAttr::Literal("biz".to_string())),
        Ok(CategoryChoice::Known(ErrorCategory::Biz))
    );
    assert_eq!(
        category_choice(&CategoryAttr::Literal("business".to_string())),
        Err(DeriveError::UnknownCategory("business".to_string()))
    );
    assert_eq!(
        category_choice(&CategoryAttr::Ident("Sys".to_string())),
        Ok(CategoryChoice::Known(ErrorCategory::Sys))
    );
    assert_eq!(
        category_choice(&CategoryAttr::Ident("MY_CATEGORY".to_string())),
        Ok(CategoryChoice::Expr("MY_CATEGORY".to_string()))
    );
    assert_eq!(
        category_choice(&CategoryAttr::Other("cat()".to_string())),
        Ok(CategoryChoice::Expr("cat()".to_string()))
    );
}

#[test]
fn plan_category_from_identity_prefix() {
    let mut a = attrs();
    a.identity = Some(AttrValue::Str("conf.missing_key".to_string()));
    assert_eq!(attr_category(&a), Ok(Some(CategoryChoice::Known(ErrorCategory::Conf))));
    a.identity = Some(AttrValue::Str("net.down".to_string()));
    assert_eq!(
        attr_category(&a),
        Err(DeriveError::UnknownIdentityPrefix("net".to_string()))
    );
    a.category = Some(CategoryAttr::Literal("logic".to_string()));
    assert_eq!(attr_category(&a), Ok(Some(CategoryChoice::Known(ErrorCategory::Logic))));
    assert_eq!(attr_category(&attrs()), Ok(None));
}

#[test]
fn plan_display_message_prefers_message_literal() {
    let mut a = attrs();
    a.identity = Some(AttrValue::Str("biz.order_not_found".to_string()));
    assert_eq!(display_message(&a).as_deref(), Some("order not found"));
    a.message = Some(AttrValue::Str("no such order".to_string()));
    assert_eq!(display_message(&a).as_deref(), Some("no such order"));
    a.message = Some(AttrValue::Expr("MSG".to_string()));
    assert_eq!(display_message(&a).as_deref(), Some("order not found"));
    assert_eq!(display_arm(&attrs()), Err(DeriveError::MissingMessage));
}

#[test]
fn plan_arms_for_single_variants() {
    let mut t = attrs();
    t.transparent = true;
    assert_eq!(code_arm(&t, false), Ok(Arm::Delegate));
    assert_eq!(stable_code_arm(&t), Ok(Arm::Delegate));
    assert_eq!(category_arm(&t), Ok(Arm::Delegate));
    assert_eq!(code_arm(&attrs(), false), Err(DeriveError::MissingCode));
    assert_eq!(
        code_arm(&attrs(), true),
        Ok(Arm::Value(AttrValue::Expr("500".to_string())))
    );
    let mut c = attrs();
    c.code = Some(AttrValue::Expr("1001".to_string()));
    assert_eq!(code_arm(&c, false), Ok(Arm::Value(AttrValue::Expr("1001".to_string()))));
    assert_eq!(stable_code_arm(&attrs()), Err(DeriveError::MissingIdentity));
    assert_eq!(category_arm(&attrs()), Err(DeriveError::MissingCategory));
}

#[test]
fn plan_whole_enum() {
    let mut a = attrs();
    a.identity = Some(AttrValue::Str("biz.order_not_found".to_string()));
    let mut t = attrs();
    t.transparent = true;
    let plan = identity_plan(&vec![a.clone(), t.clone()]).unwrap();
    assert_eq!(
        plan.0,
        vec![Arm::Value(AttrValue::Str("biz.order_not_found".to_string())), Arm::Delegate]
    );
    assert_eq!(
        plan.1,
        vec![Arm::Value(CategoryChoice::Known(ErrorCategory::Biz)), Arm::Delegate]
    );
    let mut bad = attrs();
    bad.identity = Some(AttrValue::Expr("CODE".to_string()));
    assert_eq!(
        identity_plan(&vec![a.clone(), bad.clone(), attrs()]),
        Err(DeriveError::MissingIdentity)
    );
    assert_eq!(identity_plan(&vec![a.clone(), bad]), Err(DeriveError::MissingCategory));
    assert_eq!(code_plan(&vec![a.clone(), t.clone()], false), Err(DeriveError::MissingCode));
    assert_eq!(
        code_plan(&vec![a.clone(), t.clone()], true),
        Ok(vec![Arm::Value(AttrValue::Expr("500".to_string())), Arm::Delegate])
    );
    assert_eq!(
        display_plan(&vec![a, t]),
        Ok(vec![Arm::Value("order not found".to_string()), Arm::Delegate])
    );
}

#[test]
fn plan_universal_delegate_variant() {
    let shapes = vec![
        VariantShape { transparent: false, single_field_type: Some("UvsReason".to_string()) },
        VariantShape { transparent: true, single_field_type: Some("String".to_string()) },
        VariantShape {
            transparent: true,
            single_field_type: Some(":: orion_error :: reason :: UvsReason".to_string()),
        },
    ];
    assert_eq!(universal_delegate_variant(&shapes), Some(2));
    assert_eq!(universal_delegate_variant(&shapes[..2].to_vec()), None);
}

#[test]
fn upcast_and_source_err() {
    let err = StructError::from(UnifiedReason::network_error()).with_detail("db down");
    let up: StructError<AppReason> = err.upcast();
    assert_eq!(up.reason(), &AppReason::General(UnifiedReason::network_error()));
    assert_eq!(up.detail().as_deref(), Some("db down"));

    let raw: Result<(), StdSource> = Err(StdSource::new("disk offline", "std::io::Error"));
    let e = raw.source_err(UnifiedReason::system_error(), "load failed").unwrap_err();
    assert_eq!(e.source_ref().as_deref(), Some("disk offline"));

    let structured: Result<(), StructError<UnifiedReason>> =
        Err(StructError::from(UnifiedReason::validation_error()));
    let e = structured.source_err(UnifiedReason::system_error(), "load failed").unwrap_err();
    assert_eq!(e.source_chain(), vec!["validation error".to_string()]);
}

#[test]
fn context_exit_line_by_result() {
    let mut ctx = OperationContext::doing("sync").with_auto_log();
    assert_eq!(ctx.exit_line().as_deref(), Some("fail! doing=sync"));
    ctx.mark_suc();
    assert_eq!(ctx.exit_line().as_deref(), Some("suc! doing=sync"));
    ctx.mark_cancel();
    assert_eq!(ctx.result(), &OperationResult::Cancel);
    assert_eq!(ctx.exit_line().as_deref(), Some("cancel! doing=sync"));
    assert_eq!(OperationContext::doing("quiet").exit_line(), None);
}

#[test]
fn plan_transparent_variant_needs_one_field() {
    assert_eq!(check_transparent_fields(&vec![(false, 0), (true, 1), (false, 3)]), Ok(()));
    assert_eq!(
        check_transparent_fields(&vec![(false, 2), (true, 2)]),
        Err(DeriveError::TransparentNeedsOneField)
    );
    assert_eq!(
        check_transparent_fields(&vec![(true, 0)]),
        Err(DeriveError::TransparentNeedsOneField)
    );
}

#[test]
fn plan_universal_constructors_wrap_each_reason() {
    let plan = universal_constructor_plan();
    assert_eq!(plan.len(), 15);
    assert_eq!(plan[0], ("core_conf".to_string(), UnifiedReason::core_conf()));
    assert_eq!(plan[9], ("system_error".to_string(), UnifiedReason::system_error()));
    assert_eq!(plan[14], ("logic_error".to_string(), UnifiedReason::logic_error()));
}
