use orion_error::attr_syntax::{
    attr_entries, entries_of, item_entries, item_entry, join_entries, orion_lists, MetaItem,
};
use orion_error::context::{LogLevel, OperationContext};
use orion_error::derive_plan::{
    reason_attrs, universal_delegate_variant, upcast_plan, AttrEntry, AttrValue, CategoryAttr,
    DeriveError, ReasonAttrs, VariantShape,
};

fn read(tokens: &str) -> Result<(ReasonAttrs, Vec<String>), DeriveError> {
    reason_attrs(&attr_entries(tokens).expect("argument list"))
}

#[test]
fn attr_entries_read_each_key() {
    assert_eq!(
        attr_entries("identity = \"biz.invalid_request\""),
        Some(vec![AttrEntry::Identity(AttrValue::Str("biz.invalid_request".to_string()))])
    );
    assert_eq!(attr_entries("transparent"), Some(vec![AttrEntry::Transparent]));
    assert_eq!(
        attr_entries("code = 500, message = \"order not found\""),
        Some(vec![
            AttrEntry::Code(AttrValue::Expr("500".to_string())),
            AttrEntry::Message(AttrValue::Str("order not found".to_string())),
        ])
    );
    assert_eq!(
        attr_entries("upcast_from(LowReason, OtherReason)"),
        Some(vec![AttrEntry::UpcastFrom(vec![
            "LowReason".to_string(),
            "OtherReason".to_string()
        ])])
    );
    assert_eq!(
        attr_entries("category = \"biz\", category = Sys"),
        Some(vec![
            AttrEntry::Category(CategoryAttr::Literal("biz".to_string())),
            AttrEntry::Category(CategoryAttr::Ident("Sys".to_string())),
        ])
    );
    assert_eq!(attr_entries(""), Some(vec![]));
    assert_eq!(attr_entries("code = "), None);
}

#[test]
fn attr_entries_refuse_unknown_and_malformed_keys() {
    assert_eq!(attr_entries("retry = 3"), Some(vec![AttrEntry::Unsupported("retry".to_string())]));
    assert_eq!(attr_entries("code"), Some(vec![AttrEntry::Malformed("code".to_string())]));
    assert_eq!(
        attr_entries("transparent = true"),
        Some(vec![AttrEntry::Malformed("transparent".to_string())])
    );
    assert_eq!(
        attr_entries("upcast_from(crate::Low)"),
        Some(vec![AttrEntry::Malformed("upcast_from".to_string())])
    );
    assert_eq!(
        item_entry(&MetaItem::Flag("verbose".to_string())),
        AttrEntry::Unsupported("verbose".to_string())
    );
    assert_eq!(
        item_entry(&MetaItem::Flag("serde::skip".to_string())),
        AttrEntry::Unsupported("serde::skip".to_string())
    );
}

#[test]
fn reason_attrs_later_values_override() {
    let (a, up) = read("code = 1, message = \"a\", code = 2, transparent").unwrap();
    assert!(a.transparent);
    assert_eq!(a.code, Some(AttrValue::Expr("2".to_string())));
    assert_eq!(a.message, Some(AttrValue::Str("a".to_string())));
    assert_eq!(a.identity, None);
    assert!(up.is_empty());

    let (_, up) = read("upcast_from(A), upcast_from(B, C)").unwrap();
    assert_eq!(up, vec!["B".to_string(), "C".to_string()]);
}

#[test]
fn reason_attrs_refusals_in_order() {
    assert_eq!(
        read("category = \"nope\""),
        Err(DeriveError::UnknownCategory("nope".to_string()))
    );
    assert_eq!(
        read("retry = 3, category = \"nope\""),
        Err(DeriveError::UnsupportedAttribute("retry".to_string()))
    );
    assert_eq!(
        read("category = \"nope\", retry = 3"),
        Err(DeriveError::UnknownCategory("nope".to_string()))
    );
    assert_eq!(read("message"), Err(DeriveError::MalformedAttribute("message".to_string())));
    let (a, _) = read("category = \"conf\"").unwrap();
    assert_eq!(a.category, Some(CategoryAttr::Literal("conf".to_string())));
}

#[test]
fn upcast_plan_pairs_each_source() {
    let plan = upcast_plan("AppReason", &vec!["LowReason".to_string(), "DbReason".to_string()]);
    assert_eq!(
        plan,
        vec![
            ("LowReason".to_string(), "AppReason".to_string()),
            ("DbReason".to_string(), "AppReason".to_string()),
        ]
    );
}

#[test]
fn unified_reason_field_is_universal_delegate() {
    let shapes = vec![
        VariantShape { transparent: false, single_field_type: None },
        VariantShape { transparent: true, single_field_type: Some("UnifiedReason".to_string()) },
    ];
    assert_eq!(universal_delegate_variant(&shapes), Some(1));
}

#[test]
fn exit_record_level_follows_result() {
    let mut ctx = OperationContext::doing("sync").with_auto_log();
    assert_eq!(ctx.exit_record(), Some((LogLevel::Error, "fail! doing=sync".to_string())));
    ctx.mark_suc();
    assert_eq!(ctx.exit_record(), Some((LogLevel::Info, "suc! doing=sync".to_string())));
    ctx.mark_cancel();
    assert_eq!(ctx.exit_record(), Some((LogLevel::Warn, "cancel! doing=sync".to_string())));
    assert_eq!(OperationContext::doing("quiet").exit_record(), None);
}

#[test]
fn scope_guard_settles_result_on_drop() {
    let mut ctx = OperationContext::doing("op");
    {
        let _g = ctx.scope();
    }
    assert_eq!(ctx.result(), &orion_error::context::OperationResult::Fail);
    {
        let mut g = ctx.scope();
        g.mark_success();
    }
    assert_eq!(ctx.result(), &orion_error::context::OperationResult::Suc);
    let mut ctx = OperationContext::doing("scope_cancel");
    {
        let mut g = ctx.scoped_success();
        g.cancel();
    }
    assert_eq!(ctx.result(), &orion_error::context::OperationResult::Cancel);
}

#[test]
fn item_entries_join_attributes_in_order() {
    let attrs = vec!["identity = \"biz.order_missing\"".to_string(), "code = 404".to_string()];
    let entries = item_entries(&attrs).unwrap();
    assert_eq!(
        entries,
        vec![
            AttrEntry::Identity(AttrValue::Str("biz.order_missing".to_string())),
            AttrEntry::Code(AttrValue::Expr("404".to_string())),
        ]
    );
    let (a, _) = reason_attrs(&entries).unwrap();
    assert_eq!(a.code, Some(AttrValue::Expr("404".to_string())));
    assert_eq!(item_entries(&vec!["transparent".to_string(), "code = ,".to_string()]), None);
    assert_eq!(item_entries(&vec![]), Some(vec![]));
}

#[test]
fn item_entry_reads_upcast_items() {
    let list = MetaItem::List(
        "upcast_from".to_string(),
        true,
        Some(vec!["A".to_string(), "B".to_string()]),
    );
    assert_eq!(item_entry(&list), AttrEntry::UpcastFrom(vec!["A".to_string(), "B".to_string()]));
    let bad = MetaItem::List("upcast_from".to_string(), true, None);
    assert_eq!(item_entry(&bad), AttrEntry::Malformed("upcast_from".to_string()));
    let square = MetaItem::List("upcast_from".to_string(), false, Some(vec!["A".to_string()]));
    assert_eq!(item_entry(&square), AttrEntry::Malformed("upcast_from".to_string()));
    assert_eq!(
        attr_entries("upcast_from[A]"),
        Some(vec![AttrEntry::Malformed("upcast_from".to_string())])
    );
    let code = MetaItem::Assign("code".to_string(), "500".to_string());
    assert_eq!(item_entry(&code), AttrEntry::Code(AttrValue::Expr("500".to_string())));
    assert_eq!(
        attr_entries("upcast_from(A B, C)"),
        Some(vec![AttrEntry::UpcastFrom(vec!["A".to_string(), "B".to_string(), "C".to_string()])])
    );
}

#[test]
fn scope_guard_finish_settles_now() {
    let mut ctx = OperationContext::doing("op");
    let g = ctx.scope();
    g.finish();
    assert_eq!(ctx.result(), &orion_error::context::OperationResult::Fail);
    let mut g = ctx.scope();
    g.mark_success();
    g.finish();
    assert_eq!(ctx.result(), &orion_error::context::OperationResult::Suc);
    let mut ctx = OperationContext::doing("scope_fail");
    let mut g = ctx.scoped_success();
    g.mark_failure();
    assert_eq!(g.context().action().as_deref(), Some("scope_fail"));
    g.finish();
    assert_eq!(ctx.result(), &orion_error::context::OperationResult::Fail);
}

#[test]
fn orion_lists_pick_orion_error_attributes() {
    let attrs = vec![
        (vec!["doc".to_string()], None),
        (vec!["orion_error".to_string()], Some("code = 1".to_string())),
        (vec!["serde".to_string()], Some("rename = \"x\"".to_string())),
        (vec!["orion_error".to_string()], Some("transparent".to_string())),
    ];
    assert_eq!(
        orion_lists(&attrs),
        Some(vec!["code = 1".to_string(), "transparent".to_string()])
    );
    let bad = vec![(vec!["orion_error".to_string()], None)];
    assert_eq!(orion_lists(&bad), None);
}

#[test]
fn entries_of_reads_each_item_in_order() {
    let items = vec![
        MetaItem::Flag("transparent".to_string()),
        MetaItem::Assign("code".to_string(), "7".to_string()),
        MetaItem::Flag("retry".to_string()),
    ];
    assert_eq!(
        entries_of(&items),
        vec![
            AttrEntry::Transparent,
            AttrEntry::Code(AttrValue::Expr("7".to_string())),
            AttrEntry::Unsupported("retry".to_string()),
        ]
    );
    assert_eq!(entries_of(&vec![]), vec![]);
}

#[test]
fn join_entries_keeps_order_and_refuses_unread_parts() {
    let parts = vec![
        Some(vec![AttrEntry::Transparent]),
        Some(vec![]),
        Some(vec![AttrEntry::Unsupported("x".to_string()), AttrEntry::Transparent]),
    ];
    assert_eq!(
        join_entries(&parts),
        Some(vec![
            AttrEntry::Transparent,
            AttrEntry::Unsupported("x".to_string()),
            AttrEntry::Transparent
        ])
    );
    assert_eq!(join_entries(&vec![Some(vec![AttrEntry::Transparent]), None]), None);
    assert_eq!(join_entries(&vec![]), Some(vec![]));
}
