//! What the `orion_error` derive attributes mean: for each variant (or the
//! struct) of a reason type, which code, identity, category and message the
//! derived impls give, or why the derive is refused.
use vstd::prelude::*;

use crate::reason::{category_named, identity_category, identity_category_of, identity_message, message_from_identity, prefix_until_dot, ErrorCategory};
use crate::text::{ostr, owned};
use crate::universal::{ConfErrReason, UnifiedReason};

verus! {

/// An attribute value: a string literal's contents, or the source text of
/// any other expression.
#[derive(Debug, Clone, PartialEq, Eq)]
pub enum AttrValue {
    Str(String),
    Expr(String),
}

/// How a `category = ...` attribute was written.
#[derive(Debug, Clone, PartialEq, Eq)]
pub enum CategoryAttr {
    /// A string literal, such as `"biz"`.
    Literal(String),
    /// A single identifier, such as `Biz`.
    Ident(String),
    /// Any other expression, by its source text.
    Other(String),
}

/// The `orion_error` attributes of one variant or struct.
#[derive(Debug, Clone, PartialEq, Eq)]
pub struct ReasonAttrs {
    pub transparent: bool,
    pub code: Option<AttrValue>,
    pub message: Option<AttrValue>,
    pub identity: Option<AttrValue>,
    pub category: Option<CategoryAttr>,
}

/// The category a derive settles on: a known one, or an expression that is
/// passed through as written.
#[derive(Debug, Clone, PartialEq, Eq)]
pub enum CategoryChoice {
    Known(ErrorCategory),
    Expr(String),
}

/// Why a derive is refused.
#[derive(Debug, Clone, PartialEq, Eq)]
pub enum DeriveError {
    /// Neither `code = ...` nor `transparent`.
    MissingCode,
    /// Neither `identity = ...` nor `transparent`.
    MissingIdentity,
    /// No `category = ...` and no identity literal to take it from.
    MissingCategory,
    /// Neither `message = ...` nor an identity literal nor `transparent`.
    MissingMessage,
    /// A category literal other than `conf`, `biz`, `logic`, `sys`.
    UnknownCategory(String),
    /// An identity literal whose prefix is not a category name.
    UnknownIdentityPrefix(String),
    /// An `orion_error` key that the derive does not know, by its name.
    UnsupportedAttribute(String),
    /// A known `orion_error` key written in a form it does not take.
    MalformedAttribute(String),
    /// A `transparent` variant (or struct) that does not have exactly one
    /// field.
    TransparentNeedsOneField,
}

/// One entry of an `orion_error(...)` attribute list, in the order written
/// (the entries of several such attributes on one item follow each other).
#[derive(Debug, Clone, PartialEq, Eq)]
pub enum AttrEntry {
    /// `transparent`
    Transparent,
    /// `code = ...`
    Code(AttrValue),
    /// `message = ...`
    Message(AttrValue),
    /// `identity = ...`
    Identity(AttrValue),
    /// `category = ...`
    Category(CategoryAttr),
    /// `upcast_from(A, B, ...)`, by the identifiers listed.
    UpcastFrom(Vec<String>),
    /// Any other key, by its name.
    Unsupported(String),
    /// A known key written in a form it does not take (such as `code`
    /// without a value), by its name.
    Malformed(String),
}

/// One arm of a derived method: delegate to the wrapped reason, or give a
/// value.
#[derive(Debug, Clone, PartialEq, Eq)]
pub enum Arm<T> {
    Delegate,
    Value(T),
}

/// The content of a category choice.
pub enum ChoiceView {
    Known(ErrorCategory),
    Expr(Seq<char>),
}

/// The content of a refusal.
pub enum ErrorView {
    MissingCode,
    MissingIdentity,
    MissingCategory,
    MissingMessage,
    UnknownCategory(Seq<char>),
    UnknownIdentityPrefix(Seq<char>),
    UnsupportedAttribute(Seq<char>),
    MalformedAttribute(Seq<char>),
    TransparentNeedsOneField,
}

/// The content of an attribute value.
pub enum ValueView {
    Str(Seq<char>),
    Expr(Seq<char>),
}

/// The content of a category attribute.
pub enum CategoryAttrView {
    Literal(Seq<char>),
    Ident(Seq<char>),
    Other(Seq<char>),
}

/// The content of an attribute entry.
pub enum EntryView {
    Transparent,
    Code(ValueView),
    Message(ValueView),
    Identity(ValueView),
    Category(CategoryAttrView),
    UpcastFrom(Seq<Seq<char>>),
    Unsupported(Seq<char>),
    Malformed(Seq<char>),
}

impl View for AttrValue {
    type V = ValueView;

    open spec fn view(&self) -> ValueView {
        match self {
            AttrValue::Str(s) => ValueView::Str(s@),
            AttrValue::Expr(s) => ValueView::Expr(s@),
        }
    }
}

impl View for CategoryAttr {
    type V = CategoryAttrView;

    open spec fn view(&self) -> CategoryAttrView {
        match self {
            CategoryAttr::Literal(s) => CategoryAttrView::Literal(s@),
            CategoryAttr::Ident(s) => CategoryAttrView::Ident(s@),
            CategoryAttr::Other(s) => CategoryAttrView::Other(s@),
        }
    }
}

impl View for AttrEntry {
    type V = EntryView;

    open spec fn view(&self) -> EntryView {
        match self {
            AttrEntry::Transparent => EntryView::Transparent,
            AttrEntry::Code(v) => EntryView::Code(v@),
            AttrEntry::Message(v) => EntryView::Message(v@),
            AttrEntry::Identity(v) => EntryView::Identity(v@),
            AttrEntry::Category(c) => EntryView::Category(c@),
            AttrEntry::UpcastFrom(v) => EntryView::UpcastFrom(crate::text::strs(v@)),
            AttrEntry::Unsupported(k) => EntryView::Unsupported(k@),
            AttrEntry::Malformed(k) => EntryView::Malformed(k@),
        }
    }
}

impl View for CategoryChoice {
    type V = ChoiceView;

    open spec fn view(&self) -> ChoiceView {
        match self {
            CategoryChoice::Known(c) => ChoiceView::Known(*c),
            CategoryChoice::Expr(e) => ChoiceView::Expr(e@),
        }
    }
}

impl View for DeriveError {
    type V = ErrorView;

    open spec fn view(&self) -> ErrorView {
        match self {
            DeriveError::MissingCode => ErrorView::MissingCode,
            DeriveError::MissingIdentity => ErrorView::MissingIdentity,
            DeriveError::MissingCategory => ErrorView::MissingCategory,
            DeriveError::MissingMessage => ErrorView::MissingMessage,
            DeriveError::UnknownCategory(s) => ErrorView::UnknownCategory(s@),
            DeriveError::UnknownIdentityPrefix(s) => ErrorView::UnknownIdentityPrefix(s@),
            DeriveError::UnsupportedAttribute(s) => ErrorView::UnsupportedAttribute(s@),
            DeriveError::MalformedAttribute(s) => ErrorView::MalformedAttribute(s@),
            DeriveError::TransparentNeedsOneField => ErrorView::TransparentNeedsOneField,
        }
    }
}

/// The category an identifier names (`Conf`, `Biz`, `Logic`, `Sys`).
pub open spec fn category_ident(name: Seq<char>) -> Option<ErrorCategory> {
    if name == "Conf"@ {
        Some(ErrorCategory::Conf)
    } else if name == "Biz"@ {
        Some(ErrorCategory::Biz)
    } else if name == "Logic"@ {
        Some(ErrorCategory::Logic)
    } else if name == "Sys"@ {
        Some(ErrorCategory::Sys)
    } else {
        None
    }
}

/// What a `category = ...` attribute means.
pub open spec fn spec_category_choice(a: CategoryAttr) -> Result<ChoiceView, ErrorView> {
    match a {
        CategoryAttr::Literal(s) => match category_named(s@) {
            Some(c) => Ok(ChoiceView::Known(c)),
            None => Err(ErrorView::UnknownCategory(s@)),
        },
        CategoryAttr::Ident(s) => match category_ident(s@) {
            Some(c) => Ok(ChoiceView::Known(c)),
            None => Ok(ChoiceView::Expr(s@)),
        },
        CategoryAttr::Other(s) => Ok(ChoiceView::Expr(s@)),
    }
}

/// The category attributes give: the `category` attribute, else the
/// identity literal's prefix, else none.
pub open spec fn spec_attr_category(a: ReasonAttrs) -> Result<Option<ChoiceView>, ErrorView> {
    match a.category {
        Some(c) => match spec_category_choice(c) {
            Ok(v) => Ok(Some(v)),
            Err(e) => Err(e),
        },
        None => match a.identity {
            Some(AttrValue::Str(s)) => match identity_category_of(s@) {
                Some(c) => Ok(Some(ChoiceView::Known(c))),
                None => Err(ErrorView::UnknownIdentityPrefix(prefix_until_dot(s@, 0))),
            },
            _ => Ok(None),
        },
    }
}

/// The display message attributes give: a message literal, else the
/// message an identity literal implies.
pub open spec fn spec_display_message(a: ReasonAttrs) -> Option<Seq<char>> {
    match a.message {
        Some(AttrValue::Str(m)) => Some(m@),
        _ => match a.identity {
            Some(AttrValue::Str(s)) => Some(identity_message(s@)),
            _ => None,
        },
    }
}

/// What a category attribute means.
pub fn category_choice(a: &CategoryAttr) -> (r: Result<CategoryChoice, DeriveError>)
    ensures
        match (r, spec_category_choice(*a)) {
            (Ok(x), Ok(y)) => x@ == y,
            (Err(x), Err(y)) => x@ == y,
            _ => false,
        },
{
    match a {
        CategoryAttr::Literal(s) => match crate::reason::category_from_name(s.as_str()) {
            Some(c) => Ok(CategoryChoice::Known(c)),
            None => Err(DeriveError::UnknownCategory(s.clone())),
        },
        CategoryAttr::Ident(s) => {
            let t = s.as_str();
            if crate::text::text_eq(t, "Conf") {
                Ok(CategoryChoice::Known(ErrorCategory::Conf))
            } else if crate::text::text_eq(t, "Biz") {
                Ok(CategoryChoice::Known(ErrorCategory::Biz))
            } else if crate::text::text_eq(t, "Logic") {
                Ok(CategoryChoice::Known(ErrorCategory::Logic))
            } else if crate::text::text_eq(t, "Sys") {
                Ok(CategoryChoice::Known(ErrorCategory::Sys))
            } else {
                Ok(CategoryChoice::Expr(s.clone()))
            }
        },
        CategoryAttr::Other(s) => Ok(CategoryChoice::Expr(s.clone())),
    }
}

fn identity_prefix(s: &str) -> (r: String)
    ensures
        r@ == prefix_until_dot(s@, 0),
{
    let n = s.unicode_len();
    let mut i: usize = 0;
    while i < n && s.get_char(i) != '.'
        invariant
            n == s@.len(),
            i <= n,
            prefix_until_dot(s@, 0) == prefix_until_dot(s@, i as int),
        decreases n - i,
    {
        i += 1;
    }
    owned(s.substring_char(0, i))
}

/// The category the attributes give (see [`spec_attr_category`]).
pub fn attr_category(a: &ReasonAttrs) -> (r: Result<Option<CategoryChoice>, DeriveError>)
    ensures
        match (r, spec_attr_category(*a)) {
            (Ok(Some(x)), Ok(Some(y))) => x@ == y,
            (Ok(None), Ok(None)) => true,
            (Err(x), Err(y)) => x@ == y,
            _ => false,
        },
{
    match &a.category {
        Some(c) => match category_choice(c) {
            Ok(v) => Ok(Some(v)),
            Err(e) => Err(e),
        },
        None => match &a.identity {
            Some(AttrValue::Str(s)) => match identity_category(s.as_str()) {
                Some(c) => Ok(Some(CategoryChoice::Known(c))),
                None => Err(DeriveError::UnknownIdentityPrefix(identity_prefix(s.as_str()))),
            },
            _ => Ok(None),
        },
    }
}

/// The display message the attributes give (see [`spec_display_message`]).
pub fn display_message(a: &ReasonAttrs) -> (r: Option<String>)
    ensures
        ostr(r) == spec_display_message(*a),
{
    match &a.message {
        Some(AttrValue::Str(m)) => Some(m.clone()),
        _ => match &a.identity {
            Some(AttrValue::Str(s)) => Some(message_from_identity(s.as_str())),
            _ => None,
        },
    }
}

fn clone_attr(v: &AttrValue) -> (r: AttrValue)
    ensures
        r == *v,
{
    match v {
        AttrValue::Str(s) => AttrValue::Str(s.clone()),
        AttrValue::Expr(s) => AttrValue::Expr(s.clone()),
    }
}

/// The `error_code` arm of a variant: delegate when transparent, else the
/// `code` attribute, else `500` when a missing code defaults, else refused.
pub fn code_arm(a: &ReasonAttrs, default_missing: bool) -> (r: Result<Arm<AttrValue>, DeriveError>)
    ensures
        a.transparent ==> r == Ok::<Arm<AttrValue>, DeriveError>(Arm::Delegate),
        !a.transparent && a.code is Some ==> r == Ok::<Arm<AttrValue>, DeriveError>(
            Arm::Value(a.code->0),
        ),
        !a.transparent && a.code is None && default_missing ==> (r matches Ok(Arm::Value(
            AttrValue::Expr(t),
        )) && t@ == "500"@),
        !a.transparent && a.code is None && !default_missing ==> r == Err::<
            Arm<AttrValue>,
            DeriveError,
        >(DeriveError::MissingCode),
{
    if a.transparent {
        Ok(Arm::Delegate)
    } else {
        match &a.code {
            Some(c) => Ok(Arm::Value(clone_attr(c))),
            None => if default_missing {
                Ok(Arm::Value(AttrValue::Expr(owned("500"))))
            } else {
                Err(DeriveError::MissingCode)
            },
        }
    }
}

/// The `stable_code` arm of a variant: delegate when transparent, else the
/// `identity` attribute, else refused.
pub fn stable_code_arm(a: &ReasonAttrs) -> (r: Result<Arm<AttrValue>, DeriveError>)
    ensures
        a.transparent ==> r == Ok::<Arm<AttrValue>, DeriveError>(Arm::Delegate),
        !a.transparent && a.identity is Some ==> r == Ok::<Arm<AttrValue>, DeriveError>(
            Arm::Value(a.identity->0),
        ),
        !a.transparent && a.identity is None ==> r == Err::<Arm<AttrValue>, DeriveError>(
            DeriveError::MissingIdentity,
        ),
{
    if a.transparent {
        Ok(Arm::Delegate)
    } else {
        match &a.identity {
            Some(i) => Ok(Arm::Value(clone_attr(i))),
            None => Err(DeriveError::MissingIdentity),
        }
    }
}

/// The `error_category` arm of a variant: delegate when transparent, else
/// the category the attributes give, else refused.
pub fn category_arm(a: &ReasonAttrs) -> (r: Result<Arm<CategoryChoice>, DeriveError>)
    ensures
        a.transparent ==> r == Ok::<Arm<CategoryChoice>, DeriveError>(Arm::Delegate),
        !a.transparent ==> match (r, spec_attr_category(*a)) {
            (Ok(Arm::Value(x)), Ok(Some(y))) => x@ == y,
            (Err(x), Ok(None)) => x == DeriveError::MissingCategory,
            (Err(x), Err(y)) => x@ == y,
            _ => false,
        },
{
    if a.transparent {
        Ok(Arm::Delegate)
    } else {
        match attr_category(a) {
            Ok(Some(c)) => Ok(Arm::Value(c)),
            Ok(None) => Err(DeriveError::MissingCategory),
            Err(e) => Err(e),
        }
    }
}

/// The `Display` arm of a variant: delegate when transparent, else the
/// display message, else refused.
pub fn display_arm(a: &ReasonAttrs) -> (r: Result<Arm<String>, DeriveError>)
    ensures
        a.transparent ==> r == Ok::<Arm<String>, DeriveError>(Arm::Delegate),
        !a.transparent ==> match (r, spec_display_message(*a)) {
            (Ok(Arm::Value(x)), Some(y)) => x@ == y,
            (Err(x), None) => x == DeriveError::MissingMessage,
            _ => false,
        },
{
    if a.transparent {
        Ok(Arm::Delegate)
    } else {
        match display_message(a) {
            Some(m) => Ok(Arm::Value(m)),
            None => Err(DeriveError::MissingMessage),
        }
    }
}

/// The shape of a variant, as far as the delegate constructors need it:
/// whether it is transparent, and the type text of its single field.
#[derive(Debug, Clone, PartialEq, Eq)]
pub struct VariantShape {
    pub transparent: bool,
    pub single_field_type: Option<String>,
}

/// Whether a field's type text names the universal reason: it mentions
/// `UnifiedReason` or its former name `UvsReason` (with or without a path).
pub open spec fn names_universal(t: Seq<char>) -> bool {
    crate::error::contains_text(t, "UnifiedReason"@) || crate::error::contains_text(
        t,
        "UvsReason"@,
    )
}

/// Whether a variant wraps the universal reason transparently: it is
/// transparent and its single field's type names the universal reason.
pub open spec fn wraps_universal(v: VariantShape) -> bool {
    v.transparent && v.single_field_type is Some && names_universal(v.single_field_type->0@)
}

/// The first variant that wraps the universal reason transparently: the
/// one the universal constructors delegate to.
pub fn universal_delegate_variant(variants: &Vec<VariantShape>) -> (r: Option<usize>)
    ensures
        match r {
            Some(i) => i < variants@.len() && wraps_universal(variants@[i as int]) && forall|j: int|
                0 <= j < i ==> !wraps_universal(#[trigger] variants@[j]),
            None => forall|j: int| 0 <= j < variants@.len() ==> !wraps_universal(#[trigger] variants@[j]),
        },
{
    let mut i: usize = 0;
    while i < variants.len()
        invariant
            i <= variants.len(),
            forall|j: int| 0 <= j < i ==> !wraps_universal(#[trigger] variants@[j]),
        decreases variants.len() - i,
    {
        let v = &variants[i];
        if v.transparent {
            match &v.single_field_type {
                Some(t) => {
                    if crate::error::text_contains(t.as_str(), "UnifiedReason")
                        || crate::error::text_contains(t.as_str(), "UvsReason") {
                        return Some(i);
                    }
                },
                None => {},
            }
        }
        i += 1;
    }
    None
}


/// The `stable_code` arm a variant's attributes give.
pub open spec fn spec_stable_arm(a: ReasonAttrs) -> Result<Arm<AttrValue>, ErrorView> {
    if a.transparent {
        Ok(Arm::Delegate)
    } else {
        match a.identity {
            Some(v) => Ok(Arm::Value(v)),
            None => Err(ErrorView::MissingIdentity),
        }
    }
}

/// The `error_category` arm a variant's attributes give.
pub open spec fn spec_category_arm(a: ReasonAttrs) -> Result<Arm<ChoiceView>, ErrorView> {
    if a.transparent {
        Ok(Arm::Delegate)
    } else {
        match spec_attr_category(a) {
            Ok(Some(c)) => Ok(Arm::Value(c)),
            Ok(None) => Err(ErrorView::MissingCategory),
            Err(e) => Err(e),
        }
    }
}

/// The content of a category arm.
pub open spec fn choice_arm_view(a: Arm<CategoryChoice>) -> Arm<ChoiceView> {
    match a {
        Arm::Delegate => Arm::Delegate,
        Arm::Value(c) => Arm::Value(c@),
    }
}

/// The first refusal among the `stable_code` arms of the variants from
/// position `i` on.
pub open spec fn first_stable_error(vs: Seq<ReasonAttrs>, i: int) -> Option<ErrorView>
    decreases vs.len() - i,
{
    if i < 0 || i >= vs.len() {
        None
    } else {
        match spec_stable_arm(vs[i]) {
            Err(e) => Some(e),
            Ok(_) => first_stable_error(vs, i + 1),
        }
    }
}

/// The first refusal among the `error_category` arms of the variants from
/// position `i` on.
pub open spec fn first_category_error(vs: Seq<ReasonAttrs>, i: int) -> Option<ErrorView>
    decreases vs.len() - i,
{
    if i < 0 || i >= vs.len() {
        None
    } else {
        match spec_category_arm(vs[i]) {
            Err(e) => Some(e),
            Ok(_) => first_category_error(vs, i + 1),
        }
    }
}

/// The arms of a derived identity provider for an enum: one `stable_code`
/// and one `error_category` arm per variant, in order. The first variant
/// without a code refuses the derive; when every variant has one, the first
/// variant without a category does.
pub fn identity_plan(variants: &Vec<ReasonAttrs>) -> (r: Result<
    (Vec<Arm<AttrValue>>, Vec<Arm<CategoryChoice>>),
    DeriveError,
>)
    ensures
        match r {
            Ok((codes, cats)) => {
                &&& first_stable_error(variants@, 0) is None
                &&& first_category_error(variants@, 0) is None
                &&& codes@.len() == variants@.len()
                &&& cats@.len() == variants@.len()
                &&& forall|i: int|
                    0 <= i < variants@.len() ==> spec_stable_arm(#[trigger] variants@[i]) == Ok::<
                        Arm<AttrValue>,
                        ErrorView,
                    >(codes@[i])
                &&& forall|i: int|
                    0 <= i < variants@.len() ==> spec_category_arm(#[trigger] variants@[i])
                        == Ok::<Arm<ChoiceView>, ErrorView>(choice_arm_view(cats@[i]))
            },
            Err(e) => if first_stable_error(variants@, 0) is Some {
                first_stable_error(variants@, 0) == Some(e@)
            } else {
                first_category_error(variants@, 0) == Some(e@)
            },
        },
{
    let mut codes: Vec<Arm<AttrValue>> = Vec::new();
    let mut i: usize = 0;
    while i < variants.len()
        invariant
            i <= variants.len(),
            codes@.len() == i,
            first_stable_error(variants@, 0) == first_stable_error(variants@, i as int),
            forall|j: int|
                0 <= j < i ==> spec_stable_arm(#[trigger] variants@[j]) == Ok::<
                    Arm<AttrValue>,
                    ErrorView,
                >(codes@[j]),
        decreases variants.len() - i,
    {
        match stable_code_arm(&variants[i]) {
            Ok(arm) => codes.push(arm),
            Err(e) => {
                assert(first_stable_error(variants@, i as int) == Some(e@));
                return Err(e);
            },
        }
        i += 1;
    }
    let mut cats: Vec<Arm<CategoryChoice>> = Vec::new();
    let mut k: usize = 0;
    while k < variants.len()
        invariant
            k <= variants.len(),
            cats@.len() == k,
            first_stable_error(variants@, 0) is None,
            first_category_error(variants@, 0) == first_category_error(variants@, k as int),
            forall|j: int|
                0 <= j < k ==> spec_category_arm(#[trigger] variants@[j]) == Ok::<
                    Arm<ChoiceView>,
                    ErrorView,
                >(choice_arm_view(cats@[j])),
        decreases variants.len() - k,
    {
        match category_arm(&variants[k]) {
            Ok(arm) => {
                assert(spec_category_arm(variants@[k as int]) == Ok::<Arm<ChoiceView>, ErrorView>(
                    choice_arm_view(arm),
                ));
                cats.push(arm);
            },
            Err(e) => {
                assert(first_category_error(variants@, k as int) == Some(e@));
                return Err(e);
            },
        }
        k += 1;
    }
    Ok((codes, cats))
}


/// Whether a variant's attributes give no `error_code` arm.
pub open spec fn code_missing(a: ReasonAttrs, default_missing: bool) -> bool {
    !a.transparent && a.code is None && !default_missing
}

/// The arms of a derived `error_code` for an enum, one per variant in
/// order; refused when some variant has neither a code nor a default.
pub fn code_plan(variants: &Vec<ReasonAttrs>, default_missing: bool) -> (r: Result<
    Vec<Arm<AttrValue>>,
    DeriveError,
>)
    ensures
        r is Ok <==> forall|i: int|
            0 <= i < variants@.len() ==> !code_missing(#[trigger] variants@[i], default_missing),
        r is Err ==> r == Err::<Vec<Arm<AttrValue>>, DeriveError>(DeriveError::MissingCode),
        r matches Ok(arms) ==> arms@.len() == variants@.len() && forall|i: int|
            0 <= i < variants@.len() ==> (#[trigger] variants@[i]).transparent ==> arms@[i]
                == Arm::<AttrValue>::Delegate,
        r matches Ok(arms) ==> forall|i: int|
            0 <= i < variants@.len() && !(#[trigger] variants@[i]).transparent
                && variants@[i].code is Some ==> arms@[i] == Arm::Value(variants@[i].code->0),
        r matches Ok(arms) ==> forall|i: int|
            0 <= i < variants@.len() && !(#[trigger] variants@[i]).transparent
                && variants@[i].code is None && default_missing ==> (arms@[i] matches Arm::Value(
                AttrValue::Expr(t),
            ) && t@ == "500"@),
{
    let mut arms: Vec<Arm<AttrValue>> = Vec::new();
    let mut i: usize = 0;
    while i < variants.len()
        invariant
            i <= variants.len(),
            arms@.len() == i,
            forall|j: int| 0 <= j < i ==> !code_missing(#[trigger] variants@[j], default_missing),
            forall|j: int|
                0 <= j < i ==> (#[trigger] variants@[j]).transparent ==> arms@[j]
                    == Arm::<AttrValue>::Delegate,
            forall|j: int|
                0 <= j < i && !(#[trigger] variants@[j]).transparent && variants@[j].code is Some
                    ==> arms@[j] == Arm::Value(variants@[j].code->0),
            forall|j: int|
                0 <= j < i && !(#[trigger] variants@[j]).transparent && variants@[j].code is None
                    && default_missing ==> (arms@[j] matches Arm::Value(AttrValue::Expr(t))
                    && t@ == "500"@),
        decreases variants.len() - i,
    {
        match code_arm(&variants[i], default_missing) {
            Ok(arm) => arms.push(arm),
            Err(e) => {
                assert(code_missing(variants@[i as int], default_missing));
                return Err(e);
            },
        }
        i += 1;
    }
    Ok(arms)
}

/// The arms of a derived `Display` for an enum, one per variant in order;
/// refused when some variant has no message.
pub fn display_plan(variants: &Vec<ReasonAttrs>) -> (r: Result<Vec<Arm<String>>, DeriveError>)
    ensures
        r is Ok <==> forall|i: int|
            0 <= i < variants@.len() ==> (#[trigger] variants@[i]).transparent
                || spec_display_message(variants@[i]) is Some,
        r is Err ==> r == Err::<Vec<Arm<String>>, DeriveError>(DeriveError::MissingMessage),
        r matches Ok(arms) ==> arms@.len() == variants@.len() && forall|i: int|
            0 <= i < variants@.len() ==> match arms@[i] {
                Arm::Delegate => (#[trigger] variants@[i]).transparent,
                Arm::Value(m) => !variants@[i].transparent && Some(m@) == spec_display_message(
                    variants@[i],
                ),
            },
{
    let mut arms: Vec<Arm<String>> = Vec::new();
    let mut i: usize = 0;
    while i < variants.len()
        invariant
            i <= variants.len(),
            arms@.len() == i,
            forall|j: int|
                0 <= j < i ==> (#[trigger] variants@[j]).transparent || spec_display_message(
                    variants@[j],
                ) is Some,
            forall|j: int|
                0 <= j < i ==> match arms@[j] {
                    Arm::Delegate => (#[trigger] variants@[j]).transparent,
                    Arm::Value(m) => !variants@[j].transparent && Some(m@) == spec_display_message(
                        variants@[j],
                    ),
                },
        decreases variants.len() - i,
    {
        match display_arm(&variants[i]) {
            Ok(arm) => arms.push(arm),
            Err(e) => {
                return Err(e);
            },
        }
        i += 1;
    }
    Ok(arms)
}

/// The attributes of an item before any entry is read.
pub open spec fn no_attrs() -> ReasonAttrs {
    ReasonAttrs { transparent: false, code: None, message: None, identity: None, category: None }
}

/// Reading one entry: a known key sets its attribute (a later entry
/// overrides an earlier one); an unknown key, a known key in a form it
/// does not take, or a category literal that names no category, refuses
/// the item.
pub open spec fn read_entry(acc: (ReasonAttrs, Seq<String>), e: AttrEntry) -> Result<
    (ReasonAttrs, Seq<String>),
    ErrorView,
> {
    match e {
        AttrEntry::Transparent => Ok((ReasonAttrs { transparent: true, ..acc.0 }, acc.1)),
        AttrEntry::Code(v) => Ok((ReasonAttrs { code: Some(v), ..acc.0 }, acc.1)),
        AttrEntry::Message(v) => Ok((ReasonAttrs { message: Some(v), ..acc.0 }, acc.1)),
        AttrEntry::Identity(v) => Ok((ReasonAttrs { identity: Some(v), ..acc.0 }, acc.1)),
        AttrEntry::Category(c) => match c {
            CategoryAttr::Literal(t) if category_named(t@) is None => Err(
                ErrorView::UnknownCategory(t@),
            ),
            _ => Ok((ReasonAttrs { category: Some(c), ..acc.0 }, acc.1)),
        },
        AttrEntry::UpcastFrom(v) => Ok((acc.0, v@)),
        AttrEntry::Unsupported(k) => Err(ErrorView::UnsupportedAttribute(k@)),
        AttrEntry::Malformed(k) => Err(ErrorView::MalformedAttribute(k@)),
    }
}

/// The attributes a list of entries gives, with the `upcast_from` sources,
/// read in order; the first refused entry refuses the item.
pub open spec fn spec_reason_attrs(es: Seq<AttrEntry>) -> Result<(ReasonAttrs, Seq<String>), ErrorView>
    decreases es.len(),
{
    if es.len() == 0 {
        Ok((no_attrs(), Seq::empty()))
    } else {
        match spec_reason_attrs(es.drop_last()) {
            Ok(acc) => read_entry(acc, es.last()),
            Err(e) => Err(e),
        }
    }
}

/// Once a prefix of the entries is refused, the whole list is refused the
/// same way.
proof fn lemma_refusal_sticks(es: Seq<AttrEntry>, i: int)
    requires
        0 <= i <= es.len(),
        spec_reason_attrs(es.subrange(0, i)) is Err,
    ensures
        spec_reason_attrs(es) == spec_reason_attrs(es.subrange(0, i)),
    decreases es.len() - i,
{
    if i < es.len() {
        assert(es.subrange(0, i + 1).drop_last() == es.subrange(0, i));
        lemma_refusal_sticks(es, i + 1);
    } else {
        assert(es.subrange(0, i) == es);
    }
}

fn clone_category(c: &CategoryAttr) -> (r: CategoryAttr)
    ensures
        r == *c,
{
    match c {
        CategoryAttr::Literal(t) => CategoryAttr::Literal(t.clone()),
        CategoryAttr::Ident(t) => CategoryAttr::Ident(t.clone()),
        CategoryAttr::Other(t) => CategoryAttr::Other(t.clone()),
    }
}

/// Reads the `orion_error` entries of one variant or struct: the attributes
/// they set and the `upcast_from` sources (see [`spec_reason_attrs`]).
pub fn reason_attrs(entries: &Vec<AttrEntry>) -> (r: Result<(ReasonAttrs, Vec<String>), DeriveError>)
    ensures
        match (r, spec_reason_attrs(entries@)) {
            (Ok((a, u)), Ok((b, w))) => a == b && u@ == w,
            (Err(x), Err(y)) => x@ == y,
            _ => false,
        },
{
    let mut out = ReasonAttrs {
        transparent: false,
        code: None,
        message: None,
        identity: None,
        category: None,
    };
    let mut sources: Vec<String> = Vec::new();
    let mut i: usize = 0;
    while i < entries.len()
        invariant
            i <= entries.len(),
            spec_reason_attrs(entries@.subrange(0, i as int)) == Ok::<
                (ReasonAttrs, Seq<String>),
                ErrorView,
            >((out, sources@)),
        decreases entries.len() - i,
    {
        let ghost prefix = entries@.subrange(0, i as int + 1);
        assert(prefix.drop_last() == entries@.subrange(0, i as int));
        assert(prefix.last() == entries@[i as int]);
        match &entries[i] {
            AttrEntry::Transparent => {
                out.transparent = true;
            },
            AttrEntry::Code(v) => {
                out.code = Some(clone_attr(v));
            },
            AttrEntry::Message(v) => {
                out.message = Some(clone_attr(v));
            },
            AttrEntry::Identity(v) => {
                out.identity = Some(clone_attr(v));
            },
            AttrEntry::Category(c) => {
                if let CategoryAttr::Literal(t) = c {
                    if crate::reason::category_from_name(t.as_str()).is_none() {
                        proof {
                            lemma_refusal_sticks(entries@, i as int + 1);
                        }
                        return Err(DeriveError::UnknownCategory(t.clone()));
                    }
                }
                out.category = Some(clone_category(c));
            },
            AttrEntry::UpcastFrom(v) => {
                sources = crate::text::clone_strings(v);
            },
            AttrEntry::Unsupported(k) => {
                proof {
                    lemma_refusal_sticks(entries@, i as int + 1);
                }
                return Err(DeriveError::UnsupportedAttribute(k.clone()));
            },
            AttrEntry::Malformed(k) => {
                proof {
                    lemma_refusal_sticks(entries@, i as int + 1);
                }
                return Err(DeriveError::MalformedAttribute(k.clone()));
            },
        }
        i += 1;
    }
    assert(entries@.subrange(0, i as int) == entries@);
    Ok((out, sources))
}

/// The `From` conversions an `upcast_from` list asks for: one per source,
/// in order, each from the structured error of the source reason to that
/// of `target`, as (source, target) pairs.
pub fn upcast_plan(target: &str, sources: &Vec<String>) -> (r: Vec<(String, String)>)
    ensures
        r@.len() == sources@.len(),
        forall|i: int| 0 <= i < sources@.len() ==> (#[trigger] r@[i]).0 == sources@[i] && r@[i].1@ == target@,
{
    let mut out: Vec<(String, String)> = Vec::new();
    let mut i: usize = 0;
    while i < sources.len()
        invariant
            i <= sources.len(),
            out@.len() == i,
            forall|j: int| 0 <= j < i ==> (#[trigger] out@[j]).0 == sources@[j] && out@[j].1@ == target@,
        decreases sources.len() - i,
    {
        out.push((sources[i].clone(), owned(target)));
        i += 1;
    }
    out
}

/// Checks that every `transparent` variant has exactly one field, the one
/// the derived methods delegate to. Each entry is a variant's `transparent`
/// flag and its number of fields.
pub fn check_transparent_fields(variants: &Vec<(bool, usize)>) -> (r: Result<(), DeriveError>)
    ensures
        r is Ok <==> forall|i: int|
            0 <= i < variants@.len() && (#[trigger] variants@[i]).0 ==> variants@[i].1 == 1,
        r is Err ==> r == Err::<(), DeriveError>(DeriveError::TransparentNeedsOneField),
{
    let mut i: usize = 0;
    while i < variants.len()
        invariant
            i <= variants.len(),
            forall|j: int| 0 <= j < i && (#[trigger] variants@[j]).0 ==> variants@[j].1 == 1,
        decreases variants.len() - i,
    {
        let (transparent, fields) = variants[i];
        if transparent && fields != 1 {
            return Err(DeriveError::TransparentNeedsOneField);
        }
        i += 1;
    }
    Ok(())
}

/// The constructors a derive adds to an enum whose delegate variant wraps
/// the universal reasons (see [`universal_delegate_variant`]): each by its
/// name, with the universal reason it wraps, in order.
pub open spec fn universal_constructors() -> Seq<(Seq<char>, UnifiedReason)> {
    seq![
        ("core_conf"@, UnifiedReason::ConfigError(ConfErrReason::Core)),
        ("feature_conf"@, UnifiedReason::ConfigError(ConfErrReason::Feature)),
        ("dynamic_conf"@, UnifiedReason::ConfigError(ConfErrReason::Dynamic)),
        ("validation_error"@, UnifiedReason::ValidationError),
        ("business_error"@, UnifiedReason::BusinessError),
        ("rule_error"@, UnifiedReason::RunRuleError),
        ("not_found_error"@, UnifiedReason::NotFoundError),
        ("permission_error"@, UnifiedReason::PermissionError),
        ("data_error"@, UnifiedReason::DataError),
        ("system_error"@, UnifiedReason::SystemError),
        ("network_error"@, UnifiedReason::NetworkError),
        ("resource_error"@, UnifiedReason::ResourceError),
        ("timeout_error"@, UnifiedReason::TimeoutError),
        ("external_error"@, UnifiedReason::ExternalError),
        ("logic_error"@, UnifiedReason::LogicError),
    ]
}

/// The constructors to add for the delegate variant (see
/// [`universal_constructors`]): calling the one named `n` gives the
/// delegate variant wrapping the paired reason.
pub fn universal_constructor_plan() -> (r: Vec<(String, UnifiedReason)>)
    ensures
        r@.map_values(|p: (String, UnifiedReason)| (p.0@, p.1)) == universal_constructors(),
{
    let mut out: Vec<(String, UnifiedReason)> = Vec::new();
    out.push((owned("core_conf"), UnifiedReason::core_conf()));
    out.push((owned("feature_conf"), UnifiedReason::feature_conf()));
    out.push((owned("dynamic_conf"), UnifiedReason::dynamic_conf()));
    out.push((owned("validation_error"), UnifiedReason::validation_error()));
    out.push((owned("business_error"), UnifiedReason::business_error()));
    out.push((owned("rule_error"), UnifiedReason::rule_error()));
    out.push((owned("not_found_error"), UnifiedReason::not_found_error()));
    out.push((owned("permission_error"), UnifiedReason::permission_error()));
    out.push((owned("data_error"), UnifiedReason::data_error()));
    out.push((owned("system_error"), UnifiedReason::system_error()));
    out.push((owned("network_error"), UnifiedReason::network_error()));
    out.push((owned("resource_error"), UnifiedReason::resource_error()));
    out.push((owned("timeout_error"), UnifiedReason::timeout_error()));
    out.push((owned("external_error"), UnifiedReason::external_error()));
    out.push((owned("logic_error"), UnifiedReason::logic_error()));
    assert(out@.map_values(|p: (String, UnifiedReason)| (p.0@, p.1)) =~= universal_constructors());
    out
}

} // verus!
