//! Reading the argument tokens of an `orion_error(...)` attribute into
//! entries. syn splits the tokens into items and reads literals; which keys
//! exist and what form each takes is decided here, item by item.
use vstd::prelude::*;

use quote::ToTokens;
use syn::parse::Parser;
use syn::punctuated::Punctuated;
use syn::token::Comma;
use syn::{Ident, MacroDelimiter, Meta};

use crate::derive_plan::{AttrEntry, AttrValue, CategoryAttr, CategoryAttrView, EntryView, ValueView};
use crate::text::{ostr, strs, text_eq};

verus! {

/// One item of an attribute's argument list as syn reads it: the key as the
/// text of its path, and the rest as syn reads it.
#[derive(Debug, Clone, PartialEq, Eq)]
pub enum MetaItem {
    /// A bare path, such as `transparent`.
    Flag(String),
    /// A path with a bracketed token list, such as `upcast_from(A, B)`: the
    /// path, whether the brackets are round, and the identifiers the
    /// brackets hold when they hold only identifiers, each optionally
    /// followed by a comma.
    List(String, bool, Option<Vec<String>>),
    /// A path with `=` and an expression, such as `code = 500`: the path
    /// and the expression.
    Assign(String, String),
}

/// The content of a meta item.
pub enum MetaItemView {
    Flag(Seq<char>),
    List(Seq<char>, bool, Option<Seq<Seq<char>>>),
    Assign(Seq<char>, Seq<char>),
}

impl View for MetaItem {
    type V = MetaItemView;

    open spec fn view(&self) -> MetaItemView {
        match self {
            MetaItem::Flag(k) => MetaItemView::Flag(k@),
            MetaItem::List(k, paren, t) => MetaItemView::List(k@, *paren, ostrs(*t)),
            MetaItem::Assign(k, e) => MetaItemView::Assign(k@, e@),
        }
    }
}

/// The value of the string literal that a text is exactly, if it is one.
pub uninterp spec fn lit_str_of(text: Seq<char>) -> Option<Seq<char>>;

/// Whether a text is exactly one identifier.
pub uninterp spec fn ident_ok_of(text: Seq<char>) -> bool;

/// The views of an optional list of strings.
pub open spec fn ostrs(o: Option<Vec<String>>) -> Option<Seq<Seq<char>>> {
    match o {
        Some(v) => Some(strs(v@)),
        None => None,
    }
}

/// Parses `tokens` with syn's `Punctuated::<Meta, Comma>::parse_terminated`
/// and gives each `Meta` as its variant: the path as its token text
/// (`ToTokens::to_token_stream`, then `to_string`); a bracketed list as
/// whether its delimiter is `MacroDelimiter::Paren`, and the identifiers that
/// `Punctuated::<Ident, Option<Comma>>::parse_terminated` reads from it
/// (none when it reads none); an expression as its token text
/// (`ToTokens::to_token_stream`, then `to_string`). No contract: how
/// proc-macro2 prints tokens, and how identifiers read, depends on
/// process-wide state (its own printer, or the compiler's inside a
/// procedural macro), so nothing is claimed of the result; the functions
/// that take the items as arguments are exact.
#[verifier::external_body]
fn meta_items(tokens: &str) -> (r: Option<Vec<MetaItem>>) {
    let list = Punctuated::<Meta, Comma>::parse_terminated.parse_str(tokens).ok()?;
    Some(list.into_iter().map(|m| match m {
        Meta::Path(p) => MetaItem::Flag(p.to_token_stream().to_string()),
        Meta::List(l) => MetaItem::List(
            l.path.to_token_stream().to_string(),
            matches!(l.delimiter, MacroDelimiter::Paren(_)),
            l.parse_args_with(Punctuated::<Ident, Option<Comma>>::parse_terminated)
                .ok()
                .map(|v| v.iter().map(Ident::to_string).collect()),
        ),
        Meta::NameValue(nv) => MetaItem::Assign(nv.path.to_token_stream().to_string(), nv.value.to_token_stream().to_string()),
    }).collect())
}

/// Parses `text` with syn as a `LitStr` and gives its `value()`; none when
/// the text is not exactly one string literal. The contract claims only
/// that the result is a function of the text.
#[verifier::external_body]
fn lit_str_value(text: &str) -> (r: Option<String>)
    ensures
        ostr(r) == lit_str_of(text@),
{
    syn::parse_str::<syn::LitStr>(text).ok().map(|l| l.value())
}

/// Whether syn parses `text` as exactly one `Ident`. The contract claims
/// only that the answer is a function of the text.
#[verifier::external_body]
fn is_ident(text: &str) -> (r: bool)
    ensures
        r == ident_ok_of(text@),
{
    syn::parse_str::<syn::Ident>(text).is_ok()
}

/// Whether a key is one the derive knows.
pub open spec fn known_key(k: Seq<char>) -> bool {
    k == "transparent"@ || k == "code"@ || k == "message"@ || k == "identity"@ || k
        == "category"@ || k == "upcast_from"@
}

/// An expression attribute value: the literal's contents when the
/// expression is a string literal, else the expression's text.
pub open spec fn value_view(e: Seq<char>) -> ValueView {
    match lit_str_of(e) {
        Some(s) => ValueView::Str(s),
        None => ValueView::Expr(e),
    }
}

/// A category value: a string literal, a single identifier, or any other
/// expression.
pub open spec fn category_view(e: Seq<char>) -> CategoryAttrView {
    match lit_str_of(e) {
        Some(s) => CategoryAttrView::Literal(s),
        None => if ident_ok_of(e) {
            CategoryAttrView::Ident(e)
        } else {
            CategoryAttrView::Other(e)
        },
    }
}

/// The entry an item gives: `transparent` takes no value;
/// `code`, `message`, `identity` and `category` take `= expr`;
/// `upcast_from` takes a list of identifiers in round brackets (commas
/// between them optional); any other key is
/// unsupported, and a known key in another form is malformed.
pub open spec fn entry_of(m: MetaItemView) -> EntryView {
    match m {
        MetaItemView::Flag(k) => if k == "transparent"@ {
            EntryView::Transparent
        } else if known_key(k) {
            EntryView::Malformed(k)
        } else {
            EntryView::Unsupported(k)
        },
        MetaItemView::Assign(k, e) => if k == "code"@ {
            EntryView::Code(value_view(e))
        } else if k == "message"@ {
            EntryView::Message(value_view(e))
        } else if k == "identity"@ {
            EntryView::Identity(value_view(e))
        } else if k == "category"@ {
            EntryView::Category(category_view(e))
        } else if known_key(k) {
            EntryView::Malformed(k)
        } else {
            EntryView::Unsupported(k)
        },
        MetaItemView::List(k, paren, t) => if k == "upcast_from"@ {
            match t {
                Some(ids) if paren => EntryView::UpcastFrom(ids),
                _ => EntryView::Malformed(k),
            }
        } else if known_key(k) {
            EntryView::Malformed(k)
        } else {
            EntryView::Unsupported(k)
        },
    }
}

/// Whether an entry is one that some item gives.
pub open spec fn entry_readable(e: EntryView) -> bool {
    exists|m: MetaItemView| e == #[trigger] entry_of(m)
}

fn known_key_text(k: &str) -> (r: bool)
    ensures
        r == known_key(k@),
{
    text_eq(k, "transparent") || text_eq(k, "code") || text_eq(k, "message") || text_eq(
        k,
        "identity",
    ) || text_eq(k, "category") || text_eq(k, "upcast_from")
}

fn other_form(k: String) -> (r: AttrEntry)
    ensures
        r@ == (if known_key(k@) {
            EntryView::Malformed(k@)
        } else {
            EntryView::Unsupported(k@)
        }),
{
    if known_key_text(k.as_str()) {
        AttrEntry::Malformed(k)
    } else {
        AttrEntry::Unsupported(k)
    }
}

fn attr_value(e: &String) -> (r: AttrValue)
    ensures
        r@ == value_view(e@),
{
    match lit_str_value(e.as_str()) {
        Some(s) => AttrValue::Str(s),
        None => AttrValue::Expr(e.clone()),
    }
}

fn category_value(e: &String) -> (r: CategoryAttr)
    ensures
        r@ == category_view(e@),
{
    match lit_str_value(e.as_str()) {
        Some(s) => CategoryAttr::Literal(s),
        None => if is_ident(e.as_str()) {
            CategoryAttr::Ident(e.clone())
        } else {
            CategoryAttr::Other(e.clone())
        },
    }
}

/// The entry an item gives (see [`entry_of`]).
pub fn item_entry(m: &MetaItem) -> (r: AttrEntry)
    ensures
        r@ == entry_of(m@),
{
    match m {
        MetaItem::Flag(k) => {
            let name = k.clone();
            if text_eq(name.as_str(), "transparent") {
                AttrEntry::Transparent
            } else {
                other_form(name)
            }
        },
        MetaItem::Assign(k, e) => {
            let name = k.clone();
            let t = name.as_str();
            if text_eq(t, "code") {
                AttrEntry::Code(attr_value(e))
            } else if text_eq(t, "message") {
                AttrEntry::Message(attr_value(e))
            } else if text_eq(t, "identity") {
                AttrEntry::Identity(attr_value(e))
            } else if text_eq(t, "category") {
                AttrEntry::Category(category_value(e))
            } else {
                other_form(name)
            }
        },
        MetaItem::List(k, paren, ids) => {
            let name = k.clone();
            if text_eq(name.as_str(), "upcast_from") {
                match ids {
                    Some(v) if *paren => AttrEntry::UpcastFrom(crate::text::clone_strings(v)),
                    _ => AttrEntry::Malformed(name),
                }
            } else {
                other_form(name)
            }
        },
    }
}

/// The views of an optional list of entries.
pub open spec fn entry_views(o: Option<Vec<AttrEntry>>) -> Option<Seq<EntryView>> {
    match o {
        Some(v) => Some(v@.map_values(|e: AttrEntry| e@)),
        None => None,
    }
}

/// Whether every entry of an optional list is one that some item gives.
pub open spec fn all_readable(o: Option<Vec<AttrEntry>>) -> bool {
    o matches Some(v) ==> forall|i: int| 0 <= i < v@.len() ==> entry_readable(#[trigger] v@[i]@)
}

/// The entries the items give, one per item, in order (see [`item_entry`]).
pub fn entries_of(items: &Vec<MetaItem>) -> (r: Vec<AttrEntry>)
    ensures
        r@.len() == items@.len(),
        forall|i: int| 0 <= i < items@.len() ==> (#[trigger] r@[i])@ == entry_of(items@[i]@),
{
    let mut out: Vec<AttrEntry> = Vec::new();
    let mut i: usize = 0;
    while i < items.len()
        invariant
            i <= items.len(),
            out@.len() == i,
            forall|j: int| 0 <= j < i ==> (#[trigger] out@[j])@ == entry_of(items@[j]@),
        decreases items.len() - i,
    {
        out.push(item_entry(&items[i]));
        i += 1;
    }
    out
}

/// Reads the argument tokens of one `orion_error(...)` attribute into
/// entries, one per item, in order (see [`entries_of`]); none when syn does
/// not read them as a comma-separated list. What syn reads is not stated
/// (see `meta_items`): each entry is one that some item gives.
pub fn attr_entries(tokens: &str) -> (r: Option<Vec<AttrEntry>>)
    ensures
        all_readable(r),
{
    match meta_items(tokens) {
        None => None,
        Some(items) => {
            let out = entries_of(&items);
            assert forall|i: int| 0 <= i < out@.len() implies entry_readable(#[trigger] out@[i]@) by {
                assert(out@[i]@ == entry_of(items@[i]@));
            }
            Some(out)
        },
    }
}

/// Attribute entry lists joined one after another; none when one of them
/// is none.
pub open spec fn spec_joined(ps: Seq<Option<Seq<EntryView>>>) -> Option<Seq<EntryView>>
    decreases ps.len(),
{
    if ps.len() == 0 {
        Some(Seq::empty())
    } else {
        match (spec_joined(ps.drop_last()), ps.last()) {
            (Some(a), Some(b)) => Some(a + b),
            _ => None,
        }
    }
}

/// The views of a list of optional entry lists.
pub open spec fn part_views(ps: Seq<Option<Vec<AttrEntry>>>) -> Seq<Option<Seq<EntryView>>> {
    ps.map_values(|o: Option<Vec<AttrEntry>>| entry_views(o))
}

/// Joined lists are none exactly when one of the lists is none.
pub proof fn lemma_joined_none(ps: Seq<Option<Seq<EntryView>>>)
    ensures
        spec_joined(ps) is None <==> exists|i: int| 0 <= i < ps.len() && (#[trigger] ps[i]) is None,
    decreases ps.len(),
{
    if ps.len() > 0 {
        let t = ps.drop_last();
        lemma_joined_none(t);
        if spec_joined(t) is None {
            let i = choose|i: int| 0 <= i < t.len() && (#[trigger] t[i]) is None;
            assert(ps[i] == t[i]);
        }
        if exists|i: int| 0 <= i < ps.len() && (#[trigger] ps[i]) is None {
            let i = choose|i: int| 0 <= i < ps.len() && (#[trigger] ps[i]) is None;
            if i < t.len() {
                assert(t[i] == ps[i]);
            }
        }
    }
}

fn clone_entry(e: &AttrEntry) -> (r: AttrEntry)
    ensures
        r@ == e@,
{
    match e {
        AttrEntry::Transparent => AttrEntry::Transparent,
        AttrEntry::Code(v) => AttrEntry::Code(clone_value(v)),
        AttrEntry::Message(v) => AttrEntry::Message(clone_value(v)),
        AttrEntry::Identity(v) => AttrEntry::Identity(clone_value(v)),
        AttrEntry::Category(c) => AttrEntry::Category(match c {
            CategoryAttr::Literal(t) => CategoryAttr::Literal(t.clone()),
            CategoryAttr::Ident(t) => CategoryAttr::Ident(t.clone()),
            CategoryAttr::Other(t) => CategoryAttr::Other(t.clone()),
        }),
        AttrEntry::UpcastFrom(v) => AttrEntry::UpcastFrom(crate::text::clone_strings(v)),
        AttrEntry::Unsupported(k) => AttrEntry::Unsupported(k.clone()),
        AttrEntry::Malformed(k) => AttrEntry::Malformed(k.clone()),
    }
}

fn clone_value(v: &AttrValue) -> (r: AttrValue)
    ensures
        r@ == v@,
{
    match v {
        AttrValue::Str(s) => AttrValue::Str(s.clone()),
        AttrValue::Expr(s) => AttrValue::Expr(s.clone()),
    }
}

/// Joins the entries read from each attribute of one item, in order (see
/// [`spec_joined`]): none exactly when one attribute was not read.
pub fn join_entries(parts: &Vec<Option<Vec<AttrEntry>>>) -> (r: Option<Vec<AttrEntry>>)
    ensures
        entry_views(r) == spec_joined(part_views(parts@)),
        r is None <==> exists|i: int| 0 <= i < parts@.len() && (#[trigger] parts@[i]) is None,
        (forall|i: int| 0 <= i < parts@.len() ==> all_readable(#[trigger] parts@[i])) ==> all_readable(r),
{
    let ghost ps = part_views(parts@);
    let mut out: Vec<AttrEntry> = Vec::new();
    let mut i: usize = 0;
    assert(ps.subrange(0, 0) =~= Seq::<Option<Seq<EntryView>>>::empty());
    assert(out@.map_values(|e: AttrEntry| e@) =~= Seq::<EntryView>::empty());
    while i < parts.len()
        invariant
            i <= parts.len(),
            ps == part_views(parts@),
            spec_joined(ps.subrange(0, i as int)) == Some(out@.map_values(|e: AttrEntry| e@)),
            forall|j: int| 0 <= j < i ==> (#[trigger] parts@[j]) is Some,
            (forall|k: int| 0 <= k < parts@.len() ==> all_readable(#[trigger] parts@[k])) ==> forall|
                j: int,
            | 0 <= j < out@.len() ==> entry_readable(#[trigger] out@[j]@),
        decreases parts.len() - i,
    {
        let ghost pre = ps.subrange(0, i as int + 1);
        assert(pre.drop_last() =~= ps.subrange(0, i as int));
        assert(pre.last() == ps[i as int]);
        match &parts[i] {
            None => {
                proof {
                    lemma_joined_none(part_views(parts@));
                    assert(ps[i as int] is None);
                }
                return None;
            },
            Some(more) => {
                let ghost before = out@;
                let mut j: usize = 0;
                while j < more.len()
                    invariant
                        j <= more.len(),
                        out@.len() == before.len() + j,
                        forall|k: int| 0 <= k < before.len() ==> out@[k] == before[k],
                        forall|k: int| 0 <= k < j ==> (#[trigger] out@[before.len() + k])@ == more@[k]@,
                    decreases more.len() - j,
                {
                    out.push(clone_entry(&more[j]));
                    j += 1;
                }
                let ghost lhs = out@.map_values(|e: AttrEntry| e@);
                let ghost rhs = before.map_values(|e: AttrEntry| e@) + more@.map_values(
                    |e: AttrEntry| e@,
                );
                assert forall|k: int| 0 <= k < lhs.len() implies lhs[k] == rhs[k] by {
                    if k < before.len() {
                        assert(out@[k] == before[k]);
                    } else {
                        let m = k - before.len();
                        assert(out@[before.len() + m]@ == more@[m]@);
                    }
                }
                assert(lhs =~= rhs);
                proof {
                    if forall|k: int| 0 <= k < parts@.len() ==> all_readable(#[trigger] parts@[k]) {
                        assert(all_readable(parts@[i as int]));
                        assert forall|k: int| 0 <= k < out@.len() implies entry_readable(
                            #[trigger] out@[k]@,
                        ) by {
                            if k < before.len() {
                                assert(out@[k] == before[k]);
                            } else {
                                let m = k - before.len();
                                assert(out@[before.len() + m]@ == more@[m]@);
                            }
                        }
                    }
                }
            },
        }
        i += 1;
    }
    proof {
        assert(ps.subrange(0, parts.len() as int) =~= ps);
        lemma_joined_none(ps);
        assert forall|k: int| 0 <= k < ps.len() implies (#[trigger] ps[k]) is Some by {
            assert(parts@[k] is Some);
        }
    }
    Some(out)
}

/// Reads the argument tokens of every `orion_error(...)` attribute of one
/// item, in order, into one list of entries (see [`attr_entries`] and
/// [`join_entries`]); none when syn does not read one of them. With no
/// attribute the list is empty.
pub fn item_entries(attrs: &Vec<String>) -> (r: Option<Vec<AttrEntry>>)
    ensures
        attrs@.len() == 0 ==> (r matches Some(v) && v@.len() == 0),
        all_readable(r),
{
    let mut parts: Vec<Option<Vec<AttrEntry>>> = Vec::new();
    let mut i: usize = 0;
    while i < attrs.len()
        invariant
            i <= attrs.len(),
            parts@.len() == i,
            forall|k: int| 0 <= k < parts@.len() ==> all_readable(#[trigger] parts@[k]),
        decreases attrs.len() - i,
    {
        parts.push(attr_entries(attrs[i].as_str()));
        i += 1;
    }
    let r = join_entries(&parts);
    proof {
        if attrs@.len() == 0 {
            assert(part_views(parts@) =~= Seq::<Option<Seq<EntryView>>>::empty());
            assert(entry_views(r) == Some(Seq::<EntryView>::empty()));
            assert(r is Some);
            assert(r->0@.map_values(|e: AttrEntry| e@).len() == r->0@.len());
        }
    }
    r
}

/// Whether an attribute path is exactly `orion_error`.
pub open spec fn is_orion_path(p: Seq<Seq<char>>) -> bool {
    p.len() == 1 && p[0] == "orion_error"@
}

/// The argument tokens of the `orion_error(...)` attributes among an item's
/// attributes, each given by its path segments and, when it is written
/// `path(...)`, the tokens in the brackets; other attributes are skipped,
/// and an `orion_error` attribute not of that form makes the list
/// unreadable (none).
pub open spec fn spec_orion_lists(attrs: Seq<(Seq<Seq<char>>, Option<Seq<char>>)>) -> Option<
    Seq<Seq<char>>,
>
    decreases attrs.len(),
{
    if attrs.len() == 0 {
        Some(Seq::empty())
    } else {
        match spec_orion_lists(attrs.drop_last()) {
            None => None,
            Some(acc) => {
                let a = attrs.last();
                if !is_orion_path(a.0) {
                    Some(acc)
                } else {
                    match a.1 {
                        Some(t) => Some(acc.push(t)),
                        None => None,
                    }
                }
            },
        }
    }
}

/// The views of an item's attributes.
pub open spec fn attr_views(v: Seq<(Vec<String>, Option<String>)>) -> Seq<
    (Seq<Seq<char>>, Option<Seq<char>>),
> {
    v.map_values(|a: (Vec<String>, Option<String>)| (strs(a.0@), ostr(a.1)))
}

/// Picks the argument tokens of the `orion_error(...)` attributes (see
/// [`spec_orion_lists`]).
pub fn orion_lists(attrs: &Vec<(Vec<String>, Option<String>)>) -> (r: Option<Vec<String>>)
    ensures
        match r {
            Some(v) => spec_orion_lists(attr_views(attrs@)) == Some(strs(v@)),
            None => spec_orion_lists(attr_views(attrs@)) is None,
        },
{
    let ghost all = attr_views(attrs@);
    let mut out: Vec<String> = Vec::new();
    let mut i: usize = 0;
    assert(all.subrange(0, 0) =~= Seq::<(Seq<Seq<char>>, Option<Seq<char>>)>::empty());
    assert(strs(out@) =~= Seq::<Seq<char>>::empty());
    while i < attrs.len()
        invariant
            i <= attrs.len(),
            all == attr_views(attrs@),
            spec_orion_lists(all.subrange(0, i as int)) == Some(strs(out@)),
        decreases attrs.len() - i,
    {
        let ghost pre = all.subrange(0, i as int + 1);
        assert(pre.drop_last() =~= all.subrange(0, i as int));
        assert(pre.last() == all[i as int]);
        let (path, tokens) = (&attrs[i].0, &attrs[i].1);
        if path.len() == 1 && text_eq(path[0].as_str(), "orion_error") {
            match tokens {
                Some(t) => {
                    let ghost before = strs(out@);
                    out.push(t.clone());
                    assert(strs(out@) =~= before.push(t@));
                },
                None => {
                    proof {
                        lemma_orion_lists_none(all, i as int + 1);
                    }
                    return None;
                },
            }
        }
        i += 1;
    }
    assert(all.subrange(0, attrs.len() as int) =~= all);
    Some(out)
}

proof fn lemma_orion_lists_none(attrs: Seq<(Seq<Seq<char>>, Option<Seq<char>>)>, i: int)
    requires
        0 <= i <= attrs.len(),
        spec_orion_lists(attrs.subrange(0, i)) is None,
    ensures
        spec_orion_lists(attrs) is None,
    decreases attrs.len() - i,
{
    if i < attrs.len() {
        assert(attrs.subrange(0, i + 1).drop_last() =~= attrs.subrange(0, i));
        lemma_orion_lists_none(attrs, i + 1);
    } else {
        assert(attrs.subrange(0, i) =~= attrs);
    }
}

} // verus!
