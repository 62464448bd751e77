//! The human-facing diagnostics layer: redaction policies and the
//! diagnostic report built from an error.
use vstd::prelude::*;

use crate::context::{
    compat_target, context_display, default_mod_path, normalize_target, ContextView,
    OperationContext,
};
use crate::error::{ctx_views, ErrorView, StructError};
use crate::metadata::{ErrorMetadata, MetaView, MetadataValue};
use crate::reason::DomainReason;
use crate::source::{osmol, smol_as_str, smol_new, FrameView, SourceFrame};
use crate::text::{
    clone_opt, join, ostr, owned, spec_join, strs, text_lt, trim_end, trim_end_text,
};

verus! {

/// The character view of an optional key.
pub open spec fn okey(k: Option<&str>) -> Option<Seq<char>> {
    match k {
        Some(s) => Some(s@),
        None => None,
    }
}

/// A policy that decides which keys are sensitive and what values become.
pub trait RedactPolicy {
    /// Whether values under `key` are sensitive. This default applies only
    /// to an implementation in verified code that does not define it;
    /// implementations outside verified code are not held to it.
    closed spec fn hides_key(&self, key: Seq<char>) -> bool {
        false
    }

    /// What `value` (under `key`, if any) becomes; `None` drops it. This
    /// default applies only to an implementation in verified code that does
    /// not define it; implementations outside verified code are not held to
    /// it.
    closed spec fn value_for(&self, key: Option<Seq<char>>, value: Seq<char>) -> Option<Seq<char>> {
        Some(value)
    }

    /// Whether values under `key` are sensitive.
    fn redact_key(&self, key: &str) -> (r: bool)
        ensures
            r == self.hides_key(key@),
    ;

    /// What `value` becomes; `None` drops it.
    fn redact_value(&self, key: Option<&str>, value: &str) -> (r: Option<String>)
        ensures
            ostr(r) == self.value_for(okey(key), value@),
    ;
}

/// The text put in place of a sensitive value that the policy dropped.
pub open spec fn redacted_mark() -> Seq<char> {
    seq!['<', 'r', 'e', 'd', 'a', 'c', 't', 'e', 'd', '>']
}

fn redacted_mark_text() -> (r: String)
    ensures
        r@ == redacted_mark(),
{
    let mut s = String::new();
    crate::text::push_str(&mut s, "<redacted>");
    proof {
        reveal_strlit("<redacted>");
    }
    assert(s@ =~= redacted_mark());
    s
}

/// An optional text under `key` after redaction.
pub open spec fn opt_redact<P: RedactPolicy>(p: P, key: Seq<char>, v: Option<Seq<char>>) -> Option<
    Seq<char>,
> {
    match v {
        Some(x) => p.value_for(Some(key), x),
        None => None,
    }
}

/// A required text under `key` after redaction: dropped values show the
/// redaction mark.
pub open spec fn req_redact<P: RedactPolicy>(p: P, key: Seq<char>, v: Seq<char>) -> Seq<char> {
    match p.value_for(Some(key), v) {
        Some(x) => x,
        None => redacted_mark(),
    }
}

/// A field value after redaction: a sensitive key keeps the policy's value
/// or, when the policy drops it, the redaction mark.
pub open spec fn item_redact<P: RedactPolicy>(p: P, k: Seq<char>, v: Seq<char>) -> Option<
    Seq<char>,
> {
    if p.hides_key(k) {
        match p.value_for(Some(k), v) {
            Some(x) => Some(x),
            None => Some(redacted_mark()),
        }
    } else {
        p.value_for(Some(k), v)
    }
}

/// The fields that remain after redaction, in order.
pub open spec fn items_redact<P: RedactPolicy>(p: P, s: Seq<(Seq<char>, Seq<char>)>) -> Seq<
    (Seq<char>, Seq<char>),
>
    decreases s.len(),
{
    if s.len() == 0 {
        Seq::empty()
    } else {
        let rest = items_redact(p, s.drop_last());
        match item_redact(p, s.last().0, s.last().1) {
            Some(x) => rest.push((s.last().0, x)),
            None => rest,
        }
    }
}

/// A metadata value after redaction: text values as fields; other values
/// kept unless the key is sensitive.
pub open spec fn meta_entry_redact<P: RedactPolicy>(p: P, k: Seq<char>, v: MetaView) -> Option<
    MetaView,
> {
    match v {
        MetaView::Str(x) => match item_redact(p, k, x) {
            Some(y) => Some(MetaView::Str(y)),
            None => None,
        },
        _ => if p.hides_key(k) {
            None
        } else {
            Some(v)
        },
    }
}

/// The metadata entries that remain after redaction, in order.
pub open spec fn meta_redact<P: RedactPolicy>(p: P, s: Seq<(Seq<char>, MetaView)>) -> Seq<
    (Seq<char>, MetaView),
>
    decreases s.len(),
{
    if s.len() == 0 {
        Seq::empty()
    } else {
        let rest = meta_redact(p, s.drop_last());
        match meta_entry_redact(p, s.last().0, s.last().1) {
            Some(x) => rest.push((s.last().0, x)),
            None => rest,
        }
    }
}

/// The path segments that remain after redaction, in order.
pub open spec fn segments_redact<P: RedactPolicy>(p: P, s: Seq<Seq<char>>) -> Seq<Seq<char>>
    decreases s.len(),
{
    if s.len() == 0 {
        Seq::empty()
    } else {
        let rest = segments_redact(p, s.drop_last());
        match p.value_for(Some("path"@), s.last()) {
            Some(x) => rest.push(x),
            None => rest,
        }
    }
}

/// A context after redaction. It is rebuilt from its projected parts, so
/// its log settings return to their defaults.
pub open spec fn context_redact<P: RedactPolicy>(p: P, c: ContextView) -> ContextView {
    normalize_target(
        ContextView {
            items: items_redact(p, c.items),
            result: c.result,
            exit_log: false,
            mod_path: default_mod_path(),
            action: opt_redact(p, "action"@, c.action),
            locator: opt_redact(p, "locator"@, c.locator),
            target: opt_redact(p, "want"@, compat_target(c)),
            path: segments_redact(p, c.path),
            metadata: meta_redact(p, c.metadata),
        },
    )
}

/// A source frame after redaction.
pub open spec fn frame_redact<P: RedactPolicy>(p: P, f: FrameView) -> FrameView {
    FrameView {
        message: req_redact(p, "source.message"@, f.message),
        display: opt_redact(p, "source.display"@, f.display),
        debug: match f.debug {
            Some(d) => Some(req_redact(p, "source.debug"@, d)),
            None => None,
        },
        detail: opt_redact(p, "detail"@, f.detail),
        reason: opt_redact(p, "source.reason"@, f.reason),
        path: opt_redact(p, "path"@, f.path),
        metadata: meta_redact(p, f.metadata),
        ..f
    }
}

/// Redacts an optional text under `key`.
pub fn redact_optional_text<P: RedactPolicy>(key: &str, value: &Option<String>, policy: &P) -> (r:
    Option<String>)
    ensures
        ostr(r) == opt_redact(*policy, key@, ostr(*value)),
{
    match value {
        Some(v) => policy.redact_value(Some(key), v.as_str()),
        None => None,
    }
}

/// Redacts a required text under `key`.
pub fn redact_required_text<P: RedactPolicy>(key: &str, value: &str, policy: &P) -> (r: String)
    ensures
        r@ == req_redact(*policy, key@, value@),
{
    match policy.redact_value(Some(key), value) {
        Some(x) => x,
        None => redacted_mark_text(),
    }
}

fn redact_item<P: RedactPolicy>(key: &str, value: &str, policy: &P) -> (r: Option<String>)
    ensures
        ostr(r) == item_redact(*policy, key@, value@),
{
    let kept = policy.redact_value(Some(key), value);
    if policy.redact_key(key) {
        match kept {
            Some(x) => Some(x),
            None => Some(redacted_mark_text()),
        }
    } else {
        kept
    }
}

fn redact_items<P: RedactPolicy>(items: &Vec<(String, String)>, policy: &P) -> (r: Vec<
    (String, String),
>)
    ensures
        crate::text::pairs(r@) == items_redact(*policy, crate::text::pairs(items@)),
{
    let ghost s = crate::text::pairs(items@);
    let mut r: Vec<(String, String)> = Vec::new();
    let mut i: usize = 0;
    assert(crate::text::pairs(r@) =~= items_redact(*policy, s.subrange(0, 0)));
    while i < items.len()
        invariant
            i <= items.len(),
            s == crate::text::pairs(items@),
            crate::text::pairs(r@) == items_redact(*policy, s.subrange(0, i as int)),
        decreases items.len() - i,
    {
        proof {
            let t = s.subrange(0, i + 1);
            assert(t.drop_last() =~= s.subrange(0, i as int));
            assert(t.last() == (items@[i as int].0@, items@[i as int].1@));
        }
        let kept = redact_item(items[i].0.as_str(), items[i].1.as_str(), policy);
        match kept {
            Some(x) => {
                let ghost before = r@;
                let ghost xv = x@;
                r.push((items[i].0.clone(), x));
                assert(crate::text::pairs(r@) =~= crate::text::pairs(before).push(
                    (items@[i as int].0@, xv),
                ));
            },
            None => {},
        }
        i += 1;
    }
    assert(s.subrange(0, items.len() as int) =~= s);
    r
}

proof fn lemma_meta_redact_keys<P: RedactPolicy>(p: P, s: Seq<(Seq<char>, MetaView)>)
    ensures
        meta_redact(p, s).len() <= s.len(),
        meta_redact(p, s).len() > 0 ==> exists|j: int|
            0 <= j < s.len() && #[trigger] s[j].0 == meta_redact(p, s).last().0,
    decreases s.len(),
{
    if s.len() > 0 {
        lemma_meta_redact_keys(p, s.drop_last());
        let rest = meta_redact(p, s.drop_last());
        if rest.len() > 0 && meta_entry_redact(p, s.last().0, s.last().1) is None {
            let j = choose|j: int| 0 <= j < s.drop_last().len() && #[trigger] s.drop_last()[j].0
                == rest.last().0;
            assert(s[j].0 == meta_redact(p, s).last().0);
        }
        if meta_entry_redact(p, s.last().0, s.last().1) is Some {
            assert(s[s.len() - 1].0 == meta_redact(p, s).last().0);
        }
    }
}

/// Redaction keeps no key that was not there: keys below a bound stay below
/// it.
proof fn lemma_redact_below<P: RedactPolicy>(p: P, s: Seq<(Seq<char>, MetaView)>, b: Seq<char>)
    requires
        forall|j: int| 0 <= j < s.len() ==> text_lt(#[trigger] s[j].0, b),
    ensures
        forall|i: int|
            0 <= i < meta_redact(p, s).len() ==> text_lt(#[trigger] meta_redact(p, s)[i].0, b),
    decreases s.len(),
{
    if s.len() > 0 {
        let t = s.drop_last();
        assert forall|j: int| 0 <= j < t.len() implies text_lt(#[trigger] t[j].0, b) by {
            assert(t[j] == s[j]);
        }
        lemma_redact_below(p, t, b);
        let rt = meta_redact(p, t);
        let r = meta_redact(p, s);
        assert forall|i: int| 0 <= i < r.len() implies text_lt(#[trigger] r[i].0, b) by {
            if i < rt.len() {
                assert(r[i] == rt[i]);
            } else {
                assert(r[i].0 == s[s.len() - 1].0);
            }
        }
    }
}

/// Redaction of sorted entries read at one key (see
/// [`law_redact_metadata_by_key`]).
proof fn lemma_redact_get<P: RedactPolicy>(p: P, s: Seq<(Seq<char>, MetaView)>, k: Seq<char>)
    requires
        crate::metadata::keys_sorted(s),
    ensures
        crate::metadata::keys_sorted(meta_redact(p, s)),
        crate::metadata::meta_get(meta_redact(p, s), k) == match crate::metadata::meta_get(s, k) {
            Some(v) => meta_entry_redact(p, k, v),
            None => None,
        },
    decreases s.len(),
{
    if s.len() > 0 {
        let t = s.drop_last();
        let e = s.last();
        let n = t.len() as int;
        assert(s =~= t.push(e));
        assert(crate::metadata::keys_sorted(t)) by {
            assert forall|i: int, j: int| 0 <= i < j < t.len() implies text_lt(
                #[trigger] t[i].0,
                #[trigger] t[j].0,
            ) by {
                assert(t[i] == s[i] && t[j] == s[j]);
            }
        }
        assert forall|j: int| 0 <= j < t.len() implies text_lt(#[trigger] t[j].0, e.0) by {
            assert(t[j] == s[j] && e == s[n]);
        }
        crate::metadata::lemma_meta_push_above(t, e, k);
        lemma_redact_get(p, t, k);
        if k == e.0 {
            crate::text::lemma_text_lt_irreflexive(k);
            crate::metadata::lemma_meta_get_absent(t, k);
        }
        lemma_redact_below(p, t, e.0);
        let rt = meta_redact(p, t);
        match meta_entry_redact(p, e.0, e.1) {
            Some(x) => {
                crate::metadata::lemma_meta_push_above(rt, (e.0, x), k);
            },
            None => {},
        }
    }
}

/// Redaction read key by key: a key reads, after redaction, what redaction
/// makes of the value it had (text values through the policy, other values
/// dropped under a sensitive key), and nothing when it had no value.
pub proof fn law_redact_metadata_by_key<P: RedactPolicy>(m: ErrorMetadata, p: P, k: Seq<char>)
    requires
        crate::metadata::keys_sorted(m.entries()),
    ensures
        crate::metadata::keys_sorted(meta_redact(p, m.entries())),
        crate::metadata::meta_get(meta_redact(p, m.entries()), k) == match crate::metadata::meta_get(
            m.entries(),
            k,
        ) {
            Some(v) => meta_entry_redact(p, k, v),
            None => None,
        },
{
    lemma_redact_get(p, m.entries(), k);
}

/// Redacts metadata: text values as fields, other values kept unless their
/// key is sensitive.
pub fn redact_metadata<P: RedactPolicy>(metadata: &ErrorMetadata, policy: &P) -> (r: ErrorMetadata)
    ensures
        r.entries() == meta_redact(*policy, metadata.entries()),
{
    metadata.sorted();
    let fields = metadata.iter();
    let ghost s = metadata.entries();
    let mut r = ErrorMetadata::new();
    let mut i: usize = 0;
    assert(r.entries() =~= meta_redact(*policy, s.subrange(0, 0)));
    while i < fields.len()
        invariant
            i <= fields.len(),
            s == metadata.entries(),
            crate::metadata::entry_views(fields@) == s,
            crate::metadata::keys_sorted(s),
            r.entries() == meta_redact(*policy, s.subrange(0, i as int)),
        decreases fields.len() - i,
    {
        let ghost pre = s.subrange(0, i as int);
        proof {
            let t = s.subrange(0, i + 1);
            assert(t.drop_last() =~= pre);
            assert(t.last() == s[i as int]);
            assert(s[i as int] == (fields@[i as int].0@, fields@[i as int].1@));
            lemma_meta_redact_keys(*policy, pre);
            if r.entries().len() > 0 {
                let j = choose|j: int| 0 <= j < pre.len() && #[trigger] pre[j].0 == r.entries().last().0;
                assert(pre[j] == s[j]);
                assert(text_lt(s[j].0, s[i as int].0));
            }
        }
        assert(r.entries().len() > 0 ==> text_lt(r.entries().last().0, fields@[i as int].0@));
        let key = &fields[i].0;
        match &fields[i].1 {
            MetadataValue::String(x) => {
                let kept = redact_item(key.as_str(), x.as_str(), policy);
                match kept {
                    Some(y) => {
                        r.push_last(key.clone(), MetadataValue::String(y));
                    },
                    None => {},
                }
            },
            MetadataValue::Bool(b) => {
                if !policy.redact_key(key.as_str()) {
                    r.push_last(key.clone(), MetadataValue::Bool(*b));
                }
            },
            MetadataValue::I64(n) => {
                if !policy.redact_key(key.as_str()) {
                    r.push_last(key.clone(), MetadataValue::I64(*n));
                }
            },
            MetadataValue::U64(n) => {
                if !policy.redact_key(key.as_str()) {
                    r.push_last(key.clone(), MetadataValue::U64(*n));
                }
            },
        }
        i += 1;
    }
    assert(s.subrange(0, fields.len() as int) =~= s);
    r
}

fn redact_segments<P: RedactPolicy>(path: &[String], policy: &P) -> (r: Vec<String>)
    ensures
        strs(r@) == segments_redact(*policy, strs(path@)),
{
    let ghost s = strs(path@);
    let mut r: Vec<String> = Vec::new();
    let mut i: usize = 0;
    assert(strs(r@) =~= segments_redact(*policy, s.subrange(0, 0)));
    while i < path.len()
        invariant
            i <= path.len(),
            s == strs(path@),
            strs(r@) == segments_redact(*policy, s.subrange(0, i as int)),
        decreases path.len() - i,
    {
        proof {
            let t = s.subrange(0, i + 1);
            assert(t.drop_last() =~= s.subrange(0, i as int));
        }
        match policy.redact_value(Some("path"), path[i].as_str()) {
            Some(x) => {
                let ghost before = r@;
                r.push(x);
                assert(strs(r@) =~= strs(before).push(r@.last()@));
            },
            None => {},
        }
        i += 1;
    }
    assert(s.subrange(0, path.len() as int) =~= s);
    r
}

/// Redacts a context (see [`context_redact`]).
pub fn redact_context<P: RedactPolicy>(ctx: &OperationContext, policy: &P) -> (r: OperationContext)
    ensures
        r@ == context_redact(*policy, ctx@),
{
    let items = redact_items(&ctx.context.items, policy);
    let target = ctx.compat_target();
    let want = redact_optional_text("want", &target, policy);
    let action = redact_optional_text("action", ctx.action(), policy);
    let locator = redact_optional_text("locator", ctx.locator(), policy);
    let path = redact_segments(ctx.path(), policy);
    let metadata = redact_metadata(ctx.metadata(), policy);
    OperationContext::from_projection_parts(
        want,
        action,
        locator,
        path,
        items,
        metadata,
        ctx.result,
    )
}

fn redact_opt_smol<P: RedactPolicy>(key: &str, value: &Option<smol_str::SmolStr>, policy: &P) -> (r:
    Option<smol_str::SmolStr>)
    ensures
        osmol(r) == opt_redact(*policy, key@, osmol(*value)),
{
    match value {
        Some(v) => match policy.redact_value(Some(key), smol_as_str(v)) {
            Some(x) => Some(smol_new(x.as_str())),
            None => None,
        },
        None => None,
    }
}

/// Redacts a source frame (see [`frame_redact`]).
pub fn redact_frame<P: RedactPolicy>(frame: &SourceFrame, policy: &P) -> (r: SourceFrame)
    ensures
        r@ == frame_redact(*policy, frame@),
{
    let message = redact_required_text("source.message", smol_as_str(&frame.message), policy);
    let debug = match &frame.debug {
        Some(d) => {
            let x = redact_required_text("source.debug", smol_as_str(d), policy);
            Some(smol_new(x.as_str()))
        },
        None => None,
    };
    let mut f = frame.clone();
    f.message = smol_new(message.as_str());
    f.display = redact_opt_smol("source.display", &frame.display, policy);
    f.debug = debug;
    f.detail = redact_opt_smol("detail", &frame.detail, policy);
    f.reason = redact_opt_smol("source.reason", &frame.reason, policy);
    f.path = redact_opt_smol("path", &frame.path, policy);
    f.metadata = redact_metadata(&frame.metadata, policy);
    f
}


/// A human-readable diagnostic report: reason, detail, position and the
/// context stack.
#[derive(Debug, PartialEq)]
pub struct DiagnosticReport {
    reason: String,
    detail: Option<String>,
    position: Option<String>,
    context: Vec<OperationContext>,
}

/// The observable content of a report.
#[verifier::ext_equal]
pub struct ReportView {
    pub reason: Seq<char>,
    pub detail: Option<Seq<char>>,
    pub position: Option<Seq<char>>,
    pub context: Seq<ContextView>,
}

impl View for DiagnosticReport {
    type V = ReportView;

    closed spec fn view(&self) -> ReportView {
        ReportView {
            reason: self.reason@,
            detail: ostr(self.detail),
            position: ostr(self.position),
            context: ctx_views(self.context@),
        }
    }
}

/// The report of an error: its reason's message, detail, position and
/// contexts.
pub open spec fn report_of<T: DomainReason>(e: ErrorView<T>) -> ReportView {
    ReportView {
        reason: e.reason.spec_message(),
        detail: e.detail,
        position: e.position,
        context: e.context,
    }
}

/// One rendered line per context: `  [i] ` and the context's display text
/// without trailing whitespace.
pub open spec fn context_lines(cs: Seq<ContextView>) -> Seq<Seq<char>> {
    Seq::new(
        cs.len(),
        |i: int| "  ["@ + crate::text::decimal(i as nat) + "] "@ + trim_end(context_display(cs[i])),
    )
}

/// The rendered lines of a report.
pub open spec fn report_lines(v: ReportView) -> Seq<Seq<char>> {
    seq!["reason: "@ + v.reason] + (if v.detail is Some {
        seq!["detail: "@ + v.detail->0]
    } else {
        Seq::empty()
    }) + (if v.position is Some {
        seq!["position: "@ + v.position->0]
    } else {
        Seq::empty()
    }) + (if v.context.len() > 0 {
        seq!["context:"@] + context_lines(v.context)
    } else {
        Seq::empty()
    })
}

/// A report rendered as text: its lines joined with newlines.
pub open spec fn render_text(v: ReportView) -> Seq<char> {
    spec_join(report_lines(v), "\n"@)
}

/// A one-line summary: the reason, then `: ` and the detail when present.
pub open spec fn summary_text(v: ReportView) -> Seq<char> {
    if v.detail is Some {
        v.reason + ": "@ + v.detail->0
    } else {
        v.reason
    }
}

/// A report after redaction.
pub open spec fn report_redact<P: RedactPolicy>(p: P, v: ReportView) -> ReportView {
    ReportView {
        reason: req_redact(p, "reason"@, v.reason),
        detail: opt_redact(p, "detail"@, v.detail),
        position: opt_redact(p, "position"@, v.position),
        context: v.context.map_values(|c: ContextView| context_redact(p, c)),
    }
}

impl Clone for DiagnosticReport {
    fn clone(&self) -> (r: Self)
        ensures
            r@ == self@,
    {
        DiagnosticReport {
            reason: self.reason.clone(),
            detail: clone_opt(&self.detail),
            position: clone_opt(&self.position),
            context: crate::error::clone_contexts(&self.context),
        }
    }
}

impl DiagnosticReport {
    /// The reason text.
    pub fn reason(&self) -> (r: &str)
        ensures
            r@ == self@.reason,
    {
        self.reason.as_str()
    }

    /// The detail, if any.
    pub fn detail(&self) -> (r: Option<&str>)
        ensures
            okey(r) == self@.detail,
    {
        match &self.detail {
            Some(d) => Some(d.as_str()),
            None => None,
        }
    }

    /// The position, if any.
    pub fn position(&self) -> (r: Option<&str>)
        ensures
            okey(r) == self@.position,
    {
        match &self.position {
            Some(d) => Some(d.as_str()),
            None => None,
        }
    }

    /// The contexts, innermost first.
    pub fn context(&self) -> (r: &[OperationContext])
        ensures
            ctx_views(r@) == self@.context,
    {
        self.context.as_slice()
    }

    /// A report with the given parts.
    pub fn from_parts(
        reason: String,
        detail: Option<String>,
        position: Option<String>,
        context: Vec<OperationContext>,
    ) -> (r: Self)
        ensures
            r@ == (ReportView {
                reason: reason@,
                detail: ostr(detail),
                position: ostr(position),
                context: ctx_views(context@),
            }),
    {
        DiagnosticReport { reason, detail, position, context }
    }

    /// Render as text (see [`render_text`]).
    pub fn render(&self) -> (r: String)
        ensures
            r@ == render_text(self@),
    {
        let mut lines: Vec<String> = Vec::new();
        let mut first = owned("reason: ");
        first.append(self.reason.as_str());
        lines.push(first);
        match &self.detail {
            Some(d) => {
                let mut l = owned("detail: ");
                l.append(d.as_str());
                lines.push(l);
            },
            None => {},
        }
        match &self.position {
            Some(d) => {
                let mut l = owned("position: ");
                l.append(d.as_str());
                lines.push(l);
            },
            None => {},
        }
        let ghost head = strs(lines@);
        if self.context.len() > 0 {
            lines.push(owned("context:"));
            let ghost start = strs(lines@);
            let ghost cl = context_lines(self@.context);
            let mut i: usize = 0;
            while i < self.context.len()
                invariant
                    i <= self.context.len(),
                    cl == context_lines(self@.context),
                    strs(lines@) == start + cl.subrange(0, i as int),
                decreases self.context.len() - i,
            {
                let mut l = owned("  [");
                let n = crate::text::u64_text(i as u64);
                l.append(n.as_str());
                l.append("] ");
                let d = self.context[i].to_string();
                let t = trim_end_text(d.as_str());
                l.append(t.as_str());
                let ghost before = strs(lines@);
                assert(l@ == cl[i as int]);
                lines.push(l);
                assert(strs(lines@) =~= before.push(cl[i as int]));
                assert(cl.subrange(0, i + 1) =~= cl.subrange(0, i as int).push(cl[i as int]));
                i += 1;
            }
            assert(cl.subrange(0, self.context.len() as int) =~= cl);
        }
        assert(strs(lines@) =~= report_lines(self@));
        join(&lines, "\n")
    }

    /// A redacted copy (see [`report_redact`]).
    pub fn redacted<P: RedactPolicy>(&self, policy: &P) -> (r: Self)
        ensures
            r@ == report_redact(*policy, self@),
    {
        let mut context: Vec<OperationContext> = Vec::new();
        let mut i: usize = 0;
        while i < self.context.len()
            invariant
                i <= self.context.len(),
                context@.len() == i,
                forall|j: int| 0 <= j < i ==> #[trigger] context@[j]@ == context_redact(
                    *policy,
                    self.context@[j]@,
                ),
            decreases self.context.len() - i,
        {
            context.push(redact_context(&self.context[i], policy));
            i += 1;
        }
        let r = DiagnosticReport {
            reason: redact_required_text("reason", self.reason.as_str(), policy),
            detail: redact_optional_text("detail", &self.detail, policy),
            position: redact_optional_text("position", &self.position, policy),
            context,
        };
        assert(r@.context =~= self@.context.map_values(|c: ContextView| context_redact(*policy, c)));
        r
    }

    /// Render after redaction.
    pub fn render_redacted<P: RedactPolicy>(&self, policy: &P) -> (r: String)
        ensures
            r@ == render_text(report_redact(*policy, self@)),
    {
        self.redacted(policy).render()
    }

    /// A one-line summary (see [`summary_text`]).
    pub fn render_summary(&self) -> (r: String)
        ensures
            r@ == summary_text(self@),
    {
        let mut out = self.reason.clone();
        match &self.detail {
            Some(d) => {
                out.append(": ");
                out.append(d.as_str());
            },
            None => {},
        }
        out
    }
}

impl<T: DomainReason> StructError<T> {
    /// The diagnostic report of this error (see [`report_of`]).
    pub fn report(&self) -> (r: DiagnosticReport)
        ensures
            r@ == report_of(self@),
    {
        DiagnosticReport::from_parts(
            self.reason().message(),
            clone_opt(self.detail()),
            clone_opt(self.position()),
            crate::error::clone_contexts_of(self),
        )
    }

    /// The diagnostic report, consuming the error.
    pub fn into_report(self) -> (r: DiagnosticReport)
        ensures
            r@ == report_of(self@),
    {
        self.report()
    }

    /// The redacted diagnostic report.
    pub fn report_redacted<P: RedactPolicy>(&self, policy: &P) -> (r: DiagnosticReport)
        ensures
            r@ == report_redact(*policy, report_of(self@)),
    {
        self.report().redacted(policy)
    }

    /// The report rendered as text.
    pub fn render(&self) -> (r: String)
        ensures
            r@ == render_text(report_of(self@)),
    {
        self.report().render()
    }

    /// The redacted report rendered as text.
    pub fn render_redacted<P: RedactPolicy>(&self, policy: &P) -> (r: String)
        ensures
            r@ == render_text(report_redact(*policy, report_of(self@))),
    {
        self.report().render_redacted(policy)
    }
}

impl<'a, T: DomainReason> From<&'a StructError<T>> for DiagnosticReport {
    fn from(value: &'a StructError<T>) -> (r: Self)
        ensures
            r@ == report_of(value@),
    {
        value.report()
    }
}

impl<'a, T: DomainReason> vstd::std_specs::convert::FromSpecImpl<&'a StructError<T>> for DiagnosticReport {
    open spec fn obeys_from_spec() -> bool {
        false
    }

    open spec fn from_spec(v: &'a StructError<T>) -> Self {
        choose|r: Self| #[trigger] r.view() == report_of(v@)
    }
}

impl<T: DomainReason> From<StructError<T>> for DiagnosticReport {
    fn from(value: StructError<T>) -> (r: Self)
        ensures
            r@ == report_of(value@),
    {
        value.into_report()
    }
}

impl<T: DomainReason> vstd::std_specs::convert::FromSpecImpl<StructError<T>> for DiagnosticReport {
    open spec fn obeys_from_spec() -> bool {
        false
    }

    open spec fn from_spec(v: StructError<T>) -> Self {
        choose|r: Self| #[trigger] r.view() == report_of(v@)
    }
}


/// A policy that keeps every value and marks no key as sensitive.
pub open spec fn keeps_everything<P: RedactPolicy>(p: P) -> bool {
    &&& forall|k: Seq<char>| !#[trigger] p.hides_key(k)
    &&& forall|k: Option<Seq<char>>, v: Seq<char>| #[trigger] p.value_for(k, v) == Some(v)
}

/// The keys of the fields that redaction keeps, in order.
pub open spec fn kept_keys<P: RedactPolicy>(p: P, s: Seq<(Seq<char>, Seq<char>)>) -> Seq<Seq<char>>
    decreases s.len(),
{
    if s.len() == 0 {
        Seq::empty()
    } else if item_redact(p, s.last().0, s.last().1) is Some {
        kept_keys(p, s.drop_last()).push(s.last().0)
    } else {
        kept_keys(p, s.drop_last())
    }
}

/// Redacting fields keeps their order and never adds one: the remaining
/// keys are the given keys whose values the policy (or, for a sensitive
/// key, the redaction mark) keeps, in the given order; when every field is
/// kept, each keeps its key and takes the value the policy gives.
pub proof fn law_redaction_keeps_field_order<P: RedactPolicy>(p: P, s: Seq<(Seq<char>, Seq<char>)>)
    ensures
        items_redact(p, s).len() <= s.len(),
        items_redact(p, s).map_values(|x: (Seq<char>, Seq<char>)| x.0) == kept_keys(p, s),
        items_redact(p, s).len() == s.len() ==> forall|i: int|
            0 <= i < s.len() ==> (#[trigger] items_redact(p, s)[i]).0 == s[i].0 && Some(
                items_redact(p, s)[i].1,
            ) == item_redact(p, s[i].0, s[i].1),
    decreases s.len(),
{
    if s.len() > 0 {
        law_redaction_keeps_field_order(p, s.drop_last());
        let rest = items_redact(p, s.drop_last());
        if item_redact(p, s.last().0, s.last().1) is Some {
            assert(items_redact(p, s).map_values(|x: (Seq<char>, Seq<char>)| x.0) =~= rest.map_values(
                |x: (Seq<char>, Seq<char>)| x.0,
            ).push(s.last().0));
        }
        if items_redact(p, s).len() == s.len() {
            assert(item_redact(p, s.last().0, s.last().1) is Some);
            assert(rest.len() == s.len() - 1);
            assert forall|i: int| 0 <= i < s.len() implies (#[trigger] items_redact(p, s)[i]).0
                == s[i].0 && Some(items_redact(p, s)[i].1) == item_redact(p, s[i].0, s[i].1) by {
                if i < s.len() - 1 {
                    assert(items_redact(p, s)[i] == rest[i]);
                    assert(s.drop_last()[i] == s[i]);
                }
            }
        }
    } else {
        assert(items_redact(p, s).map_values(|x: (Seq<char>, Seq<char>)| x.0) =~= Seq::<
            Seq<char>,
        >::empty());
    }
}

/// A policy that keeps everything changes no field, no metadata entry and
/// no path segment.
pub proof fn law_keeping_policy_changes_nothing<P: RedactPolicy>(
    p: P,
    items: Seq<(Seq<char>, Seq<char>)>,
    meta: Seq<(Seq<char>, MetaView)>,
    path: Seq<Seq<char>>,
)
    requires
        keeps_everything(p),
    ensures
        items_redact(p, items) == items,
        meta_redact(p, meta) == meta,
        segments_redact(p, path) == path,
    decreases items.len() + meta.len() + path.len(),
{
    if items.len() > 0 {
        law_keeping_policy_changes_nothing(p, items.drop_last(), meta, path);
        assert(p.value_for(Some(items.last().0), items.last().1) == Some(items.last().1));
        assert(items.drop_last().push(items.last()) =~= items);
    }
    if meta.len() > 0 {
        law_keeping_policy_changes_nothing(p, Seq::empty(), meta.drop_last(), path);
        let (k, v) = meta.last();
        assert(!p.hides_key(k));
        match v {
            MetaView::Str(x) => {
                assert(p.value_for(Some(k), x) == Some(x));
            },
            _ => {},
        }
        assert(meta.drop_last().push(meta.last()) =~= meta);
    }
    if path.len() > 0 {
        law_keeping_policy_changes_nothing(p, Seq::empty(), Seq::empty(), path.drop_last());
        assert(p.value_for(Some("path"@), path.last()) == Some(path.last()));
        assert(path.drop_last().push(path.last()) =~= path);
    }
}

/// A rendered report lists, in order, the reason, the detail when there is
/// one, then the position when there is one, each on its own line, before
/// any context block; with neither detail nor contexts, a report with a
/// position renders as exactly the reason line and the position line.
pub proof fn law_render_lists_reason_detail_position(v: ReportView)
    ensures
        ("reason: "@ + v.reason).is_prefix_of(render_text(v)),
        v.detail is None && v.position is Some ==> ("reason: "@ + v.reason + "\nposition: "@
            + v.position->0).is_prefix_of(render_text(v)),
        v.detail is Some && v.position is Some ==> ("reason: "@ + v.reason + "\ndetail: "@
            + v.detail->0 + "\nposition: "@ + v.position->0).is_prefix_of(render_text(v)),
        v.detail is None && v.position is Some && v.context.len() == 0 ==> render_text(v) == "reason: "@
            + v.reason + "\nposition: "@ + v.position->0,
        v.detail is None && v.position is None && v.context.len() == 0 ==> render_text(v)
            == "reason: "@ + v.reason,
{
    reveal_strlit("\n");
    reveal_strlit("position: ");
    reveal_strlit("\nposition: ");
    reveal_strlit("detail: ");
    reveal_strlit("\ndetail: ");
    let nl = "\n"@;
    let r0 = "reason: "@ + v.reason;
    let det: Seq<Seq<char>> = if v.detail is Some {
        seq!["detail: "@ + v.detail->0]
    } else {
        Seq::empty()
    };
    let pos: Seq<Seq<char>> = if v.position is Some {
        seq!["position: "@ + v.position->0]
    } else {
        Seq::empty()
    };
    let ctx: Seq<Seq<char>> = if v.context.len() > 0 {
        seq!["context:"@] + context_lines(v.context)
    } else {
        Seq::empty()
    };
    let rest = det + pos + ctx;
    assert(report_lines(v) =~= seq![r0] + rest);
    crate::text::lemma_join_front(r0, rest, nl);
    let t = render_text(v);
    if rest.len() == 0 {
        assert(t == r0);
        assert(r0 =~= t.subrange(0, r0.len() as int));
    } else {
        assert(t == r0 + nl + spec_join(rest, nl));
        assert(r0 =~= t.subrange(0, r0.len() as int));
        if v.position is Some {
            let p = "position: "@ + v.position->0;
            if v.detail is None {
                assert(rest =~= seq![p] + ctx);
                crate::text::lemma_join_front(p, ctx, nl);
                let pre = r0 + nl + p;
                assert(t =~= pre + (if ctx.len() == 0 { Seq::<char>::empty() } else { nl + spec_join(ctx, nl) }));
                assert(pre =~= t.subrange(0, pre.len() as int));
                assert(r0 + nl + p =~= "reason: "@ + v.reason + "\nposition: "@ + v.position->0);
            } else {
                let d = "detail: "@ + v.detail->0;
                assert(rest =~= seq![d] + (seq![p] + ctx));
                crate::text::lemma_join_front(d, seq![p] + ctx, nl);
                crate::text::lemma_join_front(p, ctx, nl);
                let pre = r0 + nl + d + nl + p;
                assert(t =~= pre + (if ctx.len() == 0 { Seq::<char>::empty() } else { nl + spec_join(ctx, nl) }));
                assert(pre =~= t.subrange(0, pre.len() as int));
                assert(pre =~= "reason: "@ + v.reason + "\ndetail: "@ + v.detail->0 + "\nposition: "@
                    + v.position->0);
            }
        }
    }
}

} // verus!
