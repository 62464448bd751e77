//! The runtime error carrier: a domain reason with detail, position, the
//! stack of operation contexts it passed through, and its source.
use vstd::prelude::*;

use crate::context::{
    compat_target, context_display, normalized_path, ContextAdd, ContextView, IntoContext,
    OperationContext,
};
use crate::metadata::{keys_sorted, meta_get, meta_merge_missing, ErrorMetadata, MetaView};
use crate::reason::{DomainReason, ErrorCategory, ErrorIdentityProvider};
use crate::source::{
    frame_views, indexed, smol_new, smol_opt, smol_pairs, smol_text, FrameView, PayloadView,
    SourceFrame, SourcePayload, SourcePayloadKind, SourcePayloadRef, StdSource,
};
use vstd::std_specs::cmp::{PartialEqSpec, PartialEqSpecImpl};

use crate::text::{clone_opt, decimal, join, lines, ostr, spec_join, split_lines, strs, u64_text};

verus! {

/// The views of a sequence of contexts.
pub open spec fn ctx_views(v: Seq<OperationContext>) -> Seq<ContextView> {
    v.map_values(|c: OperationContext| c@)
}

/// The observable content of a structured error.
#[verifier::ext_equal]
pub struct ErrorView<T> {
    pub reason: T,
    pub detail: Option<Seq<char>>,
    pub position: Option<Seq<char>>,
    pub context: Seq<ContextView>,
    pub source: Option<PayloadView>,
}

/// The runtime error carrier.
#[derive(Debug)]
pub struct StructError<T: DomainReason> {
    reason: T,
    detail: Option<String>,
    position: Option<String>,
    context: Vec<OperationContext>,
    source: Option<SourcePayload>,
}

/// The view of an optional payload.
pub open spec fn opt_payload(o: Option<SourcePayload>) -> Option<PayloadView> {
    match o {
        Some(p) => Some(p@),
        None => None,
    }
}

impl<T: DomainReason> View for StructError<T> {
    type V = ErrorView<T>;

    closed spec fn view(&self) -> ErrorView<T> {
        ErrorView {
            reason: self.reason,
            detail: ostr(self.detail),
            position: ostr(self.position),
            context: ctx_views(self.context@),
            source: opt_payload(self.source),
        }
    }
}

/// A path with `s` appended unless it already ends with `s`.
pub open spec fn push_dedup(acc: Seq<Seq<char>>, s: Seq<char>) -> Seq<Seq<char>> {
    if acc.len() > 0 && acc.last() == s {
        acc
    } else {
        acc.push(s)
    }
}

/// A path with each segment appended in order, skipping repeats of the last.
pub open spec fn push_all_dedup(acc: Seq<Seq<char>>, segs: Seq<Seq<char>>) -> Seq<Seq<char>>
    decreases segs.len(),
{
    if segs.len() == 0 {
        acc
    } else {
        push_dedup(push_all_dedup(acc, segs.drop_last()), segs.last())
    }
}

/// The segments in reverse order.
pub open spec fn rev(s: Seq<Seq<char>>) -> Seq<Seq<char>> {
    Seq::new(s.len(), |i: int| s[s.len() - 1 - i])
}

/// A context that only names a location: no action, no target, a locator,
/// and at most one path segment.
pub open spec fn locator_only(c: ContextView) -> bool {
    c.action is None && compat_target(c) is None && c.locator is Some && c.path.len() <= 1
}

/// One step of the error path walk (from the outermost context inward):
/// locator-only contexts are held back; any other context contributes its
/// normalized path, followed by the held-back locators (innermost first).
pub open spec fn path_step(
    state: (Seq<Seq<char>>, Seq<Seq<char>>),
    c: ContextView,
) -> (Seq<Seq<char>>, Seq<Seq<char>>) {
    if locator_only(c) {
        (state.0, state.1.push(c.locator->0))
    } else {
        (push_all_dedup(state.0, push_all_dedup(normalized_path(c), rev(state.1))), Seq::empty())
    }
}

/// The walk state after the contexts from position `k` on, taken last first.
pub open spec fn path_walk(ctxs: Seq<ContextView>, k: int) -> (Seq<Seq<char>>, Seq<Seq<char>>)
    decreases ctxs.len() - k,
{
    if k < 0 || k >= ctxs.len() {
        (Seq::empty(), Seq::empty())
    } else {
        path_step(path_walk(ctxs, k + 1), ctxs[k])
    }
}

/// The operation path of an error across its whole context stack.
pub open spec fn error_path(ctxs: Seq<ContextView>) -> Seq<Seq<char>> {
    let st = path_walk(ctxs, 0);
    push_all_dedup(st.0, rev(st.1))
}

/// The action of the outermost context that has one.
pub open spec fn last_action(ctxs: Seq<ContextView>) -> Option<Seq<char>>
    decreases ctxs.len(),
{
    if ctxs.len() == 0 {
        None
    } else if ctxs.last().action is Some {
        ctxs.last().action
    } else {
        last_action(ctxs.drop_last())
    }
}

/// The target of the outermost context that has one (see [`compat_target`]).
pub open spec fn last_target(ctxs: Seq<ContextView>) -> Option<Seq<char>>
    decreases ctxs.len(),
{
    if ctxs.len() == 0 {
        None
    } else if compat_target(ctxs.last()) is Some {
        compat_target(ctxs.last())
    } else {
        last_target(ctxs.drop_last())
    }
}

/// The target of the outermost context that has one (see [`last_target`]).
pub fn last_target_of(ctxs: &[OperationContext]) -> (r: Option<String>)
    ensures
        ostr(r) == last_target(ctx_views(ctxs@)),
{
    let ghost all = ctx_views(ctxs@);
    let mut i = ctxs.len();
    assert(all.subrange(0, i as int) =~= all);
    while i > 0
        invariant
            i <= ctxs.len(),
            all == ctx_views(ctxs@),
            last_target(all) == last_target(all.subrange(0, i as int)),
        decreases i,
    {
        let ghost t = all.subrange(0, i as int);
        assert(t.last() == ctxs@[i - 1]@);
        assert(t.drop_last() =~= all.subrange(0, i - 1));
        let target = ctxs[i - 1].compat_target();
        if target.is_some() {
            return target;
        }
        i -= 1;
    }
    None
}

/// The locator of the outermost context that has one.
pub open spec fn last_locator(ctxs: Seq<ContextView>) -> Option<Seq<char>>
    decreases ctxs.len(),
{
    if ctxs.len() == 0 {
        None
    } else if ctxs.last().locator is Some {
        ctxs.last().locator
    } else {
        last_locator(ctxs.drop_last())
    }
}

/// The metadata of all contexts merged, the innermost value of a key winning.
pub open spec fn merged_metadata(ctxs: Seq<ContextView>) -> Seq<(Seq<char>, MetaView)>
    decreases ctxs.len(),
{
    if ctxs.len() == 0 {
        Seq::empty()
    } else {
        meta_merge_missing(merged_metadata(ctxs.drop_last()), ctxs.last().metadata)
    }
}

fn push_dedup_exec(acc: &mut Vec<String>, s: &String)
    ensures
        strs(final(acc)@) == push_dedup(strs(old(acc)@), s@),
{
    let n = acc.len();
    let same = n > 0 && acc[n - 1] == *s;
    if !same {
        let ghost before = strs(acc@);
        acc.push(s.clone());
        assert(strs(acc@) =~= before.push(s@));
    }
}

fn push_all_dedup_exec(acc: &mut Vec<String>, segs: &Vec<String>)
    ensures
        strs(final(acc)@) == push_all_dedup(strs(old(acc)@), strs(segs@)),
{
    let ghost start = strs(acc@);
    let mut i: usize = 0;
    while i < segs.len()
        invariant
            i <= segs.len(),
            strs(acc@) == push_all_dedup(start, strs(segs@).subrange(0, i as int)),
        decreases segs.len() - i,
    {
        proof {
            let t = strs(segs@).subrange(0, i + 1);
            assert(t.drop_last() =~= strs(segs@).subrange(0, i as int));
        }
        push_dedup_exec(acc, &segs[i]);
        i += 1;
    }
    assert(strs(segs@).subrange(0, segs.len() as int) =~= strs(segs@));
}

fn push_rev_dedup_exec(acc: &mut Vec<String>, pend: &Vec<String>)
    ensures
        strs(final(acc)@) == push_all_dedup(strs(old(acc)@), rev(strs(pend@))),
{
    let ghost start = strs(acc@);
    let ghost r = rev(strs(pend@));
    let n = pend.len();
    let mut i: usize = 0;
    while i < n
        invariant
            n == pend.len(),
            i <= n,
            r == rev(strs(pend@)),
            strs(acc@) == push_all_dedup(start, r.subrange(0, i as int)),
        decreases n - i,
    {
        proof {
            let t = r.subrange(0, i + 1);
            assert(t.drop_last() =~= r.subrange(0, i as int));
            assert(t.last() == pend@[n - 1 - i]@);
        }
        push_dedup_exec(acc, &pend[n - 1 - i]);
        i += 1;
    }
    assert(r.subrange(0, n as int) =~= r);
}

impl<T: DomainReason> StructError<T> {
    /// The domain reason.
    pub fn reason(&self) -> (r: &T)
        ensures
            *r == self@.reason,
    {
        &self.reason
    }

    /// The detail message.
    pub fn detail(&self) -> (r: &Option<String>)
        ensures
            ostr(*r) == self@.detail,
    {
        &self.detail
    }

    /// The position (e.g. `file:line`).
    pub fn position(&self) -> (r: &Option<String>)
        ensures
            ostr(*r) == self@.position,
    {
        &self.position
    }

    /// An error with the given parts and no source.
    pub fn new(
        reason: T,
        detail: Option<String>,
        position: Option<String>,
        context: Vec<OperationContext>,
    ) -> (r: Self)
        ensures
            r@ == (ErrorView {
                reason,
                detail: ostr(detail),
                position: ostr(position),
                context: ctx_views(context@),
                source: None,
            }),
    {
        StructError { reason, detail, position, context, source: None }
    }

    /// An error with just a reason.
    pub fn from_reason(reason: T) -> (r: Self)
        ensures
            r@ == (ErrorView {
                reason,
                detail: None,
                position: None,
                context: Seq::empty(),
                source: None,
            }),
    {
        let r = StructError { reason, detail: None, position: None, context: Vec::new(), source: None };
        assert(ctx_views(r.context@) =~= Seq::<ContextView>::empty());
        r
    }

    /// The contexts, innermost first.
    pub fn contexts(&self) -> (r: &[OperationContext])
        ensures
            ctx_views(r@) == self@.context,
    {
        self.context.as_slice()
    }

    /// Set the position.
    pub fn with_position<S: crate::metadata::IntoText>(self, position: S) -> (r: Self)
        ensures
            r@ == (ErrorView { position: Some(position.text_of()), ..self@ }),
    {
        let mut s = self;
        s.position = Some(position.into_text());
        s
    }

    /// Set the detail.
    pub fn with_detail<S: crate::metadata::IntoText>(self, detail: S) -> (r: Self)
        ensures
            r@ == (ErrorView { detail: Some(detail.text_of()), ..self@ }),
    {
        let mut s = self;
        s.detail = Some(detail.into_text());
        s
    }

    /// Add an outer context.
    pub fn with_context<C: IntoContext>(self, context: C) -> (r: Self)
        ensures
            r@.context.len() == self@.context.len() + 1,
            r@.context.drop_last() == self@.context,
            context.context_ok(r@.context.last()),
            r@ == (ErrorView { context: r@.context, ..self@ }),
    {
        let mut s = self;
        let c = context.into_context();
        s.push_context(c);
        s
    }

    fn push_context(&mut self, c: OperationContext)
        ensures
            final(self)@ == (ErrorView { context: old(self)@.context.push(c@), ..old(self)@ }),
    {
        let ghost before = ctx_views(self.context@);
        let ghost cv = c@;
        self.context.push(c);
        assert(ctx_views(self.context@) =~= before.push(cv));
    }

    /// The error as the `Err` of a result.
    pub fn err<V>(self) -> (r: Result<V, Self>)
        ensures
            r matches Err(e) && e@ == self@,
    {
        Err(self)
    }

    /// The action of the outermost context that has one.
    pub fn action_main(&self) -> (r: Option<String>)
        ensures
            ostr(r) == last_action(self@.context),
    {
        let mut i = self.context.len();
        assert(self@.context.subrange(0, i as int) =~= self@.context);
        while i > 0
            invariant
                i <= self.context.len(),
                last_action(self@.context) == last_action(self@.context.subrange(0, i as int)),
            decreases i,
        {
            let ghost t = self@.context.subrange(0, i as int);
            assert(t.last() == self.context@[i - 1]@);
            assert(t.drop_last() =~= self@.context.subrange(0, i - 1));
            if self.context[i - 1].action.is_some() {
                return clone_opt(&self.context[i - 1].action);
            }
            i -= 1;
        }
        None
    }

    /// The target of the outermost context that has one.
    pub fn target_main(&self) -> (r: Option<String>)
        ensures
            ostr(r) == last_target(self@.context),
    {
        last_target_of(self.context.as_slice())
    }

    /// The locator of the outermost context that has one.
    pub fn locator_main(&self) -> (r: Option<String>)
        ensures
            ostr(r) == last_locator(self@.context),
    {
        let mut i = self.context.len();
        assert(self@.context.subrange(0, i as int) =~= self@.context);
        while i > 0
            invariant
                i <= self.context.len(),
                last_locator(self@.context) == last_locator(self@.context.subrange(0, i as int)),
            decreases i,
        {
            let ghost t = self@.context.subrange(0, i as int);
            assert(t.last() == self.context@[i - 1]@);
            assert(t.drop_last() =~= self@.context.subrange(0, i - 1));
            if self.context[i - 1].locator.is_some() {
                return clone_opt(&self.context[i - 1].locator);
            }
            i -= 1;
        }
        None
    }

    /// The operation path across the context stack (see [`error_path`]).
    pub fn path_segments(&self) -> (r: Vec<String>)
        ensures
            strs(r@) == error_path(self@.context),
    {
        let ghost ctxs = self@.context;
        let mut path: Vec<String> = Vec::new();
        let mut pending: Vec<String> = Vec::new();
        let mut i = self.context.len();
        assert((strs(path@), strs(pending@)) == path_walk(ctxs, i as int)) by {
            assert(strs(path@) =~= Seq::<Seq<char>>::empty());
            assert(strs(pending@) =~= Seq::<Seq<char>>::empty());
        }
        while i > 0
            invariant
                i <= self.context.len(),
                ctxs == self@.context,
                (strs(path@), strs(pending@)) == path_walk(ctxs, i as int),
            decreases i,
        {
            let ctx = &self.context[i - 1];
            assert(ctxs[i - 1] == ctx@);
            let only = ctx.action.is_none() && ctx.target.is_none() && ctx.locator.is_some()
                && ctx.path.len() <= 1;
            if only {
                let l = match &ctx.locator {
                    Some(l) => l.clone(),
                    None => String::new(),
                };
                let ghost before = strs(pending@);
                pending.push(l);
                assert(strs(pending@) =~= before.push(ctx@.locator->0));
            } else {
                let mut segs = ctx.normalized_path_segments();
                push_rev_dedup_exec(&mut segs, &pending);
                pending = Vec::new();
                push_all_dedup_exec(&mut path, &segs);
                assert(strs(pending@) =~= Seq::<Seq<char>>::empty());
            }
            i -= 1;
        }
        push_rev_dedup_exec(&mut path, &pending);
        path
    }

    /// The operation path joined with ` / `, or nothing when it is empty.
    pub fn target_path(&self) -> (r: Option<String>)
        ensures
            ostr(r) == (if error_path(self@.context).len() == 0 {
                None
            } else {
                Some(spec_join(error_path(self@.context), " / "@))
            }),
    {
        let segs = self.path_segments();
        if segs.len() == 0 {
            None
        } else {
            Some(join(&segs, " / "))
        }
    }

    /// The metadata of all contexts merged; for a key set in several
    /// contexts, the innermost (earliest attached) value wins.
    pub fn context_metadata(&self) -> (r: ErrorMetadata)
        ensures
            r.entries() == merged_metadata(self@.context),
    {
        let mut merged = ErrorMetadata::new();
        let mut i: usize = 0;
        while i < self.context.len()
            invariant
                i <= self.context.len(),
                merged.entries() == merged_metadata(self@.context.subrange(0, i as int)),
            decreases self.context.len() - i,
        {
            proof {
                let t = self@.context.subrange(0, i + 1);
                assert(t.drop_last() =~= self@.context.subrange(0, i as int));
                assert(t.last() == self.context@[i as int]@);
            }
            merged.merge_missing(&self.context[i].metadata);
            i += 1;
        }
        assert(self@.context.subrange(0, self.context.len() as int) =~= self@.context);
        merged
    }

    /// The metadata of the context at `index`, if there is one.
    pub fn context_metadata_at(&self, index: usize) -> (r: Option<&ErrorMetadata>)
        ensures
            index < self@.context.len() ==> r is Some && r->0.entries()
                == self@.context[index as int].metadata,
            index >= self@.context.len() ==> r is None,
    {
        if index < self.context.len() {
            Some(&self.context[index].metadata)
        } else {
            None
        }
    }
}

/// The numbered context stack: `context i: ` then the context's display
/// text, each on its own lines.
pub open spec fn context_stack(ctxs: Seq<ContextView>) -> Seq<char>
    decreases ctxs.len(),
{
    if ctxs.len() == 0 {
        Seq::empty()
    } else {
        context_stack(ctxs.drop_last()) + "context "@ + decimal((ctxs.len() - 1) as nat) + ": \n"@
            + context_display(ctxs.last()) + "\n"@
    }
}

/// The error path as text, when it is not empty.
pub open spec fn path_of(ctxs: Seq<ContextView>) -> Option<Seq<char>> {
    if error_path(ctxs).len() == 0 {
        None
    } else {
        Some(spec_join(error_path(ctxs), " / "@))
    }
}

/// The display text of an error: the reason's message, then `At`, `Call`,
/// `Details` and `Source` lines when present, then the context stack.
pub open spec fn error_display<T: DomainReason>(e: ErrorView<T>) -> Seq<char> {
    e.reason.spec_message() + (if e.position is Some {
        "\n  -> At: "@ + e.position->0
    } else {
        Seq::empty()
    }) + (if path_of(e.context) is Some {
        "\n  -> Call: "@ + path_of(e.context)->0
    } else {
        Seq::empty()
    }) + (if e.detail is Some {
        "\n  -> Details: "@ + e.detail->0
    } else {
        Seq::empty()
    }) + (if e.source is Some {
        "\n  -> Source: "@ + e.source->0.display
    } else {
        Seq::empty()
    }) + (if e.context.len() > 0 {
        "\n  -> Context stack:\n"@ + context_stack(e.context)
    } else {
        Seq::empty()
    })
}

/// All fields of all contexts, innermost context first.
pub open spec fn all_items(ctxs: Seq<ContextView>) -> Seq<(Seq<char>, Seq<char>)>
    decreases ctxs.len(),
{
    if ctxs.len() == 0 {
        Seq::empty()
    } else {
        all_items(ctxs.drop_last()) + ctxs.last().items
    }
}

/// The frames of an error's source, if it has one.
pub open spec fn source_frames_of<T>(e: ErrorView<T>) -> Seq<FrameView> {
    if e.source is Some {
        e.source->0.frames
    } else {
        Seq::empty()
    }
}

/// A frame moved one position down the chain.
pub open spec fn shifted(f: FrameView) -> FrameView {
    FrameView { index: (f.index + 1) as usize, ..f }
}

/// The frame that stands for a structured error in a source chain.
pub open spec fn struct_head_frame<T: DomainReason>(e: ErrorView<T>) -> FrameView {
    FrameView {
        index: 0,
        message: e.reason.spec_message(),
        display: Some(error_display(e)),
        debug: None,
        error_type: None,
        error_code: None,
        reason: Some(e.reason.spec_message()),
        path: path_of(e.context),
        detail: e.detail,
        context_fields: all_items(e.context),
        metadata: merged_metadata(e.context),
        is_root_cause: source_frames_of(e).len() == 0,
    }
}

/// The frames of a structured error used as a source: its own frame, then
/// its source's frames one position further down.
pub open spec fn struct_frames<T: DomainReason>(e: ErrorView<T>) -> Seq<FrameView> {
    seq![struct_head_frame(e)] + source_frames_of(e).map_values(|f: FrameView| shifted(f))
}

/// The payload of a structured error used as a source.
pub open spec fn struct_payload<T: DomainReason>(e: ErrorView<T>) -> PayloadView {
    PayloadView {
        kind: SourcePayloadKind::Struct,
        display: error_display(e),
        root_display: if e.source is Some {
            e.source->0.root_display
        } else {
            error_display(e)
        },
        frames: struct_frames(e),
    }
}

/// The payload of a standard error chain.
pub open spec fn std_payload_ok(s: StdSource, p: PayloadView) -> bool {
    &&& p.kind == SourcePayloadKind::Std
    &&& p.display == s.message@
    &&& p.root_display == s.chain().last()
    &&& p.frames.len() == s.chain().len()
    &&& forall|i: int|
        0 <= i < s.chain().len() ==> #[trigger] p.frames[i] == crate::source::std_frame(
            s.chain(),
            s.error_type@,
            i,
        )
}

/// Whether `needle` occurs in `hay`.
pub open spec fn contains_text(hay: Seq<char>, needle: Seq<char>) -> bool {
    exists|i: int| 0 <= i && i + needle.len() <= hay.len() && #[trigger] hay.subrange(i, i + needle.len()) == needle
}

/// Whether a type name names a structured error type.
pub open spec fn names_struct_error(ty: Seq<char>) -> bool {
    contains_text(ty, "StructError<"@)
}

/// Tests whether `needle` occurs in `hay`.
pub fn text_contains(hay: &str, needle: &str) -> (r: bool)
    ensures
        r == contains_text(hay@, needle@),
{
    let n = hay.unicode_len();
    let m = needle.unicode_len();
    if m > n {
        return false;
    }
    let mut i: usize = 0;
    while i <= n - m
        invariant
            n == hay@.len(),
            m == needle@.len(),
            m <= n,
            i <= n - m + 1,
            forall|k: int| 0 <= k < i ==> #[trigger] hay@.subrange(k, k + m) != needle@,
        decreases n - i,
    {
        let mut j: usize = 0;
        let mut same = true;
        while j < m
            invariant
                n == hay@.len(),
                m == needle@.len(),
                i + m <= n,
                j <= m,
                same == (forall|q: int| 0 <= q < j ==> hay@[i + q] == needle@[q]),
            decreases m - j,
        {
            if hay.get_char(i + j) != needle.get_char(j) {
                same = false;
            }
            j += 1;
        }
        if same {
            assert(hay@.subrange(i as int, i + m) =~= needle@);
            return true;
        }
        proof {
            if hay@.subrange(i as int, i + m) == needle@ {
                assert forall|q: int| 0 <= q < m implies hay@[i + q] == needle@[q] by {
                    assert(hay@.subrange(i as int, i + m)[q] == hay@[i + q]);
                }
            }
        }
        i += 1;
    }
    false
}

/// Appends `label` and the value, when there is one.
fn append_labelled(out: &mut String, label: &str, v: &Option<String>)
    ensures
        final(out)@ == old(out)@ + (if v is Some {
            label@ + v->0@
        } else {
            Seq::empty()
        }),
{
    match v {
        Some(x) => {
            out.append(label);
            out.append(x.as_str());
        },
        None => {
            assert(out@ =~= out@ + Seq::<char>::empty());
        },
    }
}

/// Appends the numbered context stack.
fn append_context_stack(out: &mut String, ctxs: &Vec<OperationContext>)
    ensures
        final(out)@ == old(out)@ + context_stack(ctx_views(ctxs@)),
{
    let ghost prefix = out@;
    let mut i: usize = 0;
    assert(context_stack(ctx_views(ctxs@).subrange(0, 0)) =~= Seq::<char>::empty()) by {
        assert(ctx_views(ctxs@).subrange(0, 0).len() == 0);
    }
    assert(out@ =~= prefix + Seq::<char>::empty());
    while i < ctxs.len()
        invariant
            i <= ctxs.len(),
            out@ == prefix + context_stack(ctx_views(ctxs@).subrange(0, i as int)),
        decreases ctxs.len() - i,
    {
        proof {
            let t = ctx_views(ctxs@).subrange(0, i + 1);
            assert(t.drop_last() =~= ctx_views(ctxs@).subrange(0, i as int));
            assert(t.last() == ctxs@[i as int]@);
        }
        out.append("context ");
        let n = u64_text(i as u64);
        out.append(n.as_str());
        out.append(": \n");
        let c = ctxs[i].to_string();
        out.append(c.as_str());
        out.append("\n");
        i += 1;
    }
    assert(ctx_views(ctxs@).subrange(0, ctxs.len() as int) =~= ctx_views(ctxs@));
}

impl<T: DomainReason> StructError<T> {
    /// The display text (see [`error_display`]).
    pub fn to_string(&self) -> (r: String)
        ensures
            r@ == error_display(self@),
    {
        let mut out = self.reason.message();
        append_labelled(&mut out, "\n  -> At: ", &self.position);
        append_labelled(&mut out, "\n  -> Call: ", &self.target_path());
        append_labelled(&mut out, "\n  -> Details: ", &self.detail);
        let src = self.source_ref();
        append_labelled(&mut out, "\n  -> Source: ", &src);
        if self.context.len() > 0 {
            out.append("\n  -> Context stack:\n");
            append_context_stack(&mut out, &self.context);
        }
        out
    }

    fn all_context_fields(&self) -> (r: Vec<(smol_str::SmolStr, smol_str::SmolStr)>)
        ensures
            smol_pairs(r@) == all_items(self@.context),
    {
        let mut r: Vec<(smol_str::SmolStr, smol_str::SmolStr)> = Vec::new();
        let mut i: usize = 0;
        while i < self.context.len()
            invariant
                i <= self.context.len(),
                smol_pairs(r@) == all_items(self@.context.subrange(0, i as int)),
            decreases self.context.len() - i,
        {
            proof {
                let t = self@.context.subrange(0, i + 1);
                assert(t.drop_last() =~= self@.context.subrange(0, i as int));
                assert(t.last() == self.context@[i as int]@);
            }
            let items = &self.context[i].context.items;
            let ghost start = smol_pairs(r@);
            let mut k: usize = 0;
            while k < items.len()
                invariant
                    k <= items.len(),
                    smol_pairs(r@) == start + crate::text::pairs(items@).subrange(0, k as int),
                decreases items.len() - k,
            {
                let a = smol_new(items[k].0.as_str());
                let b = smol_new(items[k].1.as_str());
                let ghost before = r@;
                r.push((a, b));
                proof {
                    assert(r@ == before.push((a, b)));
                    assert(smol_pairs(r@) =~= smol_pairs(before).push((smol_text(a), smol_text(b))));
                    let ps = crate::text::pairs(items@);
                    assert(ps.subrange(0, k + 1) =~= ps.subrange(0, k as int).push(ps[k as int]));
                }
                k += 1;
            }
            assert(crate::text::pairs(items@).subrange(0, items.len() as int) =~= crate::text::pairs(items@));
            i += 1;
        }
        assert(self@.context.subrange(0, self.context.len() as int) =~= self@.context);
        r
    }

    /// The source payload this error makes when it is the source of another.
    pub fn struct_source_payload(&self) -> (r: SourcePayload)
        ensures
            r@ == struct_payload(self@),
    {
        let message = self.reason.message();
        let display = self.to_string();
        let mut frames: Vec<SourceFrame> = Vec::new();
        let inner_len: usize = match &self.source {
            Some(p) => {
                p.well_formed();
                p.frames().len()
            },
            None => 0,
        };
        let head = SourceFrame {
            index: 0,
            message: smol_new(message.as_str()),
            display: Some(smol_new(display.as_str())),
            debug: None,
            error_type: None,
            error_code: None,
            reason: Some(smol_new(message.as_str())),
            path: smol_opt(&self.target_path()),
            detail: smol_opt(&self.detail),
            context_fields: self.all_context_fields(),
            metadata: self.context_metadata(),
            is_root_cause: inner_len == 0,
        };
        assert(head@ =~= struct_head_frame(self@));
        frames.push(head);
        let ghost inner = source_frames_of(self@);
        match &self.source {
            Some(p) => {
                let fs = p.frames();
                let mut i: usize = 0;
                while i < fs.len()
                    invariant
                        i <= fs.len(),
                        frame_views(fs@) == inner,
                        indexed(inner),
                        frames@.len() == i + 1,
                        frames@[0]@ == struct_head_frame(self@),
                        forall|j: int| 1 <= j <= i ==> #[trigger] frames@[j]@ == shifted(inner[j - 1]),
                    decreases fs.len() - i,
                {
                    let mut f = fs[i].clone();
                    assert(inner[i as int].index == i);
                    assert(f@ == inner[i as int]);
                    f.index = fs[i].index + 1;
                    assert(f@ == shifted(inner[i as int]));
                    frames.push(f);
                    i += 1;
                }
                assert(frame_views(frames@) =~= seq![struct_head_frame(self@)] + inner.map_values(
                    |g: FrameView| shifted(g),
                ));
                assert(inner.subrange(0, fs.len() as int) =~= inner);
            },
            None => {
                assert(frame_views(frames@) =~= seq![struct_head_frame(self@)] + inner.map_values(
                    |f: FrameView| shifted(f),
                ));
            },
        }
        assert(frame_views(frames@) =~= struct_frames(self@));
        assert(indexed(frame_views(frames@))) by {
            assert forall|j: int| 0 <= j < frame_views(frames@).len() implies (#[trigger] frame_views(
                frames@,
            )[j]).index == j by {
                if j > 0 {
                    assert(frame_views(frames@)[j] == shifted(inner[j - 1]));
                }
            }
        }
        let root_display = match &self.source {
            Some(p) => p.root_cause(),
            None => display.clone(),
        };
        SourcePayload::from_parts(SourcePayloadKind::Struct, display, root_display, frames)
    }

    /// Attach a standard error chain as the source; a previous source is
    /// replaced. A type name that names a structured error is refused: those
    /// are attached with `with_struct_source`.
    pub fn with_std_source(self, source: StdSource) -> (r: Self)
        requires
            !names_struct_error(source.error_type@),
        ensures
            r@.source is Some,
            std_payload_ok(source, r@.source->0),
            r@ == (ErrorView { source: r@.source, ..self@ }),
    {
        let mut s = self;
        s.source = Some(SourcePayload::from_std(&source));
        s
    }

    /// Attach a structured error as the source; a previous source is replaced.
    pub fn with_struct_source<R: DomainReason>(self, source: StructError<R>) -> (r: Self)
        ensures
            r@ == (ErrorView { source: Some(struct_payload(source@)), ..self@ }),
    {
        let p = source.struct_source_payload();
        let mut s = self;
        s.source = Some(p);
        s
    }

    /// Attach a source, standard or structured.
    pub fn with_source<S: IntoSourcePayload>(self, source: S) -> (r: Self)
        requires
            source.payload_ready(),
        ensures
            r@.source is Some,
            source.payload_ok(r@.source->0),
            r@ == (ErrorView { source: r@.source, ..self@ }),
    {
        let p = source.into_source_payload();
        let mut s = self;
        s.source = Some(p);
        s
    }

    /// The display text of the source error.
    pub fn source_ref(&self) -> (r: Option<String>)
        ensures
            ostr(r) == (if self@.source is Some {
                Some(self@.source->0.display)
            } else {
                None
            }),
    {
        match &self.source {
            Some(p) => Some(p.source()),
            None => None,
        }
    }

    /// The display text of the innermost error of the source chain.
    pub fn root_cause(&self) -> (r: Option<String>)
        ensures
            ostr(r) == (if self@.source is Some {
                Some(self@.source->0.root_display)
            } else {
                None
            }),
    {
        match &self.source {
            Some(p) => Some(p.root_cause()),
            None => None,
        }
    }

    /// The source frames, outermost first (none without a source).
    pub fn source_frames(&self) -> (r: &[SourceFrame])
        ensures
            frame_views(r@) == source_frames_of(self@),
    {
        match &self.source {
            Some(p) => p.frames(),
            None => {
                let e: &[SourceFrame] = &[];
                assert(frame_views(e@) =~= Seq::<FrameView>::empty());
                e
            },
        }
    }

    /// A read-only view of the source payload.
    pub fn source_payload(&self) -> (r: Option<SourcePayloadRef<'_>>)
        ensures
            r is Some == self@.source is Some,
            r is Some ==> r->0.payload@ == self@.source->0,
    {
        match &self.source {
            Some(p) => Some(SourcePayloadRef { payload: p }),
            None => None,
        }
    }

    /// Where the source came from, if there is one.
    pub fn source_payload_kind(&self) -> (r: Option<SourcePayloadKind>)
        ensures
            r == (if self@.source is Some {
                Some(self@.source->0.kind)
            } else {
                None
            }),
    {
        match &self.source {
            Some(p) => Some(p.kind()),
            None => None,
        }
    }

    /// The last source frame, if any.
    pub fn root_cause_frame(&self) -> (r: Option<&SourceFrame>)
        ensures
            source_frames_of(self@).len() == 0 ==> r is None,
            source_frames_of(self@).len() > 0 ==> r is Some && r->0@ == source_frames_of(
                self@,
            ).last(),
    {
        let fs = self.source_frames();
        if fs.len() == 0 {
            None
        } else {
            Some(&fs[fs.len() - 1])
        }
    }

    /// The messages of the source frames, outermost first.
    pub fn source_chain(&self) -> (r: Vec<String>)
        ensures
            strs(r@) == source_frames_of(self@).map_values(|f: FrameView| f.message),
    {
        match &self.source {
            Some(p) => p.source_chain(),
            None => {
                let r: Vec<String> = Vec::new();
                assert(strs(r@) =~= source_frames_of(self@).map_values(|f: FrameView| f.message));
                r
            },
        }
    }

    /// The display text followed, when there is a source, by a `Caused by:`
    /// list of the frame messages (see [`chain_display`]).
    pub fn display_chain(&self) -> (r: String)
        ensures
            r@ == chain_display(error_display(self@), source_frames_of(self@).map_values(
                |f: FrameView| f.message,
            )),
    {
        let mut out = self.to_string();
        let chain = self.source_chain();
        if chain.len() > 0 {
            out.append("\nCaused by:");
            let ghost prefix = out@;
            let mut idx: usize = 0;
            while idx < chain.len()
                invariant
                    idx <= chain.len(),
                    out@ == prefix + caused_lines(strs(chain@).subrange(0, idx as int)),
                decreases chain.len() - idx,
            {
                proof {
                    let t = strs(chain@).subrange(0, idx + 1);
                    assert(t.drop_last() =~= strs(chain@).subrange(0, idx as int));
                }
                let ls = split_lines(chain[idx].as_str());
                let ghost before = out@;
                if ls.len() > 0 {
                    out.append("\n  ");
                    let n = u64_text(idx as u64);
                    out.append(n.as_str());
                    out.append(": ");
                    out.append(ls[0].as_str());
                    let ghost mid = out@;
                    let mut k: usize = 1;
                    while k < ls.len()
                        invariant
                            1 <= k <= ls.len(),
                            out@ == mid + more_lines(strs(ls@).subrange(1, k as int)),
                        decreases ls.len() - k,
                    {
                        proof {
                            let t = strs(ls@).subrange(1, k + 1);
                            assert(t.drop_last() =~= strs(ls@).subrange(1, k as int));
                        }
                        out.append("\n     ");
                        out.append(ls[k].as_str());
                        k += 1;
                    }
                    assert(strs(ls@).subrange(1, ls.len() as int) =~= strs(ls@).drop_first());
                }
                idx += 1;
            }
            assert(strs(chain@).subrange(0, chain.len() as int) =~= strs(chain@));
        }
        out
    }
}

/// Continuation lines of a message, each indented under its first line.
pub open spec fn more_lines(ls: Seq<Seq<char>>) -> Seq<char>
    decreases ls.len(),
{
    if ls.len() == 0 {
        Seq::empty()
    } else {
        more_lines(ls.drop_last()) + "\n     "@ + ls.last()
    }
}

/// The lines for the message at position `idx` of a source chain.
pub open spec fn message_lines(idx: nat, msg: Seq<char>) -> Seq<char> {
    let ls = lines(msg);
    if ls.len() == 0 {
        Seq::empty()
    } else {
        "\n  "@ + decimal(idx) + ": "@ + ls[0] + more_lines(ls.drop_first())
    }
}

/// The numbered lines for all messages of a source chain.
pub open spec fn caused_lines(msgs: Seq<Seq<char>>) -> Seq<char>
    decreases msgs.len(),
{
    if msgs.len() == 0 {
        Seq::empty()
    } else {
        caused_lines(msgs.drop_last()) + message_lines((msgs.len() - 1) as nat, msgs.last())
    }
}

/// An error's display text followed by its source chain.
pub open spec fn chain_display(display: Seq<char>, msgs: Seq<Seq<char>>) -> Seq<char> {
    if msgs.len() > 0 {
        display + "\nCaused by:"@ + caused_lines(msgs)
    } else {
        display
    }
}

/// A value that can be attached to an error as its source.
pub trait IntoSourcePayload {
    /// Whether the value may be attached.
    spec fn payload_ready(&self) -> bool;

    /// Whether `p` is the payload this value makes.
    spec fn payload_ok(&self, p: PayloadView) -> bool;

    fn into_source_payload(self) -> (p: SourcePayload)
        requires
            self.payload_ready(),
        ensures
            self.payload_ok(p@),
    ;
}

impl IntoSourcePayload for StdSource {
    open spec fn payload_ready(&self) -> bool {
        !names_struct_error(self.error_type@)
    }

    open spec fn payload_ok(&self, p: PayloadView) -> bool {
        std_payload_ok(*self, p)
    }

    fn into_source_payload(self) -> (p: SourcePayload) {
        SourcePayload::from_std(&self)
    }
}

impl<R: DomainReason> IntoSourcePayload for StructError<R> {
    open spec fn payload_ready(&self) -> bool {
        true
    }

    open spec fn payload_ok(&self, p: PayloadView) -> bool {
        p == struct_payload(self@)
    }

    fn into_source_payload(self) -> (p: SourcePayload) {
        self.struct_source_payload()
    }
}


/// Copies a list of contexts.
pub fn clone_contexts(v: &Vec<OperationContext>) -> (r: Vec<OperationContext>)
    ensures
        ctx_views(r@) == ctx_views(v@),
{
    let mut r: Vec<OperationContext> = Vec::new();
    let mut i: usize = 0;
    while i < v.len()
        invariant
            i <= v.len(),
            r@.len() == i,
            forall|j: int| 0 <= j < i ==> #[trigger] r@[j]@ == v@[j]@,
        decreases v.len() - i,
    {
        r.push(v[i].clone());
        i += 1;
    }
    assert(ctx_views(r@) =~= ctx_views(v@));
    r
}

/// Copies an optional source payload.
fn clone_source(o: &Option<SourcePayload>) -> (r: Option<SourcePayload>)
    ensures
        opt_payload(r) == opt_payload(*o),
{
    match o {
        Some(p) => Some(p.clone()),
        None => None,
    }
}

impl<T: DomainReason + Clone> Clone for StructError<T> {
    /// A copy: the reason as `T::clone` makes it, everything else equal.
    fn clone(&self) -> (r: Self)
        ensures
            cloned(self@.reason, r@.reason),
            r@ == (ErrorView { reason: r@.reason, ..self@ }),
    {
        StructError {
            reason: self.reason.clone(),
            detail: clone_opt(&self.detail),
            position: clone_opt(&self.position),
            context: clone_contexts(&self.context),
            source: clone_source(&self.source),
        }
    }
}

/// Builder for a structured error with optional detail, position, contexts
/// and source.
pub struct StructErrorBuilder<T: DomainReason> {
    reason: T,
    detail: Option<String>,
    position: Option<String>,
    contexts: Vec<OperationContext>,
    source: Option<SourcePayload>,
}

impl<T: DomainReason> View for StructErrorBuilder<T> {
    type V = ErrorView<T>;

    /// The error the builder will finish into.
    closed spec fn view(&self) -> ErrorView<T> {
        ErrorView {
            reason: self.reason,
            detail: ostr(self.detail),
            position: ostr(self.position),
            context: ctx_views(self.contexts@),
            source: opt_payload(self.source),
        }
    }
}

impl<T: DomainReason> StructError<T> {
    /// Start building an error with the given reason.
    pub fn builder(reason: T) -> (r: StructErrorBuilder<T>)
        ensures
            r@ == (ErrorView {
                reason,
                detail: None,
                position: None,
                context: Seq::empty(),
                source: None,
            }),
    {
        let r = StructErrorBuilder {
            reason,
            detail: None,
            position: None,
            contexts: Vec::new(),
            source: None,
        };
        assert(ctx_views(r.contexts@) =~= Seq::<ContextView>::empty());
        r
    }

    /// Wrap this error as the source of a new error with `reason`.
    pub fn wrap<R2: DomainReason>(self, reason: R2) -> (r: StructError<R2>)
        ensures
            r@ == (ErrorView {
                reason,
                detail: None,
                position: None,
                context: Seq::empty(),
                source: Some(struct_payload(self@)),
            }),
    {
        StructError::from_reason(reason).with_struct_source(self)
    }
}

impl<T: DomainReason> StructErrorBuilder<T> {
    /// Set the detail.
    pub fn detail<S: crate::metadata::IntoText>(self, detail: S) -> (r: Self)
        ensures
            r@ == (ErrorView { detail: Some(detail.text_of()), ..self@ }),
    {
        let mut b = self;
        b.detail = Some(detail.into_text());
        b
    }

    /// Set the position.
    pub fn position<S: crate::metadata::IntoText>(self, position: S) -> (r: Self)
        ensures
            r@ == (ErrorView { position: Some(position.text_of()), ..self@ }),
    {
        let mut b = self;
        b.position = Some(position.into_text());
        b
    }

    /// Add an outer context.
    pub fn context(self, ctx: OperationContext) -> (r: Self)
        ensures
            r@ == (ErrorView { context: self@.context.push(ctx@), ..self@ }),
    {
        let mut b = self;
        let ghost before = ctx_views(b.contexts@);
        let ghost cv = ctx@;
        b.contexts.push(ctx);
        assert(ctx_views(b.contexts@) =~= before.push(cv));
        b
    }

    /// Add a copy of an outer context.
    pub fn context_ref(self, ctx: &OperationContext) -> (r: Self)
        ensures
            r@ == (ErrorView { context: self@.context.push(ctx@), ..self@ }),
    {
        self.context(ctx.clone())
    }

    /// Attach a standard error chain as the source.
    pub fn source_std(self, source: StdSource) -> (r: Self)
        requires
            !names_struct_error(source.error_type@),
        ensures
            r@.source is Some,
            std_payload_ok(source, r@.source->0),
            r@ == (ErrorView { source: r@.source, ..self@ }),
    {
        let mut b = self;
        b.source = Some(SourcePayload::from_std(&source));
        b
    }

    /// Attach a source, standard or structured.
    pub fn source<S: IntoSourcePayload>(self, source: S) -> (r: Self)
        requires
            source.payload_ready(),
        ensures
            r@.source is Some,
            source.payload_ok(r@.source->0),
            r@ == (ErrorView { source: r@.source, ..self@ }),
    {
        let mut b = self;
        b.source = Some(source.into_source_payload());
        b
    }

    /// Attach a structured error as the source.
    pub fn source_struct<R: DomainReason>(self, source: StructError<R>) -> (r: Self)
        ensures
            r@ == (ErrorView { source: Some(struct_payload(source@)), ..self@ }),
    {
        let mut b = self;
        b.source = Some(source.struct_source_payload());
        b
    }

    /// The error built so far.
    pub fn finish(self) -> (r: StructError<T>)
        ensures
            r@ == self@,
    {
        StructError {
            reason: self.reason,
            detail: self.detail,
            position: self.position,
            context: self.contexts,
            source: self.source,
        }
    }
}

/// Convert an error to one with another reason type: the reason goes
/// through `R2::from`; detail, position, contexts and source are kept.
pub fn convert_error<R1: DomainReason, R2: DomainReason + From<R1>>(other: StructError<R1>) -> (r:
    StructError<R2>)
    ensures
        call_ensures(R2::from, (other@.reason,), r@.reason),
        r@.detail == other@.detail,
        r@.position == other@.position,
        r@.context == other@.context,
        r@.source == other@.source,
{
    let StructError { reason, detail, position, context, source } = other;
    StructError { reason: R2::from(reason), detail, position, context, source }
}

impl<T: DomainReason> From<T> for StructError<T> {
    /// An error with just the reason.
    fn from(reason: T) -> (r: Self)
        ensures
            r@ == (ErrorView {
                reason,
                detail: None,
                position: None,
                context: Seq::empty(),
                source: None,
            }),
    {
        StructError::from_reason(reason)
    }
}

impl<T: DomainReason> vstd::std_specs::convert::FromSpecImpl<T> for StructError<T> {
    open spec fn obeys_from_spec() -> bool {
        false
    }

    open spec fn from_spec(v: T) -> Self {
        choose|e: Self| #[trigger] e.view() == (ErrorView {
            reason: v,
            detail: None,
            position: None,
            context: Seq::empty(),
            source: None,
        })
    }
}

impl<'a, T: DomainReason> ContextAdd<&'a OperationContext> for StructError<T> {
    /// Add a copy of an outer context.
    fn add_context(&mut self, ctx: &'a OperationContext)
        ensures
            final(self)@ == (ErrorView { context: old(self)@.context.push(ctx@), ..old(self)@ }),
    {
        self.push_context(ctx.clone());
    }
}

impl<T: DomainReason> ContextAdd<OperationContext> for StructError<T> {
    /// Add an outer context.
    fn add_context(&mut self, ctx: OperationContext)
        ensures
            final(self)@ == (ErrorView { context: old(self)@.context.push(ctx@), ..old(self)@ }),
    {
        self.push_context(ctx);
    }
}

impl<T: DomainReason + ErrorIdentityProvider> ErrorIdentityProvider for StructError<T> {
    open spec fn spec_stable_code(&self) -> Seq<char> {
        self@.reason.spec_stable_code()
    }

    open spec fn spec_error_category(&self) -> ErrorCategory {
        self@.reason.spec_error_category()
    }

    /// The reason's stable code.
    fn stable_code(&self) -> (s: &'static str) {
        self.reason.stable_code()
    }

    /// The reason's category.
    fn error_category(&self) -> (c: ErrorCategory) {
        self.reason.error_category()
    }
}


/// The identity of an error: stable code, category, reason text, detail,
/// position and path.
#[derive(Debug, Clone, PartialEq, Eq)]
pub struct ErrorIdentity {
    pub code: String,
    pub category: ErrorCategory,
    pub reason: String,
    pub detail: Option<String>,
    pub position: Option<String>,
    pub path: Option<String>,
}

/// The observable content of an error identity.
pub struct IdentityView {
    pub code: Seq<char>,
    pub category: ErrorCategory,
    pub reason: Seq<char>,
    pub detail: Option<Seq<char>>,
    pub position: Option<Seq<char>>,
    pub path: Option<Seq<char>>,
}

impl View for ErrorIdentity {
    type V = IdentityView;

    open spec fn view(&self) -> IdentityView {
        IdentityView {
            code: self.code@,
            category: self.category,
            reason: self.reason@,
            detail: ostr(self.detail),
            position: ostr(self.position),
            path: ostr(self.path),
        }
    }
}

/// The identity of an error as the protocol layer sees it.
pub open spec fn identity_of<T: DomainReason + ErrorIdentityProvider>(e: ErrorView<T>) -> IdentityView {
    IdentityView {
        code: e.reason.spec_stable_code(),
        category: e.reason.spec_error_category(),
        reason: e.reason.spec_message(),
        detail: e.detail,
        position: e.position,
        path: path_of(e.context),
    }
}

impl<T: DomainReason + ErrorIdentityProvider> StructError<T> {
    /// The identity of this error (see [`identity_of`]).
    pub fn identity_snapshot(&self) -> (r: ErrorIdentity)
        ensures
            r@ == identity_of(self@),
    {
        let code = crate::text::owned(self.reason.stable_code());
        ErrorIdentity {
            code,
            category: self.reason.error_category(),
            reason: self.reason.message(),
            detail: clone_opt(&self.detail),
            position: clone_opt(&self.position),
            path: self.target_path(),
        }
    }
}

/// No segment directly repeats the one before it.
pub open spec fn no_adjacent_repeats(s: Seq<Seq<char>>) -> bool {
    forall|i: int| 0 < i < s.len() ==> #[trigger] s[i] != s[i - 1]
}

proof fn lemma_push_all_dedup_keeps(acc: Seq<Seq<char>>, segs: Seq<Seq<char>>)
    requires
        no_adjacent_repeats(acc),
    ensures
        no_adjacent_repeats(push_all_dedup(acc, segs)),
    decreases segs.len(),
{
    if segs.len() > 0 {
        lemma_push_all_dedup_keeps(acc, segs.drop_last());
        let a = push_all_dedup(acc, segs.drop_last());
        let b = push_dedup(a, segs.last());
        assert forall|i: int| 0 < i < b.len() implies #[trigger] b[i] != b[i - 1] by {
            if !(a.len() > 0 && a.last() == segs.last()) && i == b.len() - 1 {
                assert(b[i] == segs.last());
                assert(b[i - 1] == a.last());
            } else {
                assert(b[i] == a[i]);
                assert(b[i - 1] == a[i - 1]);
            }
        }
    }
}

proof fn lemma_path_walk_keeps(ctxs: Seq<ContextView>, k: int)
    ensures
        no_adjacent_repeats(path_walk(ctxs, k).0),
    decreases ctxs.len() - k,
{
    if 0 <= k < ctxs.len() {
        lemma_path_walk_keeps(ctxs, k + 1);
        let st = path_walk(ctxs, k + 1);
        if !locator_only(ctxs[k]) {
            lemma_push_all_dedup_keeps(
                st.0,
                push_all_dedup(normalized_path(ctxs[k]), rev(st.1)),
            );
        }
    } else {
        assert(path_walk(ctxs, k).0.len() == 0);
    }
}

/// The operation path of an error never repeats a segment twice in a row,
/// whatever contexts it passed through.
pub proof fn law_error_path_no_adjacent_repeats(ctxs: Seq<ContextView>)
    ensures
        no_adjacent_repeats(error_path(ctxs)),
{
    lemma_path_walk_keeps(ctxs, 0);
    let st = path_walk(ctxs, 0);
    lemma_push_all_dedup_keeps(st.0, rev(st.1));
}

/// The metadata value of `k` in the innermost context that sets it.
pub open spec fn innermost_meta(ctxs: Seq<ContextView>, k: Seq<char>) -> Option<MetaView>
    decreases ctxs.len(),
{
    if ctxs.len() == 0 {
        None
    } else if innermost_meta(ctxs.drop_last(), k) is Some {
        innermost_meta(ctxs.drop_last(), k)
    } else {
        meta_get(ctxs.last().metadata, k)
    }
}

/// Every context's metadata is in key order (what each context's metadata
/// container keeps).
pub open spec fn contexts_sorted(ctxs: Seq<ContextView>) -> bool {
    forall|i: int| 0 <= i < ctxs.len() ==> keys_sorted(#[trigger] ctxs[i].metadata)
}

/// Merging the metadata of an error's contexts gives, for each key, the
/// value set by the innermost context that sets it; the merge stays in key
/// order.
pub proof fn law_context_metadata_innermost_wins(ctxs: Seq<ContextView>, k: Seq<char>)
    requires
        contexts_sorted(ctxs),
    ensures
        keys_sorted(merged_metadata(ctxs)),
        meta_get(merged_metadata(ctxs), k) == innermost_meta(ctxs, k),
    decreases ctxs.len(),
{
    if ctxs.len() > 0 {
        let t = ctxs.drop_last();
        assert(contexts_sorted(t)) by {
            assert forall|i: int| 0 <= i < t.len() implies keys_sorted(#[trigger] t[i].metadata) by {
                assert(t[i] == ctxs[i]);
            }
        }
        law_context_metadata_innermost_wins(t, k);
        assert(keys_sorted(ctxs[ctxs.len() - 1].metadata));
        crate::metadata::lemma_meta_merge_missing(merged_metadata(t), ctxs.last().metadata);
    } else {
        assert(keys_sorted(merged_metadata(ctxs)));
    }
}


/// Copies the contexts of an error.
pub fn clone_contexts_of<T: DomainReason>(e: &StructError<T>) -> (r: Vec<OperationContext>)
    ensures
        ctx_views(r@) == e@.context,
{
    clone_contexts(&e.context)
}


fn meta_value_eq(a: &crate::metadata::MetadataValue, b: &crate::metadata::MetadataValue) -> (r: bool)
    ensures
        r == (a@ == b@),
{
    match (a, b) {
        (crate::metadata::MetadataValue::String(x), crate::metadata::MetadataValue::String(y)) => {
            crate::text::text_eq(x.as_str(), y.as_str())
        },
        (crate::metadata::MetadataValue::Bool(x), crate::metadata::MetadataValue::Bool(y)) => *x == *y,
        (crate::metadata::MetadataValue::I64(x), crate::metadata::MetadataValue::I64(y)) => *x == *y,
        (crate::metadata::MetadataValue::U64(x), crate::metadata::MetadataValue::U64(y)) => *x == *y,
        _ => false,
    }
}

fn metadata_eq(a: &ErrorMetadata, b: &ErrorMetadata) -> (r: bool)
    ensures
        r == (a.entries() == b.entries()),
{
    let fa = a.iter();
    let fb = b.iter();
    if fa.len() != fb.len() {
        proof {
            assert(a.entries().len() != b.entries().len());
        }
        return false;
    }
    let mut i: usize = 0;
    while i < fa.len()
        invariant
            fa.len() == fb.len(),
            i <= fa.len(),
            crate::metadata::entry_views(fa@) == a.entries(),
            crate::metadata::entry_views(fb@) == b.entries(),
            forall|j: int| 0 <= j < i ==> #[trigger] a.entries()[j] == b.entries()[j],
        decreases fa.len() - i,
    {
        assert(a.entries()[i as int] == (fa@[i as int].0@, fa@[i as int].1@));
        assert(b.entries()[i as int] == (fb@[i as int].0@, fb@[i as int].1@));
        if !crate::text::text_eq(fa[i].0.as_str(), fb[i].0.as_str()) || !meta_value_eq(
            &fa[i].1,
            &fb[i].1,
        ) {
            return false;
        }
        i += 1;
    }
    assert(a.entries() =~= b.entries());
    true
}

fn strings_eq(a: &Vec<String>, b: &Vec<String>) -> (r: bool)
    ensures
        r == (strs(a@) == strs(b@)),
{
    if a.len() != b.len() {
        proof {
            assert(strs(a@).len() != strs(b@).len());
        }
        return false;
    }
    let mut i: usize = 0;
    while i < a.len()
        invariant
            a.len() == b.len(),
            i <= a.len(),
            forall|j: int| 0 <= j < i ==> #[trigger] a@[j]@ == b@[j]@,
        decreases a.len() - i,
    {
        if !crate::text::text_eq(a[i].as_str(), b[i].as_str()) {
            proof {
                assert(strs(a@)[i as int] != strs(b@)[i as int]);
            }
            return false;
        }
        i += 1;
    }
    assert(strs(a@) =~= strs(b@));
    true
}

fn pairs_eq(a: &Vec<(String, String)>, b: &Vec<(String, String)>) -> (r: bool)
    ensures
        r == (crate::text::pairs(a@) == crate::text::pairs(b@)),
{
    if a.len() != b.len() {
        proof {
            assert(crate::text::pairs(a@).len() != crate::text::pairs(b@).len());
        }
        return false;
    }
    let mut i: usize = 0;
    while i < a.len()
        invariant
            a.len() == b.len(),
            i <= a.len(),
            forall|j: int| 0 <= j < i ==> #[trigger] crate::text::pairs(a@)[j] == crate::text::pairs(b@)[j],
        decreases a.len() - i,
    {
        if !crate::text::text_eq(a[i].0.as_str(), b[i].0.as_str()) || !crate::text::text_eq(
            a[i].1.as_str(),
            b[i].1.as_str(),
        ) {
            proof {
                assert(crate::text::pairs(a@)[i as int] != crate::text::pairs(b@)[i as int]);
            }
            return false;
        }
        i += 1;
    }
    assert(crate::text::pairs(a@) =~= crate::text::pairs(b@));
    true
}

/// Whether two contexts have the same content.
pub fn context_eq(a: &OperationContext, b: &OperationContext) -> (r: bool)
    ensures
        r == (a@ == b@),
{
    pairs_eq(&a.context.items, &b.context.items) && a.result == b.result && a.exit_log
        == b.exit_log && crate::text::text_eq(a.mod_path.as_str(), b.mod_path.as_str())
        && crate::text::opt_text_eq(&a.action, &b.action) && crate::text::opt_text_eq(
        &a.locator,
        &b.locator,
    ) && crate::text::opt_text_eq(&a.target, &b.target) && strings_eq(&a.path, &b.path)
        && metadata_eq(&a.metadata, &b.metadata)
}

fn contexts_eq(a: &Vec<OperationContext>, b: &Vec<OperationContext>) -> (r: bool)
    ensures
        r == (ctx_views(a@) == ctx_views(b@)),
{
    if a.len() != b.len() {
        proof {
            assert(ctx_views(a@).len() != ctx_views(b@).len());
        }
        return false;
    }
    let mut i: usize = 0;
    while i < a.len()
        invariant
            a.len() == b.len(),
            i <= a.len(),
            forall|j: int| 0 <= j < i ==> #[trigger] a@[j]@ == b@[j]@,
        decreases a.len() - i,
    {
        if !context_eq(&a[i], &b[i]) {
            proof {
                assert(ctx_views(a@)[i as int] != ctx_views(b@)[i as int]);
            }
            return false;
        }
        i += 1;
    }
    assert(ctx_views(a@) =~= ctx_views(b@));
    true
}

impl<T: DomainReason + PartialEq> PartialEq for StructError<T> {
    /// Equal reasons, details, positions and contexts; the source is not
    /// compared.
    fn eq(&self, other: &Self) -> (r: bool) {
        self.reason == other.reason && crate::text::opt_text_eq(&self.detail, &other.detail)
            && crate::text::opt_text_eq(&self.position, &other.position) && contexts_eq(
            &self.context,
            &other.context,
        )
    }
}

impl<T: DomainReason + PartialEq> PartialEqSpecImpl for StructError<T> {
    open spec fn obeys_eq_spec() -> bool {
        <T as PartialEqSpec>::obeys_eq_spec()
    }

    open spec fn eq_spec(&self, other: &Self) -> bool {
        &&& self@.reason.eq_spec(&other@.reason)
        &&& self@.detail == other@.detail
        &&& self@.position == other@.position
        &&& self@.context == other@.context
    }
}

/// The main action of a context stack is that of the outermost context
/// that has one: there is none for an empty stack, attaching an outer
/// context with an action makes that action the main one, and attaching
/// one without an action leaves the main action as it was.
pub proof fn law_action_main_is_outermost(ctxs: Seq<ContextView>, c: ContextView)
    ensures
        last_action(Seq::<ContextView>::empty()) is None,
        c.action is Some ==> last_action(ctxs.push(c)) == c.action,
        c.action is None ==> last_action(ctxs.push(c)) == last_action(ctxs),
{
    assert(ctxs.push(c).drop_last() =~= ctxs);
}

/// The main locator of a context stack is that of the outermost context
/// that has one.
pub proof fn law_locator_main_is_outermost(ctxs: Seq<ContextView>, c: ContextView)
    ensures
        last_locator(Seq::<ContextView>::empty()) is None,
        c.locator is Some ==> last_locator(ctxs.push(c)) == c.locator,
        c.locator is None ==> last_locator(ctxs.push(c)) == last_locator(ctxs),
{
    assert(ctxs.push(c).drop_last() =~= ctxs);
}

} // verus!
