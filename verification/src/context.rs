//! Operation context: what was being done (`doing`), where (`at`), the path
//! of operations, ad-hoc key/value fields and typed metadata.
use vstd::prelude::*;
use vstd::std_specs::convert::FromSpecImpl;

use crate::metadata::{ErrorMetadata, IntoMetadataValue, IntoText, MetaView, meta_insert};
use crate::text::{
    clone_opt, clone_pairs, clone_strings, decimal, join, opt_text_eq, ostr, owned,
    pairs, spec_join, strip_newline_prefix, strip_newline_prefix_text, strs, u64_text,
};

verus! {

/// Outcome of an operation tracked by [`OperationContext`].
#[derive(Debug, Clone, Copy, PartialEq, Eq, Structural)]
pub enum OperationResult {
    /// The operation completed successfully.
    Suc,
    /// The operation failed (the default).
    Fail,
    /// The operation was cancelled.
    Cancel,
}

impl Default for OperationResult {
    fn default() -> (r: Self)
        ensures
            r == OperationResult::Fail,
    {
        OperationResult::Fail
    }
}

/// Human-readable key/value fields recorded on a context.
#[derive(Debug, PartialEq, Eq)]
pub struct CallContext {
    pub items: Vec<(String, String)>,
}

impl Clone for CallContext {
    fn clone(&self) -> (r: Self)
        ensures
            r.items@ == self.items@,
    {
        CallContext { items: clone_pairs(&self.items) }
    }
}

impl Default for CallContext {
    fn default() -> (r: Self)
        ensures
            r.items@.len() == 0,
    {
        CallContext { items: Vec::new() }
    }
}

impl<K: IntoText, V: IntoText> From<(K, V)> for CallContext {
    /// A context holding one field.
    fn from(value: (K, V)) -> (r: Self)
        ensures
            pairs(r.items@) == seq![(value.0.text_of(), value.1.text_of())],
    {
        CallContext::from_pair(value.0, value.1)
    }
}

impl<K: IntoText, V: IntoText> vstd::std_specs::convert::FromSpecImpl<(K, V)> for CallContext {
    open spec fn obeys_from_spec() -> bool {
        false
    }

    open spec fn from_spec(v: (K, V)) -> Self {
        choose|c: Self| pairs(#[trigger] c.items@) == seq![(v.0.text_of(), v.1.text_of())]
    }
}

impl CallContext {
    /// A context holding one field.
    pub fn from_pair<K: IntoText, V: IntoText>(key: K, value: V) -> (r: Self)
        ensures
            pairs(r.items@) == seq![(key.text_of(), value.text_of())],
    {
        let mut items = Vec::new();
        items.push((key.into_text(), value.into_text()));
        let r = CallContext { items };
        assert(pairs(r.items@) =~= seq![(key.text_of(), value.text_of())]);
        r
    }

    /// The fields as text: a `call context:` heading after a newline, then
    /// one tab-indented `key : value` line per field; nothing when empty.
    pub fn to_string(&self) -> (r: String)
        ensures
            r@ == call_context_text(pairs(self.items@)),
    {
        let mut out = String::new();
        if self.items.len() > 0 {
            out.append("\ncall context:\n");
        }
        let mut i: usize = 0;
        while i < self.items.len()
            invariant
                i <= self.items.len(),
                out@ == (if self.items@.len() > 0 {
                    "\ncall context:\n"@
                } else {
                    Seq::empty()
                }) + field_lines(pairs(self.items@).subrange(0, i as int)),
            decreases self.items.len() - i,
        {
            proof {
                let p = pairs(self.items@).subrange(0, i + 1);
                assert(p.drop_last() =~= pairs(self.items@).subrange(0, i as int));
            }
            out.append("\t");
            out.append(self.items[i].0.as_str());
            out.append(" : ");
            out.append(self.items[i].1.as_str());
            out.append("\n");
            i += 1;
        }
        assert(pairs(self.items@).subrange(0, self.items.len() as int) =~= pairs(self.items@));
        out
    }
}

/// Tab-indented `key : value` lines.
pub open spec fn field_lines(items: Seq<(Seq<char>, Seq<char>)>) -> Seq<char>
    decreases items.len(),
{
    if items.len() == 0 {
        Seq::empty()
    } else {
        field_lines(items.drop_last()) + "\t"@ + items.last().0 + " : "@ + items.last().1 + "\n"@
    }
}

/// The text of a field list: empty, or a heading followed by one line per field.
pub open spec fn call_context_text(items: Seq<(Seq<char>, Seq<char>)>) -> Seq<char> {
    (if items.len() > 0 {
        "\ncall context:\n"@
    } else {
        Seq::empty()
    }) + field_lines(items)
}

/// The log target a context reports under unless told otherwise.
pub open spec fn default_mod_path() -> Seq<char> {
    "orion_error::core::context"@
}

/// The observable state of an operation context.
#[verifier::ext_equal]
pub struct ContextView {
    pub items: Seq<(Seq<char>, Seq<char>)>,
    pub result: OperationResult,
    pub exit_log: bool,
    pub mod_path: Seq<char>,
    pub action: Option<Seq<char>>,
    pub locator: Option<Seq<char>>,
    pub target: Option<Seq<char>>,
    pub path: Seq<Seq<char>>,
    pub metadata: Seq<(Seq<char>, MetaView)>,
}

/// A fresh context: no fields, failed, no exit log, default log target,
/// no action, locator, target or path, no metadata.
pub open spec fn empty_context() -> ContextView {
    ContextView {
        items: Seq::empty(),
        result: OperationResult::Fail,
        exit_log: false,
        mod_path: default_mod_path(),
        action: None,
        locator: None,
        target: None,
        path: Seq::empty(),
        metadata: Seq::empty(),
    }
}

/// A context, the operation, where it happened, and the path of steps.
#[derive(Debug, PartialEq, Eq)]
pub struct OperationContext {
    pub context: CallContext,
    pub result: OperationResult,
    pub exit_log: bool,
    pub mod_path: String,
    pub action: Option<String>,
    pub locator: Option<String>,
    pub target: Option<String>,
    pub path: Vec<String>,
    pub metadata: ErrorMetadata,
}

/// Former name of [`OperationContext`].
pub type WithContext = OperationContext;

impl View for OperationContext {
    type V = ContextView;

    open spec fn view(&self) -> ContextView {
        ContextView {
            items: pairs(self.context.items@),
            result: self.result,
            exit_log: self.exit_log,
            mod_path: self.mod_path@,
            action: ostr(self.action),
            locator: ostr(self.locator),
            target: ostr(self.target),
            path: strs(self.path@),
            metadata: self.metadata.entries(),
        }
    }
}

/// The path after adding a segment: empty segments are ignored; the segment
/// goes before a trailing locator, and is skipped when it would sit next to
/// an equal segment.
pub open spec fn push_path_segment(
    path: Seq<Seq<char>>,
    locator: Option<Seq<char>>,
    seg: Seq<char>,
) -> Seq<Seq<char>> {
    if seg.len() == 0 {
        path
    } else {
        let locator_at_end = locator is Some && path.len() > 0 && path.last() == locator->0;
        let idx = if locator_at_end {
            path.len() - 1
        } else {
            path.len() as int
        };
        let prev_same = idx >= 1 && path[idx - 1] == seg;
        let cur_same = idx < path.len() && path[idx] == seg;
        if !prev_same && !cur_same {
            path.insert(idx, seg)
        } else {
            path
        }
    }
}

/// The compatibility target: the stored target, or else the action.
pub open spec fn compat_target(v: ContextView) -> Option<Seq<char>> {
    if v.target is Some {
        v.target
    } else {
        v.action
    }
}

/// Drops a stored target that only repeats the action.
pub open spec fn normalize_target(v: ContextView) -> ContextView {
    if v.target == v.action {
        ContextView { target: None, ..v }
    } else {
        v
    }
}

/// The context after `set_target`: the first target becomes the root
/// target; later ones (or any once an action exists) extend the path.
pub open spec fn push_target(v: ContextView, t: Seq<char>) -> ContextView {
    if t.len() == 0 {
        v
    } else if v.action is Some {
        ContextView { path: push_path_segment(v.path, v.locator, t), ..v }
    } else if v.target is None {
        ContextView { target: Some(t), ..v }
    } else if v.target->0 == t {
        v
    } else {
        ContextView { path: push_path_segment(v.path, v.locator, t), ..v }
    }
}

/// The context after `with_doing`: the first action sticks, a target equal
/// to it is dropped, and the action extends the path.
pub open spec fn push_doing(v: ContextView, a: Seq<char>) -> ContextView {
    if a.len() == 0 {
        v
    } else {
        let v1 = if v.action is None {
            ContextView { action: Some(a), ..v }
        } else {
            v
        };
        let v2 = normalize_target(v1);
        ContextView { path: push_path_segment(v2.path, v2.locator, a), ..v2 }
    }
}

/// The context after `with_at`: the locator is replaced and appended to the
/// path unless the path already ends with it.
pub open spec fn push_at(v: ContextView, l: Seq<char>) -> ContextView {
    if l.len() == 0 {
        v
    } else {
        ContextView {
            locator: Some(l),
            path: if v.path.len() > 0 && v.path.last() == l {
                v.path
            } else {
                v.path.push(l)
            },
            ..v
        }
    }
}

/// One step of path normalization: skip a segment equal to the head or to
/// the last segment, otherwise append it.
pub open spec fn norm_step(acc: Seq<Seq<char>>, seg: Seq<char>) -> Seq<Seq<char>> {
    if acc.len() > 0 && acc[0] == seg {
        acc
    } else if acc.len() > 0 && acc.last() == seg {
        acc
    } else {
        acc.push(seg)
    }
}

/// Normalization steps over the stored path segments, in order.
pub open spec fn norm_fold(acc: Seq<Seq<char>>, path: Seq<Seq<char>>) -> Seq<Seq<char>>
    decreases path.len(),
{
    if path.len() == 0 {
        acc
    } else {
        norm_step(norm_fold(acc, path.drop_last()), path.last())
    }
}

/// The normalized path: the action (or else the target) first, then the
/// stored segments without repeats of the head or of a neighbour, then the
/// locator unless the path already ends with it.
pub open spec fn normalized_path(v: ContextView) -> Seq<Seq<char>> {
    let head: Seq<Seq<char>> = if v.action is Some {
        seq![v.action->0]
    } else if v.target is Some {
        seq![v.target->0]
    } else {
        Seq::empty()
    };
    let body = norm_fold(head, v.path);
    if v.locator is Some && !(body.len() > 0 && body.last() == v.locator->0) {
        body.push(v.locator->0)
    } else {
        body
    }
}

/// Path segments joined with ` / `, or nothing when there are none.
pub open spec fn path_text(segs: Seq<Seq<char>>) -> Option<Seq<char>> {
    if segs.len() == 0 {
        None
    } else {
        Some(spec_join(segs, " / "@))
    }
}

/// The context an `at(...)` annotation attaches: without locator and target
/// a single path segment, or else a single `key`/`path` field, becomes the
/// locator; the locator then ends the path.
pub open spec fn at_context(v: ContextView) -> ContextView {
    let v1 = if v.locator is None && compat_target(v) is None {
        if v.path.len() == 1 {
            ContextView { locator: Some(v.path[0]), ..v }
        } else if v.items.len() == 1 && (v.items[0].0 == "key"@ || v.items[0].0 == "path"@) {
            ContextView { locator: Some(v.items[0].1), ..v }
        } else {
            v
        }
    } else {
        v
    };
    if v1.locator is Some && !(v1.path.len() > 0 && v1.path.last() == v1.locator->0) {
        ContextView { path: v1.path.push(v1.locator->0), ..v1 }
    } else {
        v1
    }
}

impl Clone for OperationContext {
    fn clone(&self) -> (r: Self)
        ensures
            r@ == self@,
    {
        OperationContext {
            context: self.context.clone(),
            result: self.result,
            exit_log: self.exit_log,
            mod_path: self.mod_path.clone(),
            action: clone_opt(&self.action),
            locator: clone_opt(&self.locator),
            target: clone_opt(&self.target),
            path: clone_strings(&self.path),
            metadata: self.metadata.clone(),
        }
    }
}

impl Default for OperationContext {
    fn default() -> (r: Self)
        ensures
            r@ == empty_context(),
    {
        OperationContext::new()
    }
}

fn default_mod_path_string() -> (r: String)
    ensures
        r@ == default_mod_path(),
{
    owned("orion_error::core::context")
}

fn last_is(path: &Vec<String>, s: &String) -> (r: bool)
    ensures
        r == (path@.len() > 0 && path@.last()@ == s@),
{
    if path.len() == 0 {
        false
    } else {
        path[path.len() - 1] == *s
    }
}

impl OperationContext {
    /// A fresh context.
    pub fn new() -> (r: Self)
        ensures
            r@ == empty_context(),
    {
        let r = OperationContext {
            context: CallContext { items: Vec::new() },
            result: OperationResult::Fail,
            exit_log: false,
            mod_path: default_mod_path_string(),
            action: None,
            locator: None,
            target: None,
            path: Vec::new(),
            metadata: ErrorMetadata::new(),
        };
        assert(pairs(r.context.items@) =~= Seq::<(Seq<char>, Seq<char>)>::empty());
        assert(strs(r.path@) =~= Seq::<Seq<char>>::empty());
        assert(r@ =~= empty_context());
        r
    }

    /// A context for an operation: the action, and a path of just it.
    pub fn doing<S: IntoText>(action: S) -> (r: Self)
        ensures
            r@ == (ContextView {
                action: Some(action.text_of()),
                path: seq![action.text_of()],
                ..empty_context()
            }),
    {
        let action = action.into_text();
        let mut r = OperationContext::new();
        let mut path = Vec::new();
        path.push(action.clone());
        r.path = path;
        r.action = Some(action);
        assert(strs(r.path@) =~= seq![r.action->0@]);
        r
    }

    /// A context for a location: the locator, and a path of just it.
    pub fn at<S: IntoText>(locator: S) -> (r: Self)
        ensures
            r@ == (ContextView {
                locator: Some(locator.text_of()),
                path: seq![locator.text_of()],
                ..empty_context()
            }),
    {
        let locator = locator.into_text();
        let mut r = OperationContext::new();
        let mut path = Vec::new();
        path.push(locator.clone());
        r.path = path;
        r.locator = Some(locator);
        assert(strs(r.path@) =~= seq![r.locator->0@]);
        r
    }

    /// A context whose root target is set directly.
    pub fn from_target(target: String) -> (r: Self)
        ensures
            r@ == (ContextView { target: Some(target@), ..empty_context() }),
    {
        let mut r = OperationContext::new();
        r.target = Some(target);
        r
    }

    /// A context rebuilt from projected parts; a target equal to the action
    /// is not kept.
    pub fn from_projection_parts(
        target: Option<String>,
        action: Option<String>,
        locator: Option<String>,
        path: Vec<String>,
        fields: Vec<(String, String)>,
        metadata: ErrorMetadata,
        result: OperationResult,
    ) -> (r: Self)
        ensures
            r@ == normalize_target(
                ContextView {
                    items: pairs(fields@),
                    result,
                    exit_log: false,
                    mod_path: default_mod_path(),
                    action: ostr(action),
                    locator: ostr(locator),
                    target: ostr(target),
                    path: strs(path@),
                    metadata: metadata.entries(),
                },
            ),
    {
        let mut r = OperationContext {
            context: CallContext { items: fields },
            result,
            exit_log: false,
            mod_path: default_mod_path_string(),
            action,
            locator,
            target,
            path,
            metadata,
        };
        r.normalize_compat_target_storage();
        r
    }

    fn normalize_compat_target_storage(&mut self)
        ensures
            final(self)@ == normalize_target(old(self)@),
    {
        if opt_text_eq(&self.target, &self.action) {
            self.target = None;
        }
    }

    fn push_path_segment(&mut self, segment: String)
        ensures
            final(self)@ == (ContextView {
                path: push_path_segment(old(self)@.path, old(self)@.locator, segment@),
                ..old(self)@
            }),
    {
        if segment.as_str().unicode_len() == 0 {
            assert(self@ =~= ContextView { path: push_path_segment(self@.path, self@.locator, segment@), ..self@ });
            return ;
        }
        let locator_at_end = match &self.locator {
            Some(l) => last_is(&self.path, l),
            None => false,
        };
        let n = self.path.len();
        let idx: usize = if locator_at_end {
            n - 1
        } else {
            n
        };
        let prev_same = idx >= 1 && self.path[idx - 1] == segment;
        let cur_same = idx < n && self.path[idx] == segment;
        let ghost p = strs(self.path@);
        if !prev_same && !cur_same {
            let ghost sv = segment@;
            self.path.insert(idx, segment);
            assert(strs(self.path@) =~= p.insert(idx as int, sv));
        }
    }

    /// The compatibility target: the stored target, or else the action.
    pub fn compat_target(&self) -> (r: Option<String>)
        ensures
            ostr(r) == compat_target(self@),
    {
        match &self.target {
            Some(t) => Some(t.clone()),
            None => clone_opt(&self.action),
        }
    }

    fn push_target_segment(&mut self, target: String)
        ensures
            final(self)@ == push_target(old(self)@, target@),
    {
        if target.as_str().unicode_len() == 0 {
            return ;
        }
        if self.action.is_some() {
            self.push_path_segment(target);
            return ;
        }
        if self.target.is_none() {
            self.target = Some(target);
            return ;
        }
        let same = match &self.target {
            Some(root) => *root == target,
            None => false,
        };
        if same {
            return ;
        }
        self.push_path_segment(target);
    }

    /// Set the target: the first call establishes the root target;
    /// subsequent calls (or any once an action exists) extend the path.
    pub fn set_target<S: IntoText>(&mut self, target: S)
        ensures
            final(self)@ == push_target(old(self)@, target.text_of()),
    {
        self.push_target_segment(target.into_text())
    }

    /// The recorded fields.
    pub fn context(&self) -> (r: &CallContext)
        ensures
            r == &self.context,
    {
        &self.context
    }

    /// The outcome of the operation.
    pub fn result(&self) -> (r: &OperationResult)
        ensures
            *r == self.result,
    {
        &self.result
    }

    /// Whether the outcome is logged when the context is dropped.
    pub fn exit_log(&self) -> (r: &bool)
        ensures
            *r == self.exit_log,
    {
        &self.exit_log
    }

    /// The log target.
    pub fn mod_path(&self) -> (r: &String)
        ensures
            r@ == self.mod_path@,
    {
        &self.mod_path
    }

    /// The action recorded by `doing`.
    pub fn action(&self) -> (r: &Option<String>)
        ensures
            ostr(*r) == self@.action,
    {
        &self.action
    }

    /// The locator recorded by `at`.
    pub fn locator(&self) -> (r: &Option<String>)
        ensures
            ostr(*r) == self@.locator,
    {
        &self.locator
    }

    /// The stored path segments.
    pub fn path(&self) -> (r: &[String])
        ensures
            strs(r@) == self@.path,
    {
        self.path.as_slice()
    }

    /// The typed metadata.
    pub fn metadata(&self) -> (r: &ErrorMetadata)
        ensures
            r.entries() == self@.metadata,
    {
        &self.metadata
    }

    /// Log the outcome when the context is dropped.
    pub fn with_auto_log(self) -> (r: Self)
        ensures
            r@ == (ContextView { exit_log: true, ..self@ }),
    {
        let mut s = self;
        s.exit_log = true;
        s
    }

    /// Set the log target.
    pub fn with_mod_path<S: IntoText>(self, path: S) -> (r: Self)
        ensures
            r@ == (ContextView { mod_path: path.text_of(), ..self@ }),
    {
        let mut s = self;
        s.mod_path = path.into_text();
        s
    }

    /// Record a step: the first action sticks, and the step extends the path.
    pub fn with_doing<S: IntoText>(&mut self, action: S)
        ensures
            final(self)@ == push_doing(old(self)@, action.text_of()),
    {
        let action = action.into_text();
        if action.as_str().unicode_len() == 0 {
            return ;
        }
        if self.action.is_none() {
            self.action = Some(action.clone());
        }
        self.normalize_compat_target_storage();
        self.push_path_segment(action)
    }

    /// Record the location; it ends the path unless the path already does.
    pub fn with_at<S: IntoText>(&mut self, locator: S)
        ensures
            final(self)@ == push_at(old(self)@, locator.text_of()),
    {
        let locator = locator.into_text();
        if locator.as_str().unicode_len() == 0 {
            return ;
        }
        let ends = last_is(&self.path, &locator);
        self.locator = Some(locator.clone());
        if !ends {
            let ghost p = strs(self.path@);
            let ghost lv = locator@;
            self.path.push(locator);
            assert(strs(self.path@) =~= p.push(lv));
        }
    }

    /// The normalized path segments (see [`normalized_path`]).
    pub fn normalized_path_segments(&self) -> (r: Vec<String>)
        ensures
            strs(r@) == normalized_path(self@),
    {
        let mut path: Vec<String> = Vec::new();
        match &self.action {
            Some(a) => path.push(a.clone()),
            None => match &self.target {
                Some(t) => path.push(t.clone()),
                None => {},
            },
        }
        let ghost head = strs(path@);
        assert(head == (if self@.action is Some {
            seq![self@.action->0]
        } else if self@.target is Some {
            seq![self@.target->0]
        } else {
            Seq::<Seq<char>>::empty()
        }));
        let mut i: usize = 0;
        while i < self.path.len()
            invariant
                i <= self.path.len(),
                strs(path@) == norm_fold(head, strs(self.path@).subrange(0, i as int)),
            decreases self.path.len() - i,
        {
            proof {
                let t = strs(self.path@).subrange(0, i + 1);
                assert(t.drop_last() =~= strs(self.path@).subrange(0, i as int));
                assert(t.last() == self.path@[i as int]@);
            }
            let seg = &self.path[i];
            let first_same = path.len() > 0 && path[0] == *seg;
            let ghost before = strs(path@);
            if !first_same {
                let last_same = last_is(&path, seg);
                if !last_same {
                    path.push(seg.clone());
                    assert(strs(path@) =~= before.push(seg@));
                }
            }
            i += 1;
        }
        assert(strs(self.path@).subrange(0, self.path.len() as int) =~= strs(self.path@));
        match &self.locator {
            Some(l) => {
                if !last_is(&path, l) {
                    let ghost before = strs(path@);
                    path.push(l.clone());
                    assert(strs(path@) =~= before.push(l@));
                }
            },
            None => {},
        }
        path
    }

    /// The normalized path joined with ` / `, or nothing for an empty path.
    pub fn path_string(&self) -> (r: Option<String>)
        ensures
            ostr(r) == path_text(normalized_path(self@)),
    {
        let segs = self.normalized_path_segments();
        if segs.len() == 0 {
            None
        } else {
            Some(join(&segs, " / "))
        }
    }

    /// The context as an `at(...)` annotation attaches it (see [`at_context`]).
    pub fn into_at_context(self) -> (r: Self)
        ensures
            r@ == at_context(self@),
    {
        let mut s = self;
        let ghost v = s@;
        if s.locator.is_none() && s.target.is_none() && s.action.is_none() {
            if s.path.len() == 1 {
                s.locator = Some(s.path[0].clone());
            } else if s.context.items.len() == 1 {
                let key = &s.context.items[0].0;
                let is_key = *key == owned("key") || *key == owned("path");
                if is_key {
                    s.locator = Some(s.context.items[0].1.clone());
                }
            }
        }
        let ghost v1 = s@;
        let ends = match &s.locator {
            Some(l) => last_is(&s.path, l),
            None => true,
        };
        if !ends {
            let l = match &s.locator {
                Some(l) => l.clone(),
                None => String::new(),
            };
            let ghost p = strs(s.path@);
            let ghost lv = l@;
            s.path.push(l);
            assert(strs(s.path@) =~= p.push(lv));
        }
        s
    }

    /// Record a human-readable key/value field; it appears in the display text.
    pub fn record_field<K: IntoText, V: IntoText>(&mut self, key: K, val: V)
        ensures
            final(self)@ == (ContextView {
                items: old(self)@.items.push((key.text_of(), val.text_of())),
                ..old(self)@
            }),
    {
        let k = key.into_text();
        let v = val.into_text();
        let ghost before = pairs(self.context.items@);
        let ghost kv = (k@, v@);
        self.context.items.push((k, v));
        assert(pairs(self.context.items@) =~= before.push(kv));
    }

    /// Same as [`record_field`](Self::record_field).
    pub fn record<K: IntoText, V: IntoText>(&mut self, key: K, val: V)
        ensures
            final(self)@ == (ContextView {
                items: old(self)@.items.push((key.text_of(), val.text_of())),
                ..old(self)@
            }),
    {
        self.record_field(key, val);
    }

    /// Builder form of [`record_field`](Self::record_field).
    pub fn with_field<K: IntoText, V: IntoText>(self, key: K, val: V) -> (r: Self)
        ensures
            r@ == (ContextView {
                items: self@.items.push((key.text_of(), val.text_of())),
                ..self@
            }),
    {
        let mut s = self;
        s.record_field(key, val);
        s
    }

    /// Record typed metadata; it is not part of the display text. An empty
    /// key is ignored.
    pub fn record_meta<K: IntoText, V: IntoMetadataValue>(&mut self, key: K, value: V)
        ensures
            final(self)@ == (ContextView {
                metadata: if key.text_of().len() == 0 {
                    old(self)@.metadata
                } else {
                    meta_insert(old(self)@.metadata, key.text_of(), value.meta_of())
                },
                ..old(self)@
            }),
    {
        self.metadata.insert(key, value);
    }

    /// Builder form of [`record_meta`](Self::record_meta).
    pub fn with_meta<K: IntoText, V: IntoMetadataValue>(self, key: K, value: V) -> (r: Self)
        ensures
            r@ == (ContextView {
                metadata: if key.text_of().len() == 0 {
                    self@.metadata
                } else {
                    meta_insert(self@.metadata, key.text_of(), value.meta_of())
                },
                ..self@
            }),
    {
        let mut s = self;
        s.record_meta(key, value);
        s
    }

    /// Mark the operation as successful.
    pub fn mark_suc(&mut self)
        ensures
            final(self)@ == (ContextView { result: OperationResult::Suc, ..old(self)@ }),
    {
        self.result = OperationResult::Suc;
    }

    /// Mark the operation as cancelled.
    pub fn mark_cancel(&mut self)
        ensures
            final(self)@ == (ContextView { result: OperationResult::Cancel, ..old(self)@ }),
    {
        self.result = OperationResult::Cancel;
    }
}

/// Numbered `n. key=value` lines, counting from 1.
pub open spec fn numbered_lines(items: Seq<(Seq<char>, Seq<char>)>) -> Seq<char>
    decreases items.len(),
{
    if items.len() == 0 {
        Seq::empty()
    } else {
        numbered_lines(items.drop_last()) + decimal(items.len()) + ". "@ + items.last().0 + "="@
            + items.last().1 + "\n"@
    }
}

/// A line `label` + `value` + newline.
pub open spec fn labelled(label: Seq<char>, value: Seq<char>) -> Seq<char> {
    label + value + "\n"@
}

/// The display text of a context: `doing:`, `at:`, `want:` (when the target
/// differs from the action) and `path:` (when the path differs from the
/// target) lines, then the numbered fields.
pub open spec fn context_display(v: ContextView) -> Seq<char> {
    let target = compat_target(v);
    let path = path_text(normalized_path(v));
    (if v.action is Some {
        labelled("doing: "@, v.action->0)
    } else {
        Seq::empty()
    }) + (if v.locator is Some {
        labelled("at: "@, v.locator->0)
    } else {
        Seq::empty()
    }) + (if target is Some && v.action != target {
        labelled("want: "@, target->0)
    } else {
        Seq::empty()
    }) + (if path is Some && target != path {
        labelled("path: "@, path->0)
    } else {
        Seq::empty()
    }) + numbered_lines(v.items)
}

/// The text of an optional value, empty when absent.
pub open spec fn or_empty(o: Option<Seq<char>>) -> Seq<char> {
    if o is Some {
        o->0
    } else {
        Seq::empty()
    }
}

/// The `key=value` parts of a log head.
pub open spec fn head_parts(
    target: Seq<char>,
    path: Seq<char>,
    action: Seq<char>,
    locator: Seq<char>,
) -> Seq<Seq<char>> {
    (if action.len() > 0 {
        seq!["doing="@ + action]
    } else if target.len() > 0 {
        seq!["want="@ + target]
    } else {
        Seq::empty()
    }) + (if locator.len() > 0 {
        seq!["at="@ + locator]
    } else {
        Seq::empty()
    }) + (if path.len() > 0 && path != target && path != locator {
        seq!["path="@ + path]
    } else {
        Seq::empty()
    })
}

/// The head of a log line: the parts joined with spaces, or, when there are
/// none, the target and path alone.
pub open spec fn log_head(v: ContextView) -> Seq<char> {
    let target = or_empty(compat_target(v));
    let path = or_empty(path_text(normalized_path(v)));
    let action = or_empty(v.action);
    let locator = or_empty(v.locator);
    let parts = head_parts(target, path, action, locator);
    if parts.len() == 0 {
        if target.len() == 0 && (path.len() == 0 || path == target) {
            Seq::empty()
        } else if target.len() > 0 && (path.len() == 0 || path == target) {
            "want="@ + target
        } else if target.len() > 0 {
            "want="@ + target + " path="@ + path
        } else {
            "path="@ + path
        }
    } else {
        spec_join(parts, " "@)
    }
}

/// The text a context is logged with: the head, then the fields (after `: `
/// when there is a head).
pub open spec fn log_text(v: ContextView) -> Seq<char> {
    let head = log_head(v);
    if v.items.len() == 0 {
        head
    } else if head.len() == 0 {
        strip_newline_prefix(call_context_text(v.items))
    } else {
        head + ": "@ + call_context_text(v.items)
    }
}

fn labelled_line(out: &mut String, label: &str, value: &str)
    ensures
        final(out)@ == old(out)@ + labelled(label@, value@),
{
    out.append(label);
    out.append(value);
    out.append("\n");
}

fn opt_or_empty(o: &Option<String>) -> (r: String)
    ensures
        r@ == or_empty(ostr(*o)),
{
    match o {
        Some(s) => s.clone(),
        None => String::new(),
    }
}

impl OperationContext {
    /// The display text (see [`context_display`]).
    pub fn to_string(&self) -> (r: String)
        ensures
            r@ == context_display(self@),
    {
        let target = self.compat_target();
        let path = self.path_string();
        let mut out = String::new();
        match &self.action {
            Some(a) => labelled_line(&mut out, "doing: ", a.as_str()),
            None => {},
        }
        match &self.locator {
            Some(l) => labelled_line(&mut out, "at: ", l.as_str()),
            None => {},
        }
        match &target {
            Some(t) => {
                if !opt_text_eq(&self.action, &target) {
                    labelled_line(&mut out, "want: ", t.as_str());
                }
            },
            None => {},
        }
        match &path {
            Some(p) => {
                if !opt_text_eq(&target, &path) {
                    labelled_line(&mut out, "path: ", p.as_str());
                }
            },
            None => {},
        }
        let ghost prefix = out@;
        let mut i: usize = 0;
        while i < self.context.items.len()
            invariant
                i <= self.context.items.len(),
                out@ == prefix + numbered_lines(pairs(self.context.items@).subrange(0, i as int)),
            decreases self.context.items.len() - i,
        {
            proof {
                let p = pairs(self.context.items@).subrange(0, i + 1);
                assert(p.drop_last() =~= pairs(self.context.items@).subrange(0, i as int));
            }
            let n = u64_text((i + 1) as u64);
            out.append(n.as_str());
            out.append(". ");
            out.append(self.context.items[i].0.as_str());
            out.append("=");
            out.append(self.context.items[i].1.as_str());
            out.append("\n");
            i += 1;
        }
        assert(pairs(self.context.items@).subrange(0, self.context.items.len() as int) =~= pairs(
            self.context.items@,
        ));
        out
    }

    /// The text the context is logged with (see [`log_text`]).
    pub fn format_context(&self) -> (r: String)
        ensures
            r@ == log_text(self@),
    {
        let target = opt_or_empty(&self.compat_target());
        let path = opt_or_empty(&self.path_string());
        let action = opt_or_empty(&self.action);
        let locator = opt_or_empty(&self.locator);
        let mut parts: Vec<String> = Vec::new();
        if action.as_str().unicode_len() > 0 {
            parts.push(crate::text::concat2("doing=", action.as_str()));
        } else if target.as_str().unicode_len() > 0 {
            parts.push(crate::text::concat2("want=", target.as_str()));
        }
        if locator.as_str().unicode_len() > 0 {
            parts.push(crate::text::concat2("at=", locator.as_str()));
        }
        if path.as_str().unicode_len() > 0 && !(path == target) && !(path == locator) {
            parts.push(crate::text::concat2("path=", path.as_str()));
        }
        assert(strs(parts@) =~= head_parts(target@, path@, action@, locator@));
        let head = if parts.len() == 0 {
            let t_empty = target.as_str().unicode_len() == 0;
            let p_plain = path.as_str().unicode_len() == 0 || path == target;
            if t_empty && p_plain {
                String::new()
            } else if !t_empty && p_plain {
                crate::text::concat2("want=", target.as_str())
            } else if !t_empty {
                let mut h = crate::text::concat2("want=", target.as_str());
                h.append(" path=");
                h.append(path.as_str());
                h
            } else {
                crate::text::concat2("path=", path.as_str())
            }
        } else {
            join(&parts, " ")
        };
        if self.context.items.len() == 0 {
            return head;
        }
        let body = self.context.to_string();
        if head.as_str().unicode_len() == 0 {
            strip_newline_prefix_text(body.as_str())
        } else {
            let mut out = head;
            out.append(": ");
            out.append(body.as_str());
            out
        }
    }
}

/// A context holding just the given fields.
pub open spec fn fields_context(items: Seq<(Seq<char>, Seq<char>)>) -> ContextView {
    ContextView { items, ..empty_context() }
}

/// The display text of a file-system path (`Path::display`). No clause
/// states the text: it depends on how the platform encodes paths, and a
/// path has no view here that a name for the result could take.
#[verifier::external_body]
pub(crate) fn path_display(p: &std::path::PathBuf) -> (r: String) {
    format!("{}", p.display())
}

/// A standard path, carried through unchanged.
#[verifier::external_type_specification]
#[verifier::external_body]
pub struct ExPathBuf(std::path::PathBuf);

impl OperationContext {
    /// A context holding one field.
    pub fn from_pair<K: IntoText, V: IntoText>(key: K, value: V) -> (r: Self)
        ensures
            r@ == fields_context(seq![(key.text_of(), value.text_of())]),
    {
        let mut r = OperationContext::new();
        r.record_field(key, value);
        assert(r@ =~= fields_context(seq![(key.text_of(), value.text_of())]));
        r
    }

    /// A context for a file-system path: its display text is both the
    /// locator and the `path` field.
    pub fn from_path(path: &std::path::PathBuf) -> (r: Self)
        ensures
            r@.locator is Some,
            r@ == (ContextView {
                locator: r@.locator,
                ..fields_context(seq![("path"@, r@.locator->0)])
            }),
    {
        let text = path_display(path);
        let mut r = OperationContext::from_pair("path", text.clone());
        r.locator = Some(text);
        assert(r@ =~= (ContextView { locator: Some(text@), ..fields_context(seq![("path"@, text@)]) }));
        r
    }

    /// A context holding one field whose value is a path's display text.
    pub fn from_path_pair(key: &str, path: &std::path::PathBuf) -> (r: Self)
        ensures
            r@.items.len() == 1,
            r@ == fields_context(seq![(key@, r@.items[0].1)]),
    {
        let text = path_display(path);
        OperationContext::from_pair(key, text)
    }
}

impl FromSpecImpl<CallContext> for OperationContext {
    open spec fn obeys_from_spec() -> bool {
        false
    }

    open spec fn from_spec(v: CallContext) -> OperationContext {
        choose|c: OperationContext| #[trigger] c.view() == fields_context(pairs(v.items@))
    }
}

impl From<CallContext> for OperationContext {
    fn from(value: CallContext) -> (r: Self)
        ensures
            r@ == fields_context(pairs(value.items@)),
    {
        let mut r = OperationContext::new();
        r.context = value;
        assert(r@ =~= fields_context(pairs(value.items@)));
        r
    }
}

impl FromSpecImpl<String> for OperationContext {
    open spec fn obeys_from_spec() -> bool {
        false
    }

    open spec fn from_spec(v: String) -> OperationContext {
        choose|c: OperationContext| #[trigger] c.view() == fields_context(seq![("key"@, v@)])
    }
}

impl From<String> for OperationContext {
    /// A context holding the text under the key `key`.
    fn from(value: String) -> (r: Self)
        ensures
            r@ == fields_context(seq![("key"@, value@)]),
    {
        OperationContext::from_pair("key", value)
    }
}

impl<'a> FromSpecImpl<&'a str> for OperationContext {
    open spec fn obeys_from_spec() -> bool {
        false
    }

    open spec fn from_spec(v: &'a str) -> OperationContext {
        choose|c: OperationContext| #[trigger] c.view() == fields_context(seq![("key"@, v@)])
    }
}

impl<'a> From<&'a str> for OperationContext {
    /// A context holding the text under the key `key`.
    fn from(value: &'a str) -> (r: Self)
        ensures
            r@ == fields_context(seq![("key"@, value@)]),
    {
        OperationContext::from_pair("key", value)
    }
}

impl<'a, 'b> FromSpecImpl<(&'a str, &'b str)> for OperationContext {
    open spec fn obeys_from_spec() -> bool {
        false
    }

    open spec fn from_spec(v: (&'a str, &'b str)) -> OperationContext {
        choose|c: OperationContext| #[trigger] c.view() == fields_context(seq![(v.0@, v.1@)])
    }
}

impl<'a, 'b> From<(&'a str, &'b str)> for OperationContext {
    fn from(value: (&'a str, &'b str)) -> (r: Self)
        ensures
            r@ == fields_context(seq![(value.0@, value.1@)]),
    {
        OperationContext::from_pair(value.0, value.1)
    }
}

impl<'a> FromSpecImpl<(&'a str, String)> for OperationContext {
    open spec fn obeys_from_spec() -> bool {
        false
    }

    open spec fn from_spec(v: (&'a str, String)) -> OperationContext {
        choose|c: OperationContext| #[trigger] c.view() == fields_context(seq![(v.0@, v.1@)])
    }
}

impl<'a> From<(&'a str, String)> for OperationContext {
    fn from(value: (&'a str, String)) -> (r: Self)
        ensures
            r@ == fields_context(seq![(value.0@, value.1@)]),
    {
        OperationContext::from_pair(value.0, value.1)
    }
}

impl FromSpecImpl<(String, String)> for OperationContext {
    open spec fn obeys_from_spec() -> bool {
        false
    }

    open spec fn from_spec(v: (String, String)) -> OperationContext {
        choose|c: OperationContext| #[trigger] c.view() == fields_context(seq![(v.0@, v.1@)])
    }
}

impl From<(String, String)> for OperationContext {
    fn from(value: (String, String)) -> (r: Self)
        ensures
            r@ == fields_context(seq![(value.0@, value.1@)]),
    {
        OperationContext::from_pair(value.0, value.1)
    }
}

impl<'a> FromSpecImpl<&'a OperationContext> for OperationContext {
    open spec fn obeys_from_spec() -> bool {
        false
    }

    open spec fn from_spec(v: &'a OperationContext) -> OperationContext {
        *v
    }
}

impl<'a> From<&'a OperationContext> for OperationContext {
    fn from(value: &'a OperationContext) -> (r: Self)
        ensures
            r@ == value@,
    {
        value.clone()
    }
}

impl<'a> FromSpecImpl<&'a std::path::PathBuf> for OperationContext {
    open spec fn obeys_from_spec() -> bool {
        false
    }

    open spec fn from_spec(v: &'a std::path::PathBuf) -> OperationContext {
        choose|c: OperationContext| #[trigger] c.view().items.len() == 1
    }
}

impl<'a> From<&'a std::path::PathBuf> for OperationContext {
    fn from(value: &'a std::path::PathBuf) -> (r: Self)
        ensures
            r@.locator is Some,
            r@ == (ContextView {
                locator: r@.locator,
                ..fields_context(seq![("path"@, r@.locator->0)])
            }),
    {
        OperationContext::from_path(value)
    }
}

impl<'a, 'b> FromSpecImpl<(&'a str, &'b std::path::PathBuf)> for OperationContext {
    open spec fn obeys_from_spec() -> bool {
        false
    }

    open spec fn from_spec(v: (&'a str, &'b std::path::PathBuf)) -> OperationContext {
        choose|c: OperationContext| #[trigger] c.view().items.len() == 1
    }
}

impl<'a, 'b> From<(&'a str, &'b std::path::PathBuf)> for OperationContext {
    fn from(value: (&'a str, &'b std::path::PathBuf)) -> (r: Self)
        ensures
            r@.items.len() == 1,
            r@ == fields_context(seq![(value.0@, r@.items[0].1)]),
    {
        OperationContext::from_path_pair(value.0, value.1)
    }
}

impl<'a> FromSpecImpl<(&'a str, std::path::PathBuf)> for OperationContext {
    open spec fn obeys_from_spec() -> bool {
        false
    }

    open spec fn from_spec(v: (&'a str, std::path::PathBuf)) -> OperationContext {
        choose|c: OperationContext| #[trigger] c.view().items.len() == 1
    }
}

impl<'a> From<(&'a str, std::path::PathBuf)> for OperationContext {
    fn from(value: (&'a str, std::path::PathBuf)) -> (r: Self)
        ensures
            r@.items.len() == 1,
            r@ == fields_context(seq![(value.0@, r@.items[0].1)]),
    {
        OperationContext::from_path_pair(value.0, &value.1)
    }
}

/// Adds a field (or, for an error, a whole context) to a value.
pub trait ContextAdd<T> {
    fn add_context(&mut self, val: T);
}

impl<K: IntoText> ContextAdd<(K, String)> for OperationContext {
    fn add_context(&mut self, val: (K, String))
        ensures
            final(self)@ == (ContextView {
                items: old(self)@.items.push((val.0.text_of(), val.1@)),
                ..old(self)@
            }),
    {
        self.record_field(val.0, val.1);
    }
}

impl<'a, K: IntoText> ContextAdd<(K, &'a String)> for OperationContext {
    fn add_context(&mut self, val: (K, &'a String))
        ensures
            final(self)@ == (ContextView {
                items: old(self)@.items.push((val.0.text_of(), val.1@)),
                ..old(self)@
            }),
    {
        self.record_field(val.0, val.1.clone());
    }
}

impl<'a, K: IntoText> ContextAdd<(K, &'a str)> for OperationContext {
    fn add_context(&mut self, val: (K, &'a str))
        ensures
            final(self)@ == (ContextView {
                items: old(self)@.items.push((val.0.text_of(), val.1@)),
                ..old(self)@
            }),
    {
        self.record_field(val.0, val.1);
    }
}

impl<'a, K: IntoText> ContextAdd<(K, &'a std::path::PathBuf)> for OperationContext {
    fn add_context(&mut self, val: (K, &'a std::path::PathBuf))
        ensures
            final(self)@.items.len() == old(self)@.items.len() + 1,
            final(self)@ == (ContextView {
                items: old(self)@.items.push((val.0.text_of(), final(self)@.items.last().1)),
                ..old(self)@
            }),
    {
        let text = path_display(val.1);
        self.record_field(val.0, text);
    }
}

/// Guard for a scoped [`OperationContext`] lifecycle: when dropped (or
/// finished), it marks the context successful if success was requested.
pub struct OperationScope<'a> {
    /// The guarded context; none once the guard is finished.
    pub ctx: Option<&'a mut OperationContext>,
    /// Whether ending the guard marks the context successful.
    pub mark_success: bool,
    /// What the guard reads as once it no longer holds the context.
    pub released: OperationContext,
}

impl<'a> OperationScope<'a> {
    /// Whether ending the guard will mark the context successful.
    pub closed spec fn marks_success(&self) -> bool {
        self.mark_success
    }

    /// The context the guard holds.
    pub closed spec fn held(&self) -> OperationContext {
        *self.ctx->0
    }

    /// The context as ending the guard leaves it: what the guard holds,
    /// with the result set to success when success is marked.
    pub open spec fn settled(&self) -> ContextView {
        if self.marks_success() {
            ContextView { result: OperationResult::Suc, ..self.held()@ }
        } else {
            self.held()@
        }
    }

    /// Explicitly mark as success.
    pub fn mark_success(&mut self)
        ensures
            final(self).marks_success(),
            final(self).ctx is Some <==> old(self).ctx is Some,
            old(self).ctx is Some ==> final(self).held()@ == old(self).held()@
                && *final(final(self).ctx->0) == *final(old(self).ctx->0),
    {
        self.mark_success = true;
    }

    /// Keep the failure state (the default).
    pub fn mark_failure(&mut self)
        ensures
            !final(self).marks_success(),
            final(self).ctx is Some <==> old(self).ctx is Some,
            old(self).ctx is Some ==> final(self).held()@ == old(self).held()@
                && *final(final(self).ctx->0) == *final(old(self).ctx->0),
    {
        self.mark_success = false;
    }

    /// Mark as cancelled; the guard will not mark success.
    pub fn cancel(&mut self)
        ensures
            !final(self).marks_success(),
            final(self).ctx is Some <==> old(self).ctx is Some,
            old(self).ctx is Some ==> final(self).held()@ == (ContextView {
                result: OperationResult::Cancel,
                ..old(self).held()@
            }) && *final(final(self).ctx->0) == *final(old(self).ctx->0),
    {
        match self.ctx.take() {
            Some(c) => {
                c.mark_cancel();
                self.ctx = Some(c);
            },
            None => {},
        }
        self.mark_success = false;
    }

    /// Ends the guard now, doing what dropping it does: the context keeps
    /// what the guard holds, with the result set to success when success is
    /// marked (see [`settled`](Self::settled)). The guard's borrow ends
    /// here, so the context the guard was made from reads this value.
    pub fn finish(self)
        ensures
            self.ctx is Some ==> (*final(self.ctx->0))@ == self.settled(),
    {
        let mut g = self;
        match g.ctx.take() {
            Some(c) => {
                if g.mark_success {
                    c.result = OperationResult::Suc;
                }
            },
            None => {},
        }
    }

    /// The context the guard holds (or, once it holds none, an empty one).
    pub fn context(&self) -> (r: &OperationContext)
        ensures
            self.ctx is Some ==> r@ == self.held()@,
    {
        match &self.ctx {
            Some(c) => &**c,
            None => &self.released,
        }
    }
}

impl<'a> core::ops::Deref for OperationScope<'a> {
    type Target = OperationContext;

    /// The context the guard holds (see [`context`](Self::context)).
    fn deref(&self) -> (r: &OperationContext)
        ensures
            self.ctx is Some ==> r@ == self.held()@,
    {
        self.context()
    }
}

impl<'a> Drop for OperationScope<'a> {
    /// Settles the guarded context: it keeps what it holds, with the result
    /// set to success when success is marked.
    fn drop(&mut self)
        ensures
            final(self).ctx is Some <==> old(self).ctx is Some,
            old(self).ctx is Some ==> (*final(self).ctx->0)@ == old(self).settled()
                && *final(final(self).ctx->0) == *final(old(self).ctx->0),
        opens_invariants none
        no_unwind
    {
        if self.mark_success {
            match &mut self.ctx {
                Some(c) => {
                    c.result = OperationResult::Suc;
                },
                None => {},
            }
        }
    }
}

impl OperationContext {
    /// A guard that leaves the result as it is when it ends unless
    /// `mark_success` is called. Once the guard is finished, this context
    /// reads what the guard settled it to.
    pub fn scope(&mut self) -> (r: OperationScope<'_>)
        ensures
            !r.marks_success(),
            r.ctx is Some,
            r.held()@ == old(self)@,
            *final(r.ctx->0) == *final(self),
    {
        OperationScope { ctx: Some(self), mark_success: false, released: OperationContext::new() }
    }

    /// A guard that marks the context successful when it ends unless
    /// `mark_failure` or `cancel` is called. Once the guard is finished,
    /// this context reads what the guard settled it to.
    pub fn scoped_success(&mut self) -> (r: OperationScope<'_>)
        ensures
            r.marks_success(),
            r.ctx is Some,
            r.held()@ == old(self)@,
            *final(r.ctx->0) == *final(self),
    {
        OperationScope { ctx: Some(self), mark_success: true, released: OperationContext::new() }
    }

    /// Writes nothing: this library has no log backend. The line that a
    /// backend writes at info level for `message` is
    /// [`log_line`](Self::log_line); the application's logging layer writes it.
    pub fn info(&self, message: &str) {
    }

    /// Writes nothing; the debug-level line is [`log_line`](Self::log_line),
    /// for the application's logging layer to write.
    pub fn debug(&self, message: &str) {
    }

    /// Writes nothing; the warn-level line is [`log_line`](Self::log_line),
    /// for the application's logging layer to write.
    pub fn warn(&self, message: &str) {
    }

    /// Writes nothing; the error-level line is [`log_line`](Self::log_line),
    /// for the application's logging layer to write.
    pub fn error(&self, message: &str) {
    }

    /// Writes nothing; the trace-level line is [`log_line`](Self::log_line),
    /// for the application's logging layer to write.
    pub fn trace(&self, message: &str) {
    }

    /// Same as [`info`](Self::info).
    pub fn log_info(&self, message: &str) {
        self.info(message)
    }

    /// Same as [`debug`](Self::debug).
    pub fn log_debug(&self, message: &str) {
        self.debug(message)
    }

    /// Same as [`warn`](Self::warn).
    pub fn log_warn(&self, message: &str) {
        self.warn(message)
    }

    /// Same as [`error`](Self::error).
    pub fn log_error(&self, message: &str) {
        self.error(message)
    }

    /// Same as [`trace`](Self::trace).
    pub fn log_trace(&self, message: &str) {
        self.trace(message)
    }

    /// The line a log backend writes when this context ends with exit
    /// logging on (see [`exit_text`]); none when exit logging is off.
    pub fn exit_line(&self) -> (r: Option<String>)
        ensures
            ostr(r) == exit_text(self@),
    {
        if !self.exit_log {
            return None;
        }
        let mut out = match self.result {
            OperationResult::Suc => crate::text::owned("suc! "),
            OperationResult::Fail => crate::text::owned("fail! "),
            OperationResult::Cancel => crate::text::owned("cancel! "),
        };
        let ctx = self.format_context();
        out.append(ctx.as_str());
        Some(out)
    }

    /// The record that ends this context's lifecycle when exit logging is
    /// on: the level (info on success, error on failure, warn on
    /// cancellation) and the exit line. None when exit logging is off.
    pub fn exit_record(&self) -> (r: Option<(LogLevel, String)>)
        ensures
            r is None <==> !self@.exit_log,
            r matches Some((l, s)) ==> l == exit_level_of(self@.result) && Some(s@) == exit_text(self@),
    {
        match self.exit_line() {
            None => None,
            Some(line) => {
                let level = match self.result {
                    OperationResult::Suc => LogLevel::Info,
                    OperationResult::Fail => LogLevel::Error,
                    OperationResult::Cancel => LogLevel::Warn,
                };
                Some((level, line))
            },
        }
    }

    /// The line a log backend emits for a message: the context's log text,
    /// `: `, then the message.
    pub fn log_line(&self, message: &str) -> (r: String)
        ensures
            r@ == log_text(self@) + ": "@ + message@,
    {
        let mut out = self.format_context();
        out.append(": ");
        out.append(message);
        out
    }
}

/// The severity at which a log record is written.
#[derive(Debug, Clone, Copy, PartialEq, Eq, Structural)]
pub enum LogLevel {
    Trace,
    Debug,
    Info,
    Warn,
    Error,
}

/// The level of the exit record for a result: info on success, error on
/// failure, warn on cancellation.
pub open spec fn exit_level_of(r: OperationResult) -> LogLevel {
    match r {
        OperationResult::Suc => LogLevel::Info,
        OperationResult::Fail => LogLevel::Error,
        OperationResult::Cancel => LogLevel::Warn,
    }
}

/// The prefix of an exit line for a result.
pub open spec fn exit_prefix(r: OperationResult) -> Seq<char> {
    match r {
        OperationResult::Suc => "suc! "@,
        OperationResult::Fail => "fail! "@,
        OperationResult::Cancel => "cancel! "@,
    }
}

/// The exit line of a context: with exit logging on, the result's prefix
/// and the context's log text.
pub open spec fn exit_text(v: ContextView) -> Option<Seq<char>> {
    if v.exit_log {
        Some(exit_prefix(v.result) + log_text(v))
    } else {
        None
    }
}

/// Adding a segment twice in a row adds it once.
pub proof fn lemma_push_path_segment_twice(
    path: Seq<Seq<char>>,
    locator: Option<Seq<char>>,
    seg: Seq<char>,
)
    ensures
        push_path_segment(push_path_segment(path, locator, seg), locator, seg)
            == push_path_segment(path, locator, seg),
{
    let p1 = push_path_segment(path, locator, seg);
    if seg.len() > 0 {
        let locator_at_end = locator is Some && path.len() > 0 && path.last() == locator->0;
        let idx = if locator_at_end {
            path.len() - 1
        } else {
            path.len() as int
        };
        if p1 != path {
            assert(p1[idx] == seg);
            if locator_at_end {
                assert(p1.last() == locator->0);
            } else if locator is Some && p1.last() == locator->0 {
                assert(p1.last() == seg);
            }
        }
    }
}

/// Recording the same step twice (`with_doing`) records it once.
pub proof fn law_with_doing_idempotent(v: ContextView, a: Seq<char>)
    ensures
        push_doing(push_doing(v, a), a) == push_doing(v, a),
{
    let v1 = push_doing(v, a);
    if a.len() > 0 {
        let w1 = if v.action is None {
            ContextView { action: Some(a), ..v }
        } else {
            v
        };
        let w2 = normalize_target(w1);
        lemma_push_path_segment_twice(w2.path, w2.locator, a);
        assert(normalize_target(v1) == v1);
    }
}

/// Setting the same target twice is the same as setting it once.
pub proof fn law_set_target_idempotent(v: ContextView, t: Seq<char>)
    ensures
        push_target(push_target(v, t), t) == push_target(v, t),
{
    lemma_push_path_segment_twice(v.path, v.locator, t);
}

/// Recording a location makes it the locator and the last path segment.
pub proof fn law_with_at_ends_path(v: ContextView, l: Seq<char>)
    requires
        l.len() > 0,
    ensures
        push_at(v, l).locator == Some(l),
        push_at(v, l).path.last() == l,
        push_at(push_at(v, l), l) == push_at(v, l),
{
}

/// Turning a context into an `at(...)` annotation twice changes nothing more.
pub proof fn law_at_context_idempotent(v: ContextView)
    ensures
        at_context(at_context(v)) == at_context(v),
{
}

/// The normalized path starts with the action when there is one, and ends
/// with the locator when there is one.
pub proof fn law_normalized_path_bounds(v: ContextView)
    ensures
        v.action is Some ==> normalized_path(v).len() > 0 && normalized_path(v)[0] == v.action->0,
        v.locator is Some ==> normalized_path(v).len() > 0 && normalized_path(v).last()
            == v.locator->0,
{
    if v.action is Some {
        lemma_norm_fold_keeps_head(seq![v.action->0], v.path);
    }
}

/// Normalization never drops the head it starts from.
pub proof fn lemma_norm_fold_keeps_head(acc: Seq<Seq<char>>, path: Seq<Seq<char>>)
    requires
        acc.len() > 0,
    ensures
        norm_fold(acc, path).len() > 0,
        norm_fold(acc, path)[0] == acc[0],
    decreases path.len(),
{
    if path.len() > 0 {
        lemma_norm_fold_keeps_head(acc, path.drop_last());
    }
}

/// A value that converts into an [`OperationContext`], as the contexts
/// attached to errors are given.
pub trait IntoContext {
    /// Whether `c` is a context this value converts into.
    spec fn context_ok(&self, c: ContextView) -> bool;

    fn into_context(self) -> (c: OperationContext)
        ensures
            self.context_ok(c@),
    ;
}

impl IntoContext for OperationContext {
    open spec fn context_ok(&self, c: ContextView) -> bool {
        c == self@
    }

    fn into_context(self) -> (c: OperationContext) {
        self
    }
}

impl<'a> IntoContext for &'a OperationContext {
    open spec fn context_ok(&self, c: ContextView) -> bool {
        c == (*self)@
    }

    fn into_context(self) -> (c: OperationContext) {
        self.clone()
    }
}

impl<'a> IntoContext for &'a str {
    open spec fn context_ok(&self, c: ContextView) -> bool {
        c == fields_context(seq![("key"@, (*self)@)])
    }

    fn into_context(self) -> (c: OperationContext) {
        OperationContext::from_pair("key", self)
    }
}

impl IntoContext for String {
    open spec fn context_ok(&self, c: ContextView) -> bool {
        c == fields_context(seq![("key"@, self@)])
    }

    fn into_context(self) -> (c: OperationContext) {
        OperationContext::from_pair("key", self)
    }
}

impl<'a, 'b> IntoContext for (&'a str, &'b str) {
    open spec fn context_ok(&self, c: ContextView) -> bool {
        c == fields_context(seq![(self.0@, self.1@)])
    }

    fn into_context(self) -> (c: OperationContext) {
        OperationContext::from_pair(self.0, self.1)
    }
}

impl<'a> IntoContext for (&'a str, String) {
    open spec fn context_ok(&self, c: ContextView) -> bool {
        c == fields_context(seq![(self.0@, self.1@)])
    }

    fn into_context(self) -> (c: OperationContext) {
        OperationContext::from_pair(self.0, self.1)
    }
}

impl IntoContext for (String, String) {
    open spec fn context_ok(&self, c: ContextView) -> bool {
        c == fields_context(seq![(self.0@, self.1@)])
    }

    fn into_context(self) -> (c: OperationContext) {
        OperationContext::from_pair(self.0, self.1)
    }
}

impl IntoContext for CallContext {
    open spec fn context_ok(&self, c: ContextView) -> bool {
        c == fields_context(pairs(self.items@))
    }

    fn into_context(self) -> (c: OperationContext) {
        OperationContext::from(self)
    }
}

impl<'a> IntoContext for &'a std::path::PathBuf {
    open spec fn context_ok(&self, c: ContextView) -> bool {
        c.locator is Some && c == (ContextView {
            locator: c.locator,
            ..fields_context(seq![("path"@, c.locator->0)])
        })
    }

    fn into_context(self) -> (c: OperationContext) {
        OperationContext::from_path(self)
    }
}



/// A context with a locator names it in its log head, right after the
/// action (`doing=`) or, without one, the target (`want=`), and first
/// when it has neither.
pub proof fn law_log_head_names_locator(v: ContextView)
    ensures
        or_empty(v.locator).len() > 0 && or_empty(v.action).len() > 0 ==> ("doing="@ + or_empty(
            v.action,
        ) + " at="@ + or_empty(v.locator)).is_prefix_of(log_head(v)),
        or_empty(v.locator).len() > 0 && or_empty(v.action).len() == 0 && or_empty(
            compat_target(v),
        ).len() > 0 ==> ("want="@ + or_empty(compat_target(v)) + " at="@ + or_empty(
            v.locator,
        )).is_prefix_of(log_head(v)),
        or_empty(v.locator).len() > 0 && or_empty(v.action).len() == 0 && or_empty(
            compat_target(v),
        ).len() == 0 ==> ("at="@ + or_empty(v.locator)).is_prefix_of(log_head(v)),
{
    reveal_strlit(" ");
    reveal_strlit(" at=");
    reveal_strlit("at=");
    let target = or_empty(compat_target(v));
    let path = or_empty(path_text(normalized_path(v)));
    let action = or_empty(v.action);
    let locator = or_empty(v.locator);
    if locator.len() > 0 {
        let at = "at="@ + locator;
        let tail: Seq<Seq<char>> = if path.len() > 0 && path != target && path != locator {
            seq!["path="@ + path]
        } else {
            Seq::empty()
        };
        crate::text::lemma_join_front(at, tail, " "@);
        let jt = spec_join(seq![at] + tail, " "@);
        assert(at.is_prefix_of(jt)) by {
            assert(at =~= jt.subrange(0, at.len() as int));
        }
        if action.len() > 0 || target.len() > 0 {
            let first = if action.len() > 0 {
                "doing="@ + action
            } else {
                "want="@ + target
            };
            let parts = seq![first] + (seq![at] + tail);
            assert(head_parts(target, path, action, locator) =~= parts);
            crate::text::lemma_join_front(first, seq![at] + tail, " "@);
            let h = log_head(v);
            assert(h == first + " "@ + jt);
            let pre = first + " at="@ + locator;
            assert(pre =~= first + " "@ + at);
            assert(pre =~= h.subrange(0, pre.len() as int));
        } else {
            assert(head_parts(target, path, action, locator) =~= seq![at] + tail);
        }
    }
}

} // verus!
