//! Machine-readable snapshots of an error, and the stable export that drops
//! the fields which do not survive serialization.
use vstd::prelude::*;

use crate::context::{
    compat_target, default_mod_path, normalize_target, normalized_path, ContextView,
    OperationContext, OperationResult,
};
use crate::error::{merged_metadata, path_of, source_frames_of, ErrorView, StructError};
use crate::metadata::{ErrorMetadata, MetaView};
use crate::reason::{DomainReason, ErrorCategory, ErrorIdentityProvider};
use crate::report::{DiagnosticReport, ReportView};
use crate::source::{smol_as_str, smol_new, smol_opt, smol_opt_string, FrameView, SourceFrame};
use crate::text::{clone_opt, clone_pairs, clone_strings, ostr, owned, pairs, strs};

verus! {

/// The schema version of the stable snapshot export.
pub const STABLE_SNAPSHOT_SCHEMA_VERSION: &'static str = "orion-error.snapshot.v3";

/// A context as a snapshot records it.
#[derive(Debug, PartialEq)]
pub struct SnapshotContextFrame {
    /// The frame's root target (the stored target, or else the action).
    pub target: Option<String>,
    /// The action captured by `doing(...)`.
    pub action: Option<String>,
    /// The location captured by `at(...)`.
    pub locator: Option<String>,
    /// The normalized path segments.
    pub path: Vec<String>,
    /// The machine-readable metadata.
    pub metadata: ErrorMetadata,
    /// The ad-hoc key/value fields.
    pub fields: Vec<(String, String)>,
    /// The operation result.
    pub result: OperationResult,
}

/// A context as the stable export records it: without fields and result.
#[derive(Debug, PartialEq)]
pub struct StableSnapshotContextFrame {
    pub target: Option<String>,
    pub action: Option<String>,
    pub locator: Option<String>,
    pub path: Vec<String>,
    pub metadata: ErrorMetadata,
}

/// A source frame as a snapshot records it.
#[derive(Debug, PartialEq)]
pub struct SnapshotSourceFrame {
    pub index: usize,
    /// The frame's message.
    pub message: String,
    /// The formatted display text, when known.
    pub display: Option<String>,
    /// The best-effort runtime type of the error, when known.
    pub error_type: Option<String>,
    pub error_code: Option<i32>,
    pub reason: Option<String>,
    pub path: Option<String>,
    pub detail: Option<String>,
    pub metadata: ErrorMetadata,
    pub is_root_cause: bool,
}

/// A source frame as the stable export records it: without display text
/// and type.
#[derive(Debug, PartialEq)]
pub struct StableSnapshotSourceFrame {
    pub index: usize,
    pub message: String,
    pub error_code: Option<i32>,
    pub reason: Option<String>,
    pub path: Option<String>,
    pub detail: Option<String>,
    pub metadata: ErrorMetadata,
    pub is_root_cause: bool,
}

/// The content of a snapshot context frame.
pub struct SnapCtxView {
    pub target: Option<Seq<char>>,
    pub action: Option<Seq<char>>,
    pub locator: Option<Seq<char>>,
    pub path: Seq<Seq<char>>,
    pub metadata: Seq<(Seq<char>, MetaView)>,
    pub fields: Seq<(Seq<char>, Seq<char>)>,
    pub result: OperationResult,
}

/// The content of a stable context frame.
pub struct StableCtxView {
    pub target: Option<Seq<char>>,
    pub action: Option<Seq<char>>,
    pub locator: Option<Seq<char>>,
    pub path: Seq<Seq<char>>,
    pub metadata: Seq<(Seq<char>, MetaView)>,
}

/// The content of a snapshot source frame.
pub struct SnapSrcView {
    pub index: usize,
    pub message: Seq<char>,
    pub display: Option<Seq<char>>,
    pub error_type: Option<Seq<char>>,
    pub error_code: Option<i32>,
    pub reason: Option<Seq<char>>,
    pub path: Option<Seq<char>>,
    pub detail: Option<Seq<char>>,
    pub metadata: Seq<(Seq<char>, MetaView)>,
    pub is_root_cause: bool,
}

/// The content of a stable source frame.
pub struct StableSrcView {
    pub index: usize,
    pub message: Seq<char>,
    pub error_code: Option<i32>,
    pub reason: Option<Seq<char>>,
    pub path: Option<Seq<char>>,
    pub detail: Option<Seq<char>>,
    pub metadata: Seq<(Seq<char>, MetaView)>,
    pub is_root_cause: bool,
}

impl View for SnapshotContextFrame {
    type V = SnapCtxView;

    open spec fn view(&self) -> SnapCtxView {
        SnapCtxView {
            target: ostr(self.target),
            action: ostr(self.action),
            locator: ostr(self.locator),
            path: strs(self.path@),
            metadata: self.metadata.entries(),
            fields: pairs(self.fields@),
            result: self.result,
        }
    }
}

impl View for StableSnapshotContextFrame {
    type V = StableCtxView;

    open spec fn view(&self) -> StableCtxView {
        StableCtxView {
            target: ostr(self.target),
            action: ostr(self.action),
            locator: ostr(self.locator),
            path: strs(self.path@),
            metadata: self.metadata.entries(),
        }
    }
}

impl View for SnapshotSourceFrame {
    type V = SnapSrcView;

    open spec fn view(&self) -> SnapSrcView {
        SnapSrcView {
            index: self.index,
            message: self.message@,
            display: ostr(self.display),
            error_type: ostr(self.error_type),
            error_code: self.error_code,
            reason: ostr(self.reason),
            path: ostr(self.path),
            detail: ostr(self.detail),
            metadata: self.metadata.entries(),
            is_root_cause: self.is_root_cause,
        }
    }
}

impl View for StableSnapshotSourceFrame {
    type V = StableSrcView;

    open spec fn view(&self) -> StableSrcView {
        StableSrcView {
            index: self.index,
            message: self.message@,
            error_code: self.error_code,
            reason: ostr(self.reason),
            path: ostr(self.path),
            detail: ostr(self.detail),
            metadata: self.metadata.entries(),
            is_root_cause: self.is_root_cause,
        }
    }
}

/// The snapshot frame of a context: its compat target, action, locator,
/// normalized path, metadata, fields and result.
pub open spec fn snap_ctx_of(c: ContextView) -> SnapCtxView {
    SnapCtxView {
        target: compat_target(c),
        action: c.action,
        locator: c.locator,
        path: normalized_path(c),
        metadata: c.metadata,
        fields: c.items,
        result: c.result,
    }
}

/// The context rebuilt from a snapshot frame.
pub open spec fn ctx_of_snap(f: SnapCtxView) -> ContextView {
    normalize_target(
        ContextView {
            items: f.fields,
            result: f.result,
            exit_log: false,
            mod_path: default_mod_path(),
            action: f.action,
            locator: f.locator,
            target: f.target,
            path: f.path,
            metadata: f.metadata,
        },
    )
}

/// The stable form of a snapshot context frame.
pub open spec fn stable_ctx(f: SnapCtxView) -> StableCtxView {
    StableCtxView {
        target: f.target,
        action: f.action,
        locator: f.locator,
        path: f.path,
        metadata: f.metadata,
    }
}

/// A snapshot context frame from its stable form: no fields, a failed
/// result.
pub open spec fn snap_of_stable_ctx(s: StableCtxView) -> SnapCtxView {
    SnapCtxView {
        target: s.target,
        action: s.action,
        locator: s.locator,
        path: s.path,
        metadata: s.metadata,
        fields: Seq::empty(),
        result: OperationResult::Fail,
    }
}

/// The snapshot frame of a source frame.
pub open spec fn snap_src_of(f: FrameView) -> SnapSrcView {
    SnapSrcView {
        index: f.index,
        message: f.message,
        display: f.display,
        error_type: f.error_type,
        error_code: f.error_code,
        reason: f.reason,
        path: f.path,
        detail: f.detail,
        metadata: f.metadata,
        is_root_cause: f.is_root_cause,
    }
}

/// A source frame rebuilt from a snapshot frame: no debug text, no context
/// fields.
pub open spec fn frame_of_snap_src(s: SnapSrcView) -> FrameView {
    FrameView {
        index: s.index,
        message: s.message,
        display: s.display,
        debug: None,
        error_type: s.error_type,
        error_code: s.error_code,
        reason: s.reason,
        path: s.path,
        detail: s.detail,
        context_fields: Seq::empty(),
        metadata: s.metadata,
        is_root_cause: s.is_root_cause,
    }
}

/// The stable form of a snapshot source frame.
pub open spec fn stable_src(s: SnapSrcView) -> StableSrcView {
    StableSrcView {
        index: s.index,
        message: s.message,
        error_code: s.error_code,
        reason: s.reason,
        path: s.path,
        detail: s.detail,
        metadata: s.metadata,
        is_root_cause: s.is_root_cause,
    }
}

/// A snapshot source frame from its stable form: no display text, no type.
pub open spec fn snap_of_stable_src(s: StableSrcView) -> SnapSrcView {
    SnapSrcView {
        index: s.index,
        message: s.message,
        display: None,
        error_type: None,
        error_code: s.error_code,
        reason: s.reason,
        path: s.path,
        detail: s.detail,
        metadata: s.metadata,
        is_root_cause: s.is_root_cause,
    }
}

impl Clone for SnapshotContextFrame {
    fn clone(&self) -> (r: Self)
        ensures
            r@ == self@,
    {
        SnapshotContextFrame {
            target: clone_opt(&self.target),
            action: clone_opt(&self.action),
            locator: clone_opt(&self.locator),
            path: clone_strings(&self.path),
            metadata: self.metadata.clone(),
            fields: clone_pairs(&self.fields),
            result: self.result,
        }
    }
}

impl Clone for StableSnapshotContextFrame {
    fn clone(&self) -> (r: Self)
        ensures
            r@ == self@,
    {
        StableSnapshotContextFrame {
            target: clone_opt(&self.target),
            action: clone_opt(&self.action),
            locator: clone_opt(&self.locator),
            path: clone_strings(&self.path),
            metadata: self.metadata.clone(),
        }
    }
}

impl Clone for SnapshotSourceFrame {
    fn clone(&self) -> (r: Self)
        ensures
            r@ == self@,
    {
        SnapshotSourceFrame {
            index: self.index,
            message: self.message.clone(),
            display: clone_opt(&self.display),
            error_type: clone_opt(&self.error_type),
            error_code: self.error_code,
            reason: clone_opt(&self.reason),
            path: clone_opt(&self.path),
            detail: clone_opt(&self.detail),
            metadata: self.metadata.clone(),
            is_root_cause: self.is_root_cause,
        }
    }
}

impl Clone for StableSnapshotSourceFrame {
    fn clone(&self) -> (r: Self)
        ensures
            r@ == self@,
    {
        StableSnapshotSourceFrame {
            index: self.index,
            message: self.message.clone(),
            error_code: self.error_code,
            reason: clone_opt(&self.reason),
            path: clone_opt(&self.path),
            detail: clone_opt(&self.detail),
            metadata: self.metadata.clone(),
            is_root_cause: self.is_root_cause,
        }
    }
}

impl SnapshotContextFrame {
    /// The snapshot frame of a context (see [`snap_ctx_of`]).
    pub fn from_context(c: &OperationContext) -> (r: Self)
        ensures
            r@ == snap_ctx_of(c@),
    {
        SnapshotContextFrame {
            target: c.compat_target(),
            action: clone_opt(c.action()),
            locator: clone_opt(c.locator()),
            path: c.normalized_path_segments(),
            metadata: c.metadata().clone(),
            fields: clone_pairs(&c.context.items),
            result: c.result,
        }
    }

    /// The context rebuilt from this frame (see [`ctx_of_snap`]).
    pub fn into_context(self) -> (r: OperationContext)
        ensures
            r@ == ctx_of_snap(self@),
    {
        OperationContext::from_projection_parts(
            self.target,
            self.action,
            self.locator,
            self.path,
            self.fields,
            self.metadata,
            self.result,
        )
    }

    /// The stable form (see [`stable_ctx`]).
    pub fn stable_export(&self) -> (r: StableSnapshotContextFrame)
        ensures
            r@ == stable_ctx(self@),
    {
        self.clone().into_stable()
    }

    /// The stable form, consuming the frame.
    pub fn into_stable(self) -> (r: StableSnapshotContextFrame)
        ensures
            r@ == stable_ctx(self@),
    {
        StableSnapshotContextFrame {
            target: self.target,
            action: self.action,
            locator: self.locator,
            path: self.path,
            metadata: self.metadata,
        }
    }
}

impl StableSnapshotContextFrame {
    /// The snapshot frame (see [`snap_of_stable_ctx`]).
    pub fn into_snapshot_frame(self) -> (r: SnapshotContextFrame)
        ensures
            r@ == snap_of_stable_ctx(self@),
    {
        let r = SnapshotContextFrame {
            target: self.target,
            action: self.action,
            locator: self.locator,
            path: self.path,
            metadata: self.metadata,
            fields: Vec::new(),
            result: OperationResult::Fail,
        };
        assert(pairs(r.fields@) =~= Seq::<(Seq<char>, Seq<char>)>::empty());
        r
    }
}

impl SnapshotSourceFrame {
    /// The snapshot frame of a source frame (see [`snap_src_of`]).
    pub fn from_frame(f: &SourceFrame) -> (r: Self)
        ensures
            r@ == snap_src_of(f@),
    {
        SnapshotSourceFrame {
            index: f.index,
            message: owned(smol_as_str(&f.message)),
            display: smol_opt_string(&f.display),
            error_type: smol_opt_string(&f.error_type),
            error_code: f.error_code,
            reason: smol_opt_string(&f.reason),
            path: smol_opt_string(&f.path),
            detail: smol_opt_string(&f.detail),
            metadata: f.metadata.clone(),
            is_root_cause: f.is_root_cause,
        }
    }

    /// The source frame rebuilt from this frame (see [`frame_of_snap_src`]).
    pub fn into_frame(self) -> (r: SourceFrame)
        ensures
            r@ == frame_of_snap_src(self@),
    {
        let r = SourceFrame {
            index: self.index,
            message: smol_new(self.message.as_str()),
            display: smol_opt(&self.display),
            debug: None,
            error_type: smol_opt(&self.error_type),
            error_code: self.error_code,
            reason: smol_opt(&self.reason),
            path: smol_opt(&self.path),
            detail: smol_opt(&self.detail),
            context_fields: Vec::new(),
            metadata: self.metadata,
            is_root_cause: self.is_root_cause,
        };
        assert(crate::source::smol_pairs(r.context_fields@) =~= Seq::<
            (Seq<char>, Seq<char>),
        >::empty());
        r
    }

    /// The stable form (see [`stable_src`]).
    pub fn stable_export(&self) -> (r: StableSnapshotSourceFrame)
        ensures
            r@ == stable_src(self@),
    {
        self.clone().into_stable()
    }

    /// The stable form, consuming the frame.
    pub fn into_stable(self) -> (r: StableSnapshotSourceFrame)
        ensures
            r@ == stable_src(self@),
    {
        StableSnapshotSourceFrame {
            index: self.index,
            message: self.message,
            error_code: self.error_code,
            reason: self.reason,
            path: self.path,
            detail: self.detail,
            metadata: self.metadata,
            is_root_cause: self.is_root_cause,
        }
    }
}

impl StableSnapshotSourceFrame {
    /// The snapshot frame (see [`snap_of_stable_src`]).
    pub fn into_snapshot_frame(self) -> (r: SnapshotSourceFrame)
        ensures
            r@ == snap_of_stable_src(self@),
    {
        SnapshotSourceFrame {
            index: self.index,
            message: self.message,
            display: None,
            error_type: None,
            error_code: self.error_code,
            reason: self.reason,
            path: self.path,
            detail: self.detail,
            metadata: self.metadata,
            is_root_cause: self.is_root_cause,
        }
    }
}


/// A machine-readable snapshot of an error.
#[derive(Debug, PartialEq)]
pub struct ErrorSnapshot {
    pub reason: String,
    pub detail: Option<String>,
    pub position: Option<String>,
    /// The operation path joined with ` / `.
    pub path: Option<String>,
    pub category: ErrorCategory,
    pub code: String,
    pub context: Vec<SnapshotContextFrame>,
    pub root_metadata: ErrorMetadata,
    pub source_frames: Vec<SnapshotSourceFrame>,
}

/// The stable export of a snapshot: versioned, and without the fields that
/// do not survive serialization.
#[derive(Debug, PartialEq)]
pub struct StableErrorSnapshot {
    pub schema_version: &'static str,
    pub reason: String,
    pub detail: Option<String>,
    pub position: Option<String>,
    pub path: Option<String>,
    pub category: ErrorCategory,
    pub code: String,
    pub context: Vec<StableSnapshotContextFrame>,
    pub root_metadata: ErrorMetadata,
    pub source_frames: Vec<StableSnapshotSourceFrame>,
}

/// The content of a snapshot.
pub struct SnapshotView {
    pub reason: Seq<char>,
    pub detail: Option<Seq<char>>,
    pub position: Option<Seq<char>>,
    pub path: Option<Seq<char>>,
    pub category: ErrorCategory,
    pub code: Seq<char>,
    pub context: Seq<SnapCtxView>,
    pub root_metadata: Seq<(Seq<char>, MetaView)>,
    pub source_frames: Seq<SnapSrcView>,
}

/// The content of a stable snapshot.
pub struct StableView {
    pub schema_version: Seq<char>,
    pub reason: Seq<char>,
    pub detail: Option<Seq<char>>,
    pub position: Option<Seq<char>>,
    pub path: Option<Seq<char>>,
    pub category: ErrorCategory,
    pub code: Seq<char>,
    pub context: Seq<StableCtxView>,
    pub root_metadata: Seq<(Seq<char>, MetaView)>,
    pub source_frames: Seq<StableSrcView>,
}

/// The views of snapshot context frames.
pub open spec fn snap_ctx_views(v: Seq<SnapshotContextFrame>) -> Seq<SnapCtxView> {
    v.map_values(|f: SnapshotContextFrame| f@)
}

/// The views of stable context frames.
pub open spec fn stable_ctx_views(v: Seq<StableSnapshotContextFrame>) -> Seq<StableCtxView> {
    v.map_values(|f: StableSnapshotContextFrame| f@)
}

/// The views of snapshot source frames.
pub open spec fn snap_src_views(v: Seq<SnapshotSourceFrame>) -> Seq<SnapSrcView> {
    v.map_values(|f: SnapshotSourceFrame| f@)
}

/// The views of stable source frames.
pub open spec fn stable_src_views(v: Seq<StableSnapshotSourceFrame>) -> Seq<StableSrcView> {
    v.map_values(|f: StableSnapshotSourceFrame| f@)
}

impl View for ErrorSnapshot {
    type V = SnapshotView;

    open spec fn view(&self) -> SnapshotView {
        SnapshotView {
            reason: self.reason@,
            detail: ostr(self.detail),
            position: ostr(self.position),
            path: ostr(self.path),
            category: self.category,
            code: self.code@,
            context: snap_ctx_views(self.context@),
            root_metadata: self.root_metadata.entries(),
            source_frames: snap_src_views(self.source_frames@),
        }
    }
}

impl View for StableErrorSnapshot {
    type V = StableView;

    open spec fn view(&self) -> StableView {
        StableView {
            schema_version: self.schema_version@,
            reason: self.reason@,
            detail: ostr(self.detail),
            position: ostr(self.position),
            path: ostr(self.path),
            category: self.category,
            code: self.code@,
            context: stable_ctx_views(self.context@),
            root_metadata: self.root_metadata.entries(),
            source_frames: stable_src_views(self.source_frames@),
        }
    }
}

/// The snapshot of an error: reason text, detail, position, path, identity,
/// context frames, merged context metadata and source frames.
pub open spec fn snapshot_of<T: DomainReason + ErrorIdentityProvider>(e: ErrorView<T>) -> SnapshotView {
    SnapshotView {
        reason: e.reason.spec_message(),
        detail: e.detail,
        position: e.position,
        path: path_of(e.context),
        category: e.reason.spec_error_category(),
        code: e.reason.spec_stable_code(),
        context: e.context.map_values(|c: ContextView| snap_ctx_of(c)),
        root_metadata: merged_metadata(e.context),
        source_frames: source_frames_of(e).map_values(|f: FrameView| snap_src_of(f)),
    }
}

/// The stable export of a snapshot.
pub open spec fn stable_of(s: SnapshotView) -> StableView {
    StableView {
        schema_version: STABLE_SNAPSHOT_SCHEMA_VERSION@,
        reason: s.reason,
        detail: s.detail,
        position: s.position,
        path: s.path,
        category: s.category,
        code: s.code,
        context: s.context.map_values(|f: SnapCtxView| stable_ctx(f)),
        root_metadata: s.root_metadata,
        source_frames: s.source_frames.map_values(|f: SnapSrcView| stable_src(f)),
    }
}

/// A snapshot from its stable export: the dropped fields take their
/// defaults.
pub open spec fn compat_of(s: StableView) -> SnapshotView {
    SnapshotView {
        reason: s.reason,
        detail: s.detail,
        position: s.position,
        path: s.path,
        category: s.category,
        code: s.code,
        context: s.context.map_values(|f: StableCtxView| snap_of_stable_ctx(f)),
        root_metadata: s.root_metadata,
        source_frames: s.source_frames.map_values(|f: StableSrcView| snap_of_stable_src(f)),
    }
}

/// The report of a snapshot: its texts and its context frames rebuilt as
/// contexts.
pub open spec fn report_of_snapshot(s: SnapshotView) -> ReportView {
    ReportView {
        reason: s.reason,
        detail: s.detail,
        position: s.position,
        context: s.context.map_values(|f: SnapCtxView| ctx_of_snap(f)),
    }
}

/// The report of a stable snapshot.
pub open spec fn report_of_stable(s: StableView) -> ReportView {
    ReportView {
        reason: s.reason,
        detail: s.detail,
        position: s.position,
        context: s.context.map_values(|f: StableCtxView| ctx_of_snap(snap_of_stable_ctx(f))),
    }
}

/// The first frame from position `i` on that is marked as the root cause.
pub open spec fn first_root_snap(fs: Seq<SnapSrcView>, i: int) -> Option<SnapSrcView>
    decreases fs.len() - i,
{
    if i < 0 || i >= fs.len() {
        None
    } else if fs[i].is_root_cause {
        Some(fs[i])
    } else {
        first_root_snap(fs, i + 1)
    }
}

/// The frames from `i` on, read in order, against their first root cause.
proof fn lemma_first_root_snap_from(fs: Seq<SnapSrcView>, i: int)
    requires
        0 <= i <= fs.len(),
    ensures
        first_root_snap(fs, i) is None <==> forall|k: int|
            i <= k < fs.len() ==> !(#[trigger] fs[k]).is_root_cause,
        first_root_snap(fs, i) is Some ==> exists|j: int|
            i <= j < fs.len() && first_root_snap(fs, i) == Some(fs[j]) && (#[trigger] fs[j]).is_root_cause
                && forall|k: int| i <= k < j ==> !(#[trigger] fs[k]).is_root_cause,
    decreases fs.len() - i,
{
    if i < fs.len() {
        lemma_first_root_snap_from(fs, i + 1);
        if !fs[i].is_root_cause && first_root_snap(fs, i + 1) is Some {
            let j = choose|j: int|
                i + 1 <= j < fs.len() && first_root_snap(fs, i + 1) == Some(fs[j])
                    && (#[trigger] fs[j]).is_root_cause && forall|k: int|
                    i + 1 <= k < j ==> !(#[trigger] fs[k]).is_root_cause;
            assert(forall|k: int| i <= k < j ==> !(#[trigger] fs[k]).is_root_cause);
        }
        if fs[i].is_root_cause {
            assert(forall|k: int| i <= k < i ==> !(#[trigger] fs[k]).is_root_cause);
        }
    }
}

/// The root source frame of a snapshot is its first frame flagged as the
/// root cause, and there is none exactly when no frame is flagged (no
/// fallback to the last frame).
pub proof fn law_root_source_frame_is_first_flagged(fs: Seq<SnapSrcView>)
    ensures
        first_root_snap(fs, 0) is None <==> forall|k: int|
            0 <= k < fs.len() ==> !(#[trigger] fs[k]).is_root_cause,
        first_root_snap(fs, 0) is Some ==> exists|j: int|
            0 <= j < fs.len() && first_root_snap(fs, 0) == Some(fs[j]) && (#[trigger] fs[j]).is_root_cause
                && forall|k: int| 0 <= k < j ==> !(#[trigger] fs[k]).is_root_cause,
{
    lemma_first_root_snap_from(fs, 0);
}

fn clone_snap_ctxs(v: &Vec<SnapshotContextFrame>) -> (r: Vec<SnapshotContextFrame>)
    ensures
        snap_ctx_views(r@) == snap_ctx_views(v@),
{
    let mut r: Vec<SnapshotContextFrame> = Vec::new();
    let mut i: usize = 0;
    while i < v.len()
        invariant
            i <= v.len(),
            r@.len() == i,
            forall|j: int| 0 <= j < i ==> #[trigger] r@[j]@ == v@[j]@,
        decreases v.len() - i,
    {
        r.push(v[i].clone());
        i += 1;
    }
    assert(snap_ctx_views(r@) =~= snap_ctx_views(v@));
    r
}

fn clone_snap_srcs(v: &Vec<SnapshotSourceFrame>) -> (r: Vec<SnapshotSourceFrame>)
    ensures
        snap_src_views(r@) == snap_src_views(v@),
{
    let mut r: Vec<SnapshotSourceFrame> = Vec::new();
    let mut i: usize = 0;
    while i < v.len()
        invariant
            i <= v.len(),
            r@.len() == i,
            forall|j: int| 0 <= j < i ==> #[trigger] r@[j]@ == v@[j]@,
        decreases v.len() - i,
    {
        r.push(v[i].clone());
        i += 1;
    }
    assert(snap_src_views(r@) =~= snap_src_views(v@));
    r
}

fn clone_stable_ctxs(v: &Vec<StableSnapshotContextFrame>) -> (r: Vec<StableSnapshotContextFrame>)
    ensures
        stable_ctx_views(r@) == stable_ctx_views(v@),
{
    let mut r: Vec<StableSnapshotContextFrame> = Vec::new();
    let mut i: usize = 0;
    while i < v.len()
        invariant
            i <= v.len(),
            r@.len() == i,
            forall|j: int| 0 <= j < i ==> #[trigger] r@[j]@ == v@[j]@,
        decreases v.len() - i,
    {
        r.push(v[i].clone());
        i += 1;
    }
    assert(stable_ctx_views(r@) =~= stable_ctx_views(v@));
    r
}

fn clone_stable_srcs(v: &Vec<StableSnapshotSourceFrame>) -> (r: Vec<StableSnapshotSourceFrame>)
    ensures
        stable_src_views(r@) == stable_src_views(v@),
{
    let mut r: Vec<StableSnapshotSourceFrame> = Vec::new();
    let mut i: usize = 0;
    while i < v.len()
        invariant
            i <= v.len(),
            r@.len() == i,
            forall|j: int| 0 <= j < i ==> #[trigger] r@[j]@ == v@[j]@,
        decreases v.len() - i,
    {
        r.push(v[i].clone());
        i += 1;
    }
    assert(stable_src_views(r@) =~= stable_src_views(v@));
    r
}

impl Clone for ErrorSnapshot {
    fn clone(&self) -> (r: Self)
        ensures
            r@ == self@,
    {
        ErrorSnapshot {
            reason: self.reason.clone(),
            detail: clone_opt(&self.detail),
            position: clone_opt(&self.position),
            path: clone_opt(&self.path),
            category: self.category,
            code: self.code.clone(),
            context: clone_snap_ctxs(&self.context),
            root_metadata: self.root_metadata.clone(),
            source_frames: clone_snap_srcs(&self.source_frames),
        }
    }
}

impl Clone for StableErrorSnapshot {
    fn clone(&self) -> (r: Self)
        ensures
            r@ == self@,
    {
        StableErrorSnapshot {
            schema_version: self.schema_version,
            reason: self.reason.clone(),
            detail: clone_opt(&self.detail),
            position: clone_opt(&self.position),
            path: clone_opt(&self.path),
            category: self.category,
            code: self.code.clone(),
            context: clone_stable_ctxs(&self.context),
            root_metadata: self.root_metadata.clone(),
            source_frames: clone_stable_srcs(&self.source_frames),
        }
    }
}

fn contexts_of_snap(v: Vec<SnapshotContextFrame>) -> (r: Vec<OperationContext>)
    ensures
        crate::error::ctx_views(r@) == snap_ctx_views(v@).map_values(|f: SnapCtxView| ctx_of_snap(f)),
{
    let mut v = v;
    let ghost orig = snap_ctx_views(v@);
    let ghost orig_v = v@;
    let mut out: Vec<OperationContext> = Vec::new();
    let ghost n = orig.len();
    while v.len() > 0
        invariant
            out@.len() + v@.len() == n,
            n == orig.len(),
            orig == snap_ctx_views(orig_v),
            v@ == orig_v.subrange(out@.len() as int, n as int),
            forall|j: int| 0 <= j < out@.len() ==> #[trigger] out@[j]@ == ctx_of_snap(orig[j]),
        decreases v.len(),
    {
        let ghost k = out@.len();
        let f = v.remove(0);
        assert(f@ == orig[k as int]);
        out.push(f.into_context());
        assert(out@[k as int]@ == ctx_of_snap(orig[k as int]));
    }
    assert(crate::error::ctx_views(out@) =~= orig.map_values(|f: SnapCtxView| ctx_of_snap(f)));
    out
}

fn stable_ctxs_of(v: Vec<SnapshotContextFrame>) -> (r: Vec<StableSnapshotContextFrame>)
    ensures
        stable_ctx_views(r@) == snap_ctx_views(v@).map_values(|f: SnapCtxView| stable_ctx(f)),
{
    let mut v = v;
    let ghost orig = snap_ctx_views(v@);
    let ghost orig_v = v@;
    let mut out: Vec<StableSnapshotContextFrame> = Vec::new();
    let ghost n = orig.len();
    while v.len() > 0
        invariant
            out@.len() + v@.len() == n,
            n == orig.len(),
            orig == snap_ctx_views(orig_v),
            v@ == orig_v.subrange(out@.len() as int, n as int),
            forall|j: int| 0 <= j < out@.len() ==> #[trigger] out@[j]@ == stable_ctx(orig[j]),
        decreases v.len(),
    {
        let ghost k = out@.len();
        let f = v.remove(0);
        assert(f@ == orig[k as int]);
        out.push(f.into_stable());
        assert(out@[k as int]@ == stable_ctx(orig[k as int]));
    }
    assert(stable_ctx_views(out@) =~= orig.map_values(|f: SnapCtxView| stable_ctx(f)));
    out
}

fn stable_srcs_of(v: Vec<SnapshotSourceFrame>) -> (r: Vec<StableSnapshotSourceFrame>)
    ensures
        stable_src_views(r@) == snap_src_views(v@).map_values(|f: SnapSrcView| stable_src(f)),
{
    let mut v = v;
    let ghost orig = snap_src_views(v@);
    let ghost orig_v = v@;
    let mut out: Vec<StableSnapshotSourceFrame> = Vec::new();
    let ghost n = orig.len();
    while v.len() > 0
        invariant
            out@.len() + v@.len() == n,
            n == orig.len(),
            orig == snap_src_views(orig_v),
            v@ == orig_v.subrange(out@.len() as int, n as int),
            forall|j: int| 0 <= j < out@.len() ==> #[trigger] out@[j]@ == stable_src(orig[j]),
        decreases v.len(),
    {
        let ghost k = out@.len();
        let f = v.remove(0);
        assert(f@ == orig[k as int]);
        out.push(f.into_stable());
        assert(out@[k as int]@ == stable_src(orig[k as int]));
    }
    assert(stable_src_views(out@) =~= orig.map_values(|f: SnapSrcView| stable_src(f)));
    out
}

fn snap_ctxs_of_stable(v: Vec<StableSnapshotContextFrame>) -> (r: Vec<SnapshotContextFrame>)
    ensures
        snap_ctx_views(r@) == stable_ctx_views(v@).map_values(
            |f: StableCtxView| snap_of_stable_ctx(f),
        ),
{
    let mut v = v;
    let ghost orig = stable_ctx_views(v@);
    let ghost orig_v = v@;
    let mut out: Vec<SnapshotContextFrame> = Vec::new();
    let ghost n = orig.len();
    while v.len() > 0
        invariant
            out@.len() + v@.len() == n,
            n == orig.len(),
            orig == stable_ctx_views(orig_v),
            v@ == orig_v.subrange(out@.len() as int, n as int),
            forall|j: int| 0 <= j < out@.len() ==> #[trigger] out@[j]@ == snap_of_stable_ctx(orig[j]),
        decreases v.len(),
    {
        let ghost k = out@.len();
        let f = v.remove(0);
        assert(f@ == orig[k as int]);
        out.push(f.into_snapshot_frame());
        assert(out@[k as int]@ == snap_of_stable_ctx(orig[k as int]));
    }
    assert(snap_ctx_views(out@) =~= orig.map_values(|f: StableCtxView| snap_of_stable_ctx(f)));
    out
}

fn snap_srcs_of_stable(v: Vec<StableSnapshotSourceFrame>) -> (r: Vec<SnapshotSourceFrame>)
    ensures
        snap_src_views(r@) == stable_src_views(v@).map_values(
            |f: StableSrcView| snap_of_stable_src(f),
        ),
{
    let mut v = v;
    let ghost orig = stable_src_views(v@);
    let ghost orig_v = v@;
    let mut out: Vec<SnapshotSourceFrame> = Vec::new();
    let ghost n = orig.len();
    while v.len() > 0
        invariant
            out@.len() + v@.len() == n,
            n == orig.len(),
            orig == stable_src_views(orig_v),
            v@ == orig_v.subrange(out@.len() as int, n as int),
            forall|j: int| 0 <= j < out@.len() ==> #[trigger] out@[j]@ == snap_of_stable_src(orig[j]),
        decreases v.len(),
    {
        let ghost k = out@.len();
        let f = v.remove(0);
        assert(f@ == orig[k as int]);
        out.push(f.into_snapshot_frame());
        assert(out@[k as int]@ == snap_of_stable_src(orig[k as int]));
    }
    assert(snap_src_views(out@) =~= orig.map_values(|f: StableSrcView| snap_of_stable_src(f)));
    out
}

impl ErrorSnapshot {
    /// The context frames.
    pub fn stable_context(&self) -> (r: &[SnapshotContextFrame])
        ensures
            snap_ctx_views(r@) == self@.context,
    {
        self.context.as_slice()
    }

    /// The source frames.
    pub fn stable_source_frames(&self) -> (r: &[SnapshotSourceFrame])
        ensures
            snap_src_views(r@) == self@.source_frames,
    {
        self.source_frames.as_slice()
    }

    /// The first source frame marked as the root cause.
    pub fn root_source_frame(&self) -> (r: Option<&SnapshotSourceFrame>)
        ensures
            match first_root_snap(self@.source_frames, 0) {
                Some(f) => r is Some && r->0@ == f,
                None => r is None,
            },
    {
        let mut i: usize = 0;
        while i < self.source_frames.len()
            invariant
                i <= self.source_frames.len(),
                first_root_snap(self@.source_frames, 0) == first_root_snap(
                    self@.source_frames,
                    i as int,
                ),
            decreases self.source_frames.len() - i,
        {
            if self.source_frames[i].is_root_cause {
                return Some(&self.source_frames[i]);
            }
            i += 1;
        }
        None
    }

    /// The stable export (see [`stable_of`]).
    pub fn stable_export(&self) -> (r: StableErrorSnapshot)
        ensures
            r@ == stable_of(self@),
    {
        self.clone().into_stable_export()
    }

    /// The stable export, consuming the snapshot.
    pub fn into_stable_export(self) -> (r: StableErrorSnapshot)
        ensures
            r@ == stable_of(self@),
    {
        StableErrorSnapshot {
            schema_version: STABLE_SNAPSHOT_SCHEMA_VERSION,
            reason: self.reason,
            detail: self.detail,
            position: self.position,
            path: self.path,
            category: self.category,
            code: self.code,
            context: stable_ctxs_of(self.context),
            root_metadata: self.root_metadata,
            source_frames: stable_srcs_of(self.source_frames),
        }
    }

    /// The diagnostic report (see [`report_of_snapshot`]).
    pub fn report(&self) -> (r: DiagnosticReport)
        ensures
            r@ == report_of_snapshot(self@),
    {
        self.clone().into_report()
    }

    /// The diagnostic report, consuming the snapshot.
    pub fn into_report(self) -> (r: DiagnosticReport)
        ensures
            r@ == report_of_snapshot(self@),
    {
        DiagnosticReport::from_parts(
            self.reason,
            self.detail,
            self.position,
            contexts_of_snap(self.context),
        )
    }
}

impl StableErrorSnapshot {
    /// The schema version.
    pub fn schema_version(&self) -> (r: &'static str)
        ensures
            r@ == self@.schema_version,
    {
        self.schema_version
    }

    /// The reason text.
    pub fn reason(&self) -> (r: &str)
        ensures
            r@ == self@.reason,
    {
        self.reason.as_str()
    }

    /// The detail, if any.
    pub fn detail(&self) -> (r: Option<&str>)
        ensures
            crate::report::okey(r) == self@.detail,
    {
        match &self.detail {
            Some(d) => Some(d.as_str()),
            None => None,
        }
    }

    /// The position, if any.
    pub fn position(&self) -> (r: Option<&str>)
        ensures
            crate::report::okey(r) == self@.position,
    {
        match &self.position {
            Some(d) => Some(d.as_str()),
            None => None,
        }
    }

    /// The operation path, if any.
    pub fn path(&self) -> (r: Option<&str>)
        ensures
            crate::report::okey(r) == self@.path,
    {
        match &self.path {
            Some(d) => Some(d.as_str()),
            None => None,
        }
    }

    /// The category.
    pub fn category(&self) -> (r: ErrorCategory)
        ensures
            r == self@.category,
    {
        self.category
    }

    /// The stable code.
    pub fn code(&self) -> (r: &str)
        ensures
            r@ == self@.code,
    {
        self.code.as_str()
    }

    /// The merged context metadata.
    pub fn root_metadata(&self) -> (r: &ErrorMetadata)
        ensures
            r.entries() == self@.root_metadata,
    {
        &self.root_metadata
    }

    /// The diagnostic report (see [`report_of_stable`]).
    pub fn report(&self) -> (r: DiagnosticReport)
        ensures
            r@ == report_of_stable(self@),
    {
        self.clone().into_report()
    }

    /// The diagnostic report, consuming the snapshot.
    pub fn into_report(self) -> (r: DiagnosticReport)
        ensures
            r@ == report_of_stable(self@),
    {
        let frames = snap_ctxs_of_stable(self.context);
        let r = DiagnosticReport::from_parts(
            self.reason,
            self.detail,
            self.position,
            contexts_of_snap(frames),
        );
        assert(r@.context =~= report_of_stable(self@).context);
        r
    }
}

/// Going back from a stable export to a full snapshot.
pub trait StableSnapshotCompat {
    fn compat_export(&self) -> ErrorSnapshot;

    fn into_compat_export(self) -> ErrorSnapshot;
}

impl StableSnapshotCompat for StableErrorSnapshot {
    /// The snapshot with the dropped fields at their defaults (see
    /// [`compat_of`]).
    fn compat_export(&self) -> (r: ErrorSnapshot)
        ensures
            r@ == compat_of(self@),
    {
        self.clone().into_compat_export()
    }

    /// The snapshot, consuming the stable export.
    fn into_compat_export(self) -> (r: ErrorSnapshot)
        ensures
            r@ == compat_of(self@),
    {
        ErrorSnapshot {
            reason: self.reason,
            detail: self.detail,
            position: self.position,
            path: self.path,
            category: self.category,
            code: self.code,
            context: snap_ctxs_of_stable(self.context),
            root_metadata: self.root_metadata,
            source_frames: snap_srcs_of_stable(self.source_frames),
        }
    }
}

impl<T: DomainReason + ErrorIdentityProvider> StructError<T> {
    /// The snapshot of this error (see [`snapshot_of`]).
    pub fn snapshot(&self) -> (r: ErrorSnapshot)
        ensures
            r@ == snapshot_of(self@),
    {
        let cs = self.contexts();
        let mut context: Vec<SnapshotContextFrame> = Vec::new();
        let mut i: usize = 0;
        while i < cs.len()
            invariant
                i <= cs.len(),
                context@.len() == i,
                forall|j: int| 0 <= j < i ==> #[trigger] context@[j]@ == snap_ctx_of(cs@[j]@),
            decreases cs.len() - i,
        {
            context.push(SnapshotContextFrame::from_context(&cs[i]));
            i += 1;
        }
        let fs = self.source_frames();
        let mut frames: Vec<SnapshotSourceFrame> = Vec::new();
        let mut k: usize = 0;
        while k < fs.len()
            invariant
                k <= fs.len(),
                frames@.len() == k,
                forall|j: int| 0 <= j < k ==> #[trigger] frames@[j]@ == snap_src_of(fs@[j]@),
            decreases fs.len() - k,
        {
            frames.push(SnapshotSourceFrame::from_frame(&fs[k]));
            k += 1;
        }
        let r = ErrorSnapshot {
            reason: self.reason().message(),
            detail: clone_opt(self.detail()),
            position: clone_opt(self.position()),
            path: self.target_path(),
            category: self.reason().error_category(),
            code: owned(self.reason().stable_code()),
            context,
            root_metadata: self.context_metadata(),
            source_frames: frames,
        };
        assert(r@.context =~= snapshot_of(self@).context);
        assert(r@.source_frames =~= snapshot_of(self@).source_frames);
        r
    }

    /// The snapshot, consuming the error.
    pub fn into_snapshot(self) -> (r: ErrorSnapshot)
        ensures
            r@ == snapshot_of(self@),
    {
        self.snapshot()
    }
}

impl From<OperationContext> for SnapshotContextFrame {
    fn from(value: OperationContext) -> (r: Self)
        ensures
            r@ == snap_ctx_of(value@),
    {
        SnapshotContextFrame::from_context(&value)
    }
}

impl vstd::std_specs::convert::FromSpecImpl<OperationContext> for SnapshotContextFrame {
    open spec fn obeys_from_spec() -> bool {
        false
    }

    open spec fn from_spec(v: OperationContext) -> Self {
        choose|r: Self| #[trigger] r.view() == snap_ctx_of(v@)
    }
}

impl From<SnapshotContextFrame> for OperationContext {
    fn from(value: SnapshotContextFrame) -> (r: Self)
        ensures
            r@ == ctx_of_snap(value@),
    {
        value.into_context()
    }
}

impl vstd::std_specs::convert::FromSpecImpl<SnapshotContextFrame> for OperationContext {
    open spec fn obeys_from_spec() -> bool {
        false
    }

    open spec fn from_spec(v: SnapshotContextFrame) -> Self {
        choose|r: Self| #[trigger] r.view() == ctx_of_snap(v@)
    }
}

impl From<StableSnapshotContextFrame> for OperationContext {
    fn from(value: StableSnapshotContextFrame) -> (r: Self)
        ensures
            r@ == ctx_of_snap(snap_of_stable_ctx(value@)),
    {
        value.into_snapshot_frame().into_context()
    }
}

impl vstd::std_specs::convert::FromSpecImpl<StableSnapshotContextFrame> for OperationContext {
    open spec fn obeys_from_spec() -> bool {
        false
    }

    open spec fn from_spec(v: StableSnapshotContextFrame) -> Self {
        choose|r: Self| #[trigger] r.view() == ctx_of_snap(snap_of_stable_ctx(v@))
    }
}

impl<'a> From<&'a StableSnapshotContextFrame> for OperationContext {
    fn from(value: &'a StableSnapshotContextFrame) -> (r: Self)
        ensures
            r@ == ctx_of_snap(snap_of_stable_ctx(value@)),
    {
        value.clone().into_snapshot_frame().into_context()
    }
}

impl<'a> vstd::std_specs::convert::FromSpecImpl<&'a StableSnapshotContextFrame> for OperationContext {
    open spec fn obeys_from_spec() -> bool {
        false
    }

    open spec fn from_spec(v: &'a StableSnapshotContextFrame) -> Self {
        choose|r: Self| #[trigger] r.view() == ctx_of_snap(snap_of_stable_ctx(v@))
    }
}

impl From<SnapshotContextFrame> for StableSnapshotContextFrame {
    fn from(value: SnapshotContextFrame) -> (r: Self)
        ensures
            r@ == stable_ctx(value@),
    {
        value.into_stable()
    }
}

impl vstd::std_specs::convert::FromSpecImpl<SnapshotContextFrame> for StableSnapshotContextFrame {
    open spec fn obeys_from_spec() -> bool {
        false
    }

    open spec fn from_spec(v: SnapshotContextFrame) -> Self {
        choose|r: Self| #[trigger] r.view() == stable_ctx(v@)
    }
}

impl<'a> From<&'a SnapshotContextFrame> for StableSnapshotContextFrame {
    fn from(value: &'a SnapshotContextFrame) -> (r: Self)
        ensures
            r@ == stable_ctx(value@),
    {
        value.stable_export()
    }
}

impl<'a> vstd::std_specs::convert::FromSpecImpl<&'a SnapshotContextFrame> for StableSnapshotContextFrame {
    open spec fn obeys_from_spec() -> bool {
        false
    }

    open spec fn from_spec(v: &'a SnapshotContextFrame) -> Self {
        choose|r: Self| #[trigger] r.view() == stable_ctx(v@)
    }
}

impl From<StableSnapshotContextFrame> for SnapshotContextFrame {
    fn from(value: StableSnapshotContextFrame) -> (r: Self)
        ensures
            r@ == snap_of_stable_ctx(value@),
    {
        value.into_snapshot_frame()
    }
}

impl vstd::std_specs::convert::FromSpecImpl<StableSnapshotContextFrame> for SnapshotContextFrame {
    open spec fn obeys_from_spec() -> bool {
        false
    }

    open spec fn from_spec(v: StableSnapshotContextFrame) -> Self {
        choose|r: Self| #[trigger] r.view() == snap_of_stable_ctx(v@)
    }
}

impl<'a> From<&'a StableSnapshotContextFrame> for SnapshotContextFrame {
    fn from(value: &'a StableSnapshotContextFrame) -> (r: Self)
        ensures
            r@ == snap_of_stable_ctx(value@),
    {
        value.clone().into_snapshot_frame()
    }
}

impl<'a> vstd::std_specs::convert::FromSpecImpl<&'a StableSnapshotContextFrame> for SnapshotContextFrame {
    open spec fn obeys_from_spec() -> bool {
        false
    }

    open spec fn from_spec(v: &'a StableSnapshotContextFrame) -> Self {
        choose|r: Self| #[trigger] r.view() == snap_of_stable_ctx(v@)
    }
}

impl From<SnapshotSourceFrame> for StableSnapshotSourceFrame {
    fn from(value: SnapshotSourceFrame) -> (r: Self)
        ensures
            r@ == stable_src(value@),
    {
        value.into_stable()
    }
}

impl vstd::std_specs::convert::FromSpecImpl<SnapshotSourceFrame> for StableSnapshotSourceFrame {
    open spec fn obeys_from_spec() -> bool {
        false
    }

    open spec fn from_spec(v: SnapshotSourceFrame) -> Self {
        choose|r: Self| #[trigger] r.view() == stable_src(v@)
    }
}

impl<'a> From<&'a SnapshotSourceFrame> for StableSnapshotSourceFrame {
    fn from(value: &'a SnapshotSourceFrame) -> (r: Self)
        ensures
            r@ == stable_src(value@),
    {
        value.stable_export()
    }
}

impl<'a> vstd::std_specs::convert::FromSpecImpl<&'a SnapshotSourceFrame> for StableSnapshotSourceFrame {
    open spec fn obeys_from_spec() -> bool {
        false
    }

    open spec fn from_spec(v: &'a SnapshotSourceFrame) -> Self {
        choose|r: Self| #[trigger] r.view() == stable_src(v@)
    }
}

impl From<StableSnapshotSourceFrame> for SnapshotSourceFrame {
    fn from(value: StableSnapshotSourceFrame) -> (r: Self)
        ensures
            r@ == snap_of_stable_src(value@),
    {
        value.into_snapshot_frame()
    }
}

impl vstd::std_specs::convert::FromSpecImpl<StableSnapshotSourceFrame> for SnapshotSourceFrame {
    open spec fn obeys_from_spec() -> bool {
        false
    }

    open spec fn from_spec(v: StableSnapshotSourceFrame) -> Self {
        choose|r: Self| #[trigger] r.view() == snap_of_stable_src(v@)
    }
}

impl<'a> From<&'a StableSnapshotSourceFrame> for SnapshotSourceFrame {
    fn from(value: &'a StableSnapshotSourceFrame) -> (r: Self)
        ensures
            r@ == snap_of_stable_src(value@),
    {
        value.clone().into_snapshot_frame()
    }
}

impl<'a> vstd::std_specs::convert::FromSpecImpl<&'a StableSnapshotSourceFrame> for SnapshotSourceFrame {
    open spec fn obeys_from_spec() -> bool {
        false
    }

    open spec fn from_spec(v: &'a StableSnapshotSourceFrame) -> Self {
        choose|r: Self| #[trigger] r.view() == snap_of_stable_src(v@)
    }
}

impl From<SourceFrame> for SnapshotSourceFrame {
    fn from(value: SourceFrame) -> (r: Self)
        ensures
            r@ == snap_src_of(value@),
    {
        SnapshotSourceFrame::from_frame(&value)
    }
}

impl vstd::std_specs::convert::FromSpecImpl<SourceFrame> for SnapshotSourceFrame {
    open spec fn obeys_from_spec() -> bool {
        false
    }

    open spec fn from_spec(v: SourceFrame) -> Self {
        choose|r: Self| #[trigger] r.view() == snap_src_of(v@)
    }
}

impl From<SnapshotSourceFrame> for SourceFrame {
    fn from(value: SnapshotSourceFrame) -> (r: Self)
        ensures
            r@ == frame_of_snap_src(value@),
    {
        value.into_frame()
    }
}

impl vstd::std_specs::convert::FromSpecImpl<SnapshotSourceFrame> for SourceFrame {
    open spec fn obeys_from_spec() -> bool {
        false
    }

    open spec fn from_spec(v: SnapshotSourceFrame) -> Self {
        choose|r: Self| #[trigger] r.view() == frame_of_snap_src(v@)
    }
}

impl From<StableSnapshotSourceFrame> for SourceFrame {
    fn from(value: StableSnapshotSourceFrame) -> (r: Self)
        ensures
            r@ == frame_of_snap_src(snap_of_stable_src(value@)),
    {
        value.into_snapshot_frame().into_frame()
    }
}

impl vstd::std_specs::convert::FromSpecImpl<StableSnapshotSourceFrame> for SourceFrame {
    open spec fn obeys_from_spec() -> bool {
        false
    }

    open spec fn from_spec(v: StableSnapshotSourceFrame) -> Self {
        choose|r: Self| #[trigger] r.view() == frame_of_snap_src(snap_of_stable_src(v@))
    }
}

impl<'a> From<&'a StableSnapshotSourceFrame> for SourceFrame {
    fn from(value: &'a StableSnapshotSourceFrame) -> (r: Self)
        ensures
            r@ == frame_of_snap_src(snap_of_stable_src(value@)),
    {
        value.clone().into_snapshot_frame().into_frame()
    }
}

impl<'a> vstd::std_specs::convert::FromSpecImpl<&'a StableSnapshotSourceFrame> for SourceFrame {
    open spec fn obeys_from_spec() -> bool {
        false
    }

    open spec fn from_spec(v: &'a StableSnapshotSourceFrame) -> Self {
        choose|r: Self| #[trigger] r.view() == frame_of_snap_src(snap_of_stable_src(v@))
    }
}

impl<'a, T: DomainReason + ErrorIdentityProvider> From<&'a StructError<T>> for ErrorSnapshot {
    fn from(value: &'a StructError<T>) -> (r: Self)
        ensures
            r@ == snapshot_of(value@),
    {
        value.snapshot()
    }
}

impl<'a, T: DomainReason + ErrorIdentityProvider> vstd::std_specs::convert::FromSpecImpl<&'a StructError<T>> for ErrorSnapshot {
    open spec fn obeys_from_spec() -> bool {
        false
    }

    open spec fn from_spec(v: &'a StructError<T>) -> Self {
        choose|r: Self| #[trigger] r.view() == snapshot_of(v@)
    }
}

impl<T: DomainReason + ErrorIdentityProvider> From<StructError<T>> for ErrorSnapshot {
    fn from(value: StructError<T>) -> (r: Self)
        ensures
            r@ == snapshot_of(value@),
    {
        value.into_snapshot()
    }
}

impl<T: DomainReason + ErrorIdentityProvider> vstd::std_specs::convert::FromSpecImpl<StructError<T>> for ErrorSnapshot {
    open spec fn obeys_from_spec() -> bool {
        false
    }

    open spec fn from_spec(v: StructError<T>) -> Self {
        choose|r: Self| #[trigger] r.view() == snapshot_of(v@)
    }
}

impl<'a, T: DomainReason + ErrorIdentityProvider> From<&'a StructError<T>> for StableErrorSnapshot {
    fn from(value: &'a StructError<T>) -> (r: Self)
        ensures
            r@ == stable_of(snapshot_of(value@)),
    {
        value.snapshot().into_stable_export()
    }
}

impl<'a, T: DomainReason + ErrorIdentityProvider> vstd::std_specs::convert::FromSpecImpl<&'a StructError<T>> for StableErrorSnapshot {
    open spec fn obeys_from_spec() -> bool {
        false
    }

    open spec fn from_spec(v: &'a StructError<T>) -> Self {
        choose|r: Self| #[trigger] r.view() == stable_of(snapshot_of(v@))
    }
}

impl<T: DomainReason + ErrorIdentityProvider> From<StructError<T>> for StableErrorSnapshot {
    fn from(value: StructError<T>) -> (r: Self)
        ensures
            r@ == stable_of(snapshot_of(value@)),
    {
        value.into_snapshot().into_stable_export()
    }
}

impl<T: DomainReason + ErrorIdentityProvider> vstd::std_specs::convert::FromSpecImpl<StructError<T>> for StableErrorSnapshot {
    open spec fn obeys_from_spec() -> bool {
        false
    }

    open spec fn from_spec(v: StructError<T>) -> Self {
        choose|r: Self| #[trigger] r.view() == stable_of(snapshot_of(v@))
    }
}

impl<'a> From<&'a ErrorSnapshot> for StableErrorSnapshot {
    fn from(value: &'a ErrorSnapshot) -> (r: Self)
        ensures
            r@ == stable_of(value@),
    {
        value.stable_export()
    }
}

impl<'a> vstd::std_specs::convert::FromSpecImpl<&'a ErrorSnapshot> for StableErrorSnapshot {
    open spec fn obeys_from_spec() -> bool {
        false
    }

    open spec fn from_spec(v: &'a ErrorSnapshot) -> Self {
        choose|r: Self| #[trigger] r.view() == stable_of(v@)
    }
}

impl From<ErrorSnapshot> for StableErrorSnapshot {
    fn from(value: ErrorSnapshot) -> (r: Self)
        ensures
            r@ == stable_of(value@),
    {
        value.into_stable_export()
    }
}

impl vstd::std_specs::convert::FromSpecImpl<ErrorSnapshot> for StableErrorSnapshot {
    open spec fn obeys_from_spec() -> bool {
        false
    }

    open spec fn from_spec(v: ErrorSnapshot) -> Self {
        choose|r: Self| #[trigger] r.view() == stable_of(v@)
    }
}

impl<'a> From<&'a ErrorSnapshot> for DiagnosticReport {
    fn from(value: &'a ErrorSnapshot) -> (r: Self)
        ensures
            r@ == report_of_snapshot(value@),
    {
        value.report()
    }
}

impl<'a> vstd::std_specs::convert::FromSpecImpl<&'a ErrorSnapshot> for DiagnosticReport {
    open spec fn obeys_from_spec() -> bool {
        false
    }

    open spec fn from_spec(v: &'a ErrorSnapshot) -> Self {
        choose|r: Self| #[trigger] r.view() == report_of_snapshot(v@)
    }
}

impl From<ErrorSnapshot> for DiagnosticReport {
    fn from(value: ErrorSnapshot) -> (r: Self)
        ensures
            r@ == report_of_snapshot(value@),
    {
        value.into_report()
    }
}

impl vstd::std_specs::convert::FromSpecImpl<ErrorSnapshot> for DiagnosticReport {
    open spec fn obeys_from_spec() -> bool {
        false
    }

    open spec fn from_spec(v: ErrorSnapshot) -> Self {
        choose|r: Self| #[trigger] r.view() == report_of_snapshot(v@)
    }
}

impl<'a> From<&'a StableErrorSnapshot> for DiagnosticReport {
    fn from(value: &'a StableErrorSnapshot) -> (r: Self)
        ensures
            r@ == report_of_stable(value@),
    {
        value.report()
    }
}

impl<'a> vstd::std_specs::convert::FromSpecImpl<&'a StableErrorSnapshot> for DiagnosticReport {
    open spec fn obeys_from_spec() -> bool {
        false
    }

    open spec fn from_spec(v: &'a StableErrorSnapshot) -> Self {
        choose|r: Self| #[trigger] r.view() == report_of_stable(v@)
    }
}

impl From<StableErrorSnapshot> for DiagnosticReport {
    fn from(value: StableErrorSnapshot) -> (r: Self)
        ensures
            r@ == report_of_stable(value@),
    {
        value.into_report()
    }
}

impl vstd::std_specs::convert::FromSpecImpl<StableErrorSnapshot> for DiagnosticReport {
    open spec fn obeys_from_spec() -> bool {
        false
    }

    open spec fn from_spec(v: StableErrorSnapshot) -> Self {
        choose|r: Self| #[trigger] r.view() == report_of_stable(v@)
    }
}


/// A stable source frame survives the trip through a snapshot frame
/// unchanged.
pub proof fn law_stable_source_frame_roundtrip(s: StableSrcView)
    ensures
        stable_src(snap_of_stable_src(s)) == s,
{
}

/// A stable context frame survives the trip through a snapshot frame
/// unchanged.
pub proof fn law_stable_context_frame_roundtrip(s: StableCtxView)
    ensures
        stable_ctx(snap_of_stable_ctx(s)) == s,
{
}

/// The stable export is a lossy projection: a context frame taken through
/// it comes back without fields and with a failed result, a source frame
/// without display text and type; everything else is kept.
pub proof fn law_stable_export_is_lossy(c: SnapCtxView, f: SnapSrcView)
    ensures
        snap_of_stable_ctx(stable_ctx(c)) == (SnapCtxView {
            fields: Seq::empty(),
            result: OperationResult::Fail,
            ..c
        }),
        snap_of_stable_src(stable_src(f)) == (SnapSrcView { display: None, error_type: None, ..f }),
{
}

/// A snapshot source frame survives the trip through a runtime source
/// frame unchanged.
pub proof fn law_snapshot_source_frame_roundtrip(s: SnapSrcView)
    ensures
        snap_src_of(frame_of_snap_src(s)) == s,
{
}

/// A stable snapshot and the full snapshot rebuilt from it give the same
/// report, and exporting that snapshot again gives the stable snapshot
/// back.
pub proof fn law_stable_snapshot_compat_roundtrip(s: StableView)
    requires
        s.schema_version == STABLE_SNAPSHOT_SCHEMA_VERSION@,
    ensures
        report_of_snapshot(compat_of(s)) == report_of_stable(s),
        stable_of(compat_of(s)) == s,
{
    assert(report_of_snapshot(compat_of(s)).context =~= report_of_stable(s).context);
    assert(stable_of(compat_of(s)).context =~= s.context);
    assert(stable_of(compat_of(s)).source_frames =~= s.source_frames);
}

/// A context taken through a snapshot frame and back keeps its root target,
/// action, locator, fields, metadata and result, and its path becomes the
/// normalized path.
pub proof fn law_context_snapshot_roundtrip(c: ContextView)
    ensures
        compat_target(ctx_of_snap(snap_ctx_of(c))) == compat_target(c),
        ctx_of_snap(snap_ctx_of(c)).action == c.action,
        ctx_of_snap(snap_ctx_of(c)).locator == c.locator,
        ctx_of_snap(snap_ctx_of(c)).items == c.items,
        ctx_of_snap(snap_ctx_of(c)).metadata == c.metadata,
        ctx_of_snap(snap_ctx_of(c)).result == c.result,
        ctx_of_snap(snap_ctx_of(c)).path == normalized_path(c),
{
}


/// No segment repeats the first one or the one right before it.
pub open spec fn clean_path(s: Seq<Seq<char>>) -> bool {
    forall|i: int| 0 < i < s.len() ==> #[trigger] s[i] != s[0] && s[i] != s[i - 1]
}

proof fn lemma_norm_fold_clean(acc: Seq<Seq<char>>, path: Seq<Seq<char>>)
    requires
        clean_path(acc),
    ensures
        clean_path(crate::context::norm_fold(acc, path)),
    decreases path.len(),
{
    if path.len() > 0 {
        lemma_norm_fold_clean(acc, path.drop_last());
        let a = crate::context::norm_fold(acc, path.drop_last());
        let b = crate::context::norm_step(a, path.last());
        assert forall|i: int| 0 < i < b.len() implies #[trigger] b[i] != b[0] && b[i] != b[i - 1] by {
            if b.len() > a.len() && i == b.len() - 1 {
                if a.len() > 0 {
                    assert(b[0] == a[0]);
                    assert(b[i - 1] == a.last());
                }
            } else {
                assert(b[i] == a[i]);
                assert(b[0] == a[0]);
                assert(b[i - 1] == a[i - 1]);
            }
        }
    }
}

proof fn lemma_norm_fold_identity(h: Seq<Seq<char>>, s: Seq<Seq<char>>, m: int)
    requires
        clean_path(s),
        h.len() == 0 || (s.len() > 0 && h == seq![s[0]]),
        h.len() == 0 ==> 0 <= m <= s.len(),
        h.len() > 0 ==> 1 <= m <= s.len(),
    ensures
        crate::context::norm_fold(h, s.subrange(0, m)) == s.subrange(0, m),
    decreases m,
{
    let t = s.subrange(0, m);
    if m == 0 {
        assert(t.len() == 0);
        assert(h =~= t);
    } else if m == 1 && h.len() > 0 {
        assert(t.drop_last().len() == 0);
        assert(crate::context::norm_fold(h, t.drop_last()) == h);
        assert(t =~= h);
    } else {
        lemma_norm_fold_identity(h, s, m - 1);
        assert(t.drop_last() =~= s.subrange(0, m - 1));
        let a = s.subrange(0, m - 1);
        if m - 1 > 0 {
            assert(a[0] == s[0]);
            assert(a.last() == s[m - 2]);
            assert(s[m - 1] != s[0] && s[m - 1] != s[m - 2]);
        }
        assert(a.push(s[m - 1]) =~= t);
    }
}

/// Every segment normalization gives comes from the head it starts from or
/// from the stored segments.
proof fn lemma_norm_fold_members(acc: Seq<Seq<char>>, path: Seq<Seq<char>>)
    ensures
        forall|i: int|
            0 <= i < crate::context::norm_fold(acc, path).len() ==> acc.contains(
                #[trigger] crate::context::norm_fold(acc, path)[i],
            ) || path.contains(crate::context::norm_fold(acc, path)[i]),
    decreases path.len(),
{
    if path.len() > 0 {
        let t = path.drop_last();
        lemma_norm_fold_members(acc, t);
        let a = crate::context::norm_fold(acc, t);
        let b = crate::context::norm_fold(acc, path);
        assert forall|i: int| 0 <= i < b.len() implies acc.contains(#[trigger] b[i]) || path.contains(
            b[i],
        ) by {
            if i < a.len() {
                assert(b[i] == a[i]);
                if t.contains(a[i]) {
                    let j = choose|j: int| 0 <= j < t.len() && t[j] == a[i];
                    assert(path[j] == t[j]);
                }
            } else {
                assert(b[i] == path[path.len() - 1]);
            }
        }
    }
}

/// Normalizing stored segments from no head starts with the first segment.
proof fn lemma_norm_fold_first(path: Seq<Seq<char>>)
    requires
        path.len() > 0,
    ensures
        crate::context::norm_fold(Seq::empty(), path).len() > 0,
        crate::context::norm_fold(Seq::empty(), path)[0] == path[0],
    decreases path.len(),
{
    let t = path.drop_last();
    if t.len() > 0 {
        lemma_norm_fold_first(t);
        assert(t[0] == path[0]);
    } else {
        assert(crate::context::norm_fold(Seq::<Seq<char>>::empty(), t) == Seq::<Seq<char>>::empty());
    }
}

/// The shape of a context's path text: there is none exactly when the
/// context has no action, target, locator or stored segment; otherwise it
/// is the normalized segments joined with ` / `, where the first segment is
/// the action, else the target, else the first stored segment, else the
/// locator; the last is the locator when there is one; no segment equals
/// the one before it; and every segment is the action, the target, a stored
/// segment or the locator.
pub proof fn law_path_string_shape(v: ContextView)
    ensures
        (crate::context::path_text(normalized_path(v)) is None) <==> (v.action is None
            && v.target is None && v.locator is None && v.path.len() == 0),
        normalized_path(v).len() > 0 ==> crate::context::path_text(normalized_path(v)) == Some(
            crate::text::spec_join(normalized_path(v), " / "@),
        ),
        normalized_path(v).len() > 0 ==> normalized_path(v)[0] == (if v.action is Some {
            v.action->0
        } else if v.target is Some {
            v.target->0
        } else if v.path.len() > 0 {
            v.path[0]
        } else {
            v.locator->0
        }),
        v.locator is Some ==> normalized_path(v).len() > 0 && normalized_path(v).last()
            == v.locator->0,
        forall|i: int|
            0 < i < normalized_path(v).len() ==> #[trigger] normalized_path(v)[i]
                != normalized_path(v)[i - 1],
        forall|i: int|
            0 <= i < normalized_path(v).len() ==> Some(#[trigger] normalized_path(v)[i])
                == v.action || Some(normalized_path(v)[i]) == v.target || v.path.contains(
                normalized_path(v)[i],
            ) || Some(normalized_path(v)[i]) == v.locator,
{
    let h = path_head(v);
    let b = crate::context::norm_fold(h, v.path);
    let p = normalized_path(v);
    lemma_norm_fold_clean(h, v.path);
    lemma_norm_fold_members(h, v.path);
    if h.len() > 0 {
        crate::context::lemma_norm_fold_keeps_head(h, v.path);
    } else if v.path.len() > 0 {
        lemma_norm_fold_first(v.path);
    } else {
        assert(b == h);
    }
    assert forall|i: int| 0 < i < p.len() implies #[trigger] p[i] != p[i - 1] by {
        if i < b.len() {
            assert(p[i] == b[i] && p[i - 1] == b[i - 1]);
        }
    }
    assert forall|i: int| 0 <= i < p.len() implies Some(#[trigger] p[i]) == v.action || Some(p[i])
        == v.target || v.path.contains(p[i]) || Some(p[i]) == v.locator by {
        if i < b.len() {
            assert(p[i] == b[i]);
            if h.contains(b[i]) {
                let j = choose|j: int| 0 <= j < h.len() && h[j] == b[i];
                assert(j == 0);
            }
        }
    }
}

/// The head a normalized path starts from: the action, else the target.
pub open spec fn path_head(v: ContextView) -> Seq<Seq<char>> {
    if v.action is Some {
        seq![v.action->0]
    } else if v.target is Some {
        seq![v.target->0]
    } else {
        Seq::empty()
    }
}

/// Normalizing a path that is already normalized changes nothing: a context
/// taken through a snapshot frame and back has the same normalized path,
/// and so the same path text.
pub proof fn law_snapshot_roundtrip_path_stable(c: ContextView)
    ensures
        normalized_path(ctx_of_snap(snap_ctx_of(c))) == normalized_path(c),
{
    let c2 = ctx_of_snap(snap_ctx_of(c));
    let h = path_head(c);
    assert(path_head(c2) == h);
    let b = crate::context::norm_fold(h, c.path);
    lemma_norm_fold_clean(h, c.path);
    if h.len() > 0 {
        crate::context::lemma_norm_fold_keeps_head(h, c.path);
        assert(h == seq![b[0]]);
    }
    let p = normalized_path(c);
    assert(c2.path == p);
    if p == b {
        lemma_norm_fold_identity(h, b, b.len() as int);
        assert(b.subrange(0, b.len() as int) =~= b);
    } else {
        let loc = c.locator->0;
        assert(p == b.push(loc));
        assert(p.drop_last() =~= b);
        if b.len() == 0 {
            assert(h.len() == 0);
            assert(p =~= seq![loc]);
            assert(crate::context::norm_fold(h, p.drop_last()) == h);
        } else if loc == b[0] {
            lemma_norm_fold_identity(h, b, b.len() as int);
            assert(b.subrange(0, b.len() as int) =~= b);
        } else {
            assert(clean_path(p)) by {
                assert forall|i: int| 0 < i < p.len() implies #[trigger] p[i] != p[0] && p[i] != p[i - 1] by {
                    if i < b.len() {
                        assert(p[i] == b[i]);
                        assert(p[i - 1] == b[i - 1]);
                    }
                }
            }
            lemma_norm_fold_identity(h, p, p.len() as int);
            assert(p.subrange(0, p.len() as int) =~= p);
        }
    }
}

/// Former name of [`ErrorSnapshot`].
pub type StructErrorSnapshot = ErrorSnapshot;

/// Former name of [`StableErrorSnapshot`].
pub type StableStructErrorSnapshot = StableErrorSnapshot;

/// Former name of [`crate::error::ErrorIdentity`].
pub type ErrorIdentitySnapshot = crate::error::ErrorIdentity;


/// The report rebuilt from an error's snapshot agrees with the error's own
/// report: same texts, one context per context, each with the same root
/// target, action, locator, fields, metadata and result, its normalized
/// path, and the same normalized path again.
pub proof fn law_snapshot_report_matches_error_report<T: DomainReason + ErrorIdentityProvider>(
    e: ErrorView<T>,
)
    ensures
        report_of_snapshot(snapshot_of(e)).reason == crate::report::report_of(e).reason,
        report_of_snapshot(snapshot_of(e)).detail == crate::report::report_of(e).detail,
        report_of_snapshot(snapshot_of(e)).position == crate::report::report_of(e).position,
        report_of_snapshot(snapshot_of(e)).context.len() == e.context.len(),
        forall|i: int|
            0 <= i < e.context.len() ==> {
                let c = #[trigger] report_of_snapshot(snapshot_of(e)).context[i];
                &&& compat_target(c) == compat_target(e.context[i])
                &&& c.action == e.context[i].action
                &&& c.locator == e.context[i].locator
                &&& c.items == e.context[i].items
                &&& c.metadata == e.context[i].metadata
                &&& c.result == e.context[i].result
                &&& c.path == normalized_path(e.context[i])
                &&& normalized_path(c) == normalized_path(e.context[i])
            },
{
    assert forall|i: int| 0 <= i < e.context.len() implies {
        let c = #[trigger] report_of_snapshot(snapshot_of(e)).context[i];
        &&& compat_target(c) == compat_target(e.context[i])
        &&& c.action == e.context[i].action
        &&& c.locator == e.context[i].locator
        &&& c.items == e.context[i].items
        &&& c.metadata == e.context[i].metadata
        &&& c.result == e.context[i].result
        &&& c.path == normalized_path(e.context[i])
        &&& normalized_path(c) == normalized_path(e.context[i])
    } by {
        law_context_snapshot_roundtrip(e.context[i]);
        law_snapshot_roundtrip_path_stable(e.context[i]);
    }
}

} // verus!
