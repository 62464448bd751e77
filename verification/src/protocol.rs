//! The protocol / exposure projection layer: identity, exposure decision
//! and diagnostic report of an error, as handed to HTTP, RPC, CLI and log
//! boundaries.
use vstd::prelude::*;

use crate::context::OperationContext;
use crate::error::{
    all_items, ctx_views, identity_of, merged_metadata, path_of, source_frames_of,
    ErrorIdentity, ErrorView, IdentityView, StructError,
};
use crate::metadata::{meta_get, meta_text, ErrorMetadata, MetaView, MetadataValue};
use crate::reason::{category_text, DomainReason, ErrorCategory, ErrorIdentityProvider};
use crate::report::{
    opt_redact, render_text, report_of, report_redact, req_redact, frame_redact, meta_redact,
    redact_frame, redact_metadata, redact_optional_text, redact_required_text, summary_text,
    DiagnosticReport, RedactPolicy, ReportView,
};
use crate::source::{clone_frames, frame_views, smol_as_str, FrameView, SourceFrame};
use crate::text::{
    bool_string, bool_text, clone_opt, debug_quoted, debug_text, decimal, join, ostr, owned,
    spec_join, strs, text_eq, u64_text,
};

verus! {

/// Who may see an error's detail.
#[derive(Debug, Clone, Copy, PartialEq, Eq, Structural)]
pub enum Visibility {
    Public,
    Internal,
}

/// The text of a visibility.
pub open spec fn visibility_text(v: Visibility) -> Seq<char> {
    match v {
        Visibility::Public => "public"@,
        Visibility::Internal => "internal"@,
    }
}

impl Visibility {
    /// The stable text of this visibility.
    pub fn as_str(self) -> (s: &'static str)
        ensures
            s@ == visibility_text(self),
    {
        match self {
            Visibility::Public => "public",
            Visibility::Internal => "internal",
        }
    }
}

/// How an error is exposed at a boundary.
#[derive(Debug, Clone, PartialEq, Eq)]
pub struct ExposureDecision {
    pub http_status: u16,
    pub visibility: Visibility,
    pub default_hints: Vec<&'static str>,
    pub retryable: bool,
}

/// The observable content of an exposure decision.
pub struct DecisionView {
    pub http_status: u16,
    pub visibility: Visibility,
    pub hints: Seq<Seq<char>>,
    pub retryable: bool,
}

/// The texts of a list of hints.
pub open spec fn hint_texts(s: Seq<&'static str>) -> Seq<Seq<char>> {
    s.map_values(|h: &'static str| h@)
}

impl View for ExposureDecision {
    type V = DecisionView;

    open spec fn view(&self) -> DecisionView {
        DecisionView {
            http_status: self.http_status,
            visibility: self.visibility,
            hints: hint_texts(self.default_hints@),
            retryable: self.retryable,
        }
    }
}

/// A policy that decides how an identity is exposed.
pub trait ExposurePolicy {
    /// The HTTP status for an identity. This default applies only to an
    /// implementation in verified code that does not define it;
    /// implementations outside verified code are not held to it.
    closed spec fn status_for(&self, id: IdentityView) -> u16 {
        500
    }

    /// The visibility for an identity (see [`ExposurePolicy::status_for`]).
    closed spec fn visibility_for(&self, id: IdentityView) -> Visibility {
        Visibility::Internal
    }

    /// The hints for an identity (see [`ExposurePolicy::status_for`]).
    closed spec fn hints_for(&self, id: IdentityView) -> Seq<Seq<char>> {
        Seq::empty()
    }

    /// Whether an identity is retryable (see [`ExposurePolicy::status_for`]).
    closed spec fn retryable_for(&self, id: IdentityView) -> bool {
        false
    }

    fn http_status(&self, identity: &ErrorIdentity) -> (r: u16)
        ensures
            r == self.status_for(identity@),
    ;

    fn visibility(&self, identity: &ErrorIdentity) -> (r: Visibility)
        ensures
            r == self.visibility_for(identity@),
    ;

    fn default_hints(&self, identity: &ErrorIdentity) -> (r: &'static [&'static str])
        ensures
            hint_texts(r@) == self.hints_for(identity@),
    ;

    fn retryable(&self, identity: &ErrorIdentity) -> (r: bool)
        ensures
            r == self.retryable_for(identity@),
    ;

    /// The full decision for an identity.
    fn decide(&self, identity: &ErrorIdentity) -> (r: ExposureDecision)
        ensures
            r@ == (DecisionView {
                http_status: self.status_for(identity@),
                visibility: self.visibility_for(identity@),
                hints: self.hints_for(identity@),
                retryable: self.retryable_for(identity@),
            }),
    {
        let hints = self.default_hints(identity);
        let mut v: Vec<&'static str> = Vec::new();
        let mut i: usize = 0;
        while i < hints.len()
            invariant
                i <= hints.len(),
                v@ == hints@.subrange(0, i as int),
            decreases hints.len() - i,
        {
            v.push(hints[i]);
            i += 1;
        }
        assert(hints@.subrange(0, hints.len() as int) =~= hints@);
        ExposureDecision {
            http_status: self.http_status(identity),
            visibility: self.visibility(identity),
            default_hints: v,
            retryable: self.retryable(identity),
        }
    }
}

/// The policy used by default: business errors are public client errors
/// (400), everything else internal (500); known system and configuration
/// codes get hints; network errors and timeouts are retryable.
#[derive(Debug, Clone, Copy, PartialEq, Eq)]
pub struct DefaultExposurePolicy;

/// The hints the default policy gives for a code.
pub open spec fn default_hints_for(code: Seq<char>) -> Seq<Seq<char>> {
    if code == "sys.io_error"@ {
        seq!["check filesystem state"@, "verify file permissions"@]
    } else if code == "sys.network_error"@ {
        seq!["check network connectivity"@, "retry the request"@]
    } else if code == "sys.timeout"@ {
        seq!["retry later"@, "inspect downstream service latency"@]
    } else if code == "conf.core_invalid"@ || code == "conf.feature_invalid"@ || code
        == "conf.dynamic_invalid"@ {
        seq!["check configuration values"@, "validate config source"@]
    } else {
        Seq::empty()
    }
}

impl ExposurePolicy for DefaultExposurePolicy {
    open spec fn status_for(&self, id: IdentityView) -> u16 {
        match id.category {
            ErrorCategory::Biz => 400,
            _ => 500,
        }
    }

    open spec fn visibility_for(&self, id: IdentityView) -> Visibility {
        match id.category {
            ErrorCategory::Biz => Visibility::Public,
            _ => Visibility::Internal,
        }
    }

    open spec fn hints_for(&self, id: IdentityView) -> Seq<Seq<char>> {
        default_hints_for(id.code)
    }

    open spec fn retryable_for(&self, id: IdentityView) -> bool {
        id.code == "sys.network_error"@ || id.code == "sys.timeout"@
    }

    fn http_status(&self, identity: &ErrorIdentity) -> (r: u16) {
        match identity.category {
            ErrorCategory::Biz => 400,
            _ => 500,
        }
    }

    fn visibility(&self, identity: &ErrorIdentity) -> (r: Visibility) {
        match identity.category {
            ErrorCategory::Biz => Visibility::Public,
            _ => Visibility::Internal,
        }
    }

    fn default_hints(&self, identity: &ErrorIdentity) -> (r: &'static [&'static str]) {
        let code = identity.code.as_str();
        if text_eq(code, "sys.io_error") {
            let r: &'static [&'static str] = &["check filesystem state", "verify file permissions"];
            assert(hint_texts(r@) =~= seq!["check filesystem state"@, "verify file permissions"@]);
            r
        } else if text_eq(code, "sys.network_error") {
            let r: &'static [&'static str] = &["check network connectivity", "retry the request"];
            assert(hint_texts(r@) =~= seq!["check network connectivity"@, "retry the request"@]);
            r
        } else if text_eq(code, "sys.timeout") {
            let r: &'static [&'static str] = &["retry later", "inspect downstream service latency"];
            assert(hint_texts(r@) =~= seq!["retry later"@, "inspect downstream service latency"@]);
            r
        } else if text_eq(code, "conf.core_invalid") || text_eq(code, "conf.feature_invalid")
            || text_eq(code, "conf.dynamic_invalid") {
            let r: &'static [&'static str] = &["check configuration values", "validate config source"];
            assert(hint_texts(r@) =~= seq!["check configuration values"@, "validate config source"@]);
            r
        } else {
            let r: &'static [&'static str] = &[];
            assert(hint_texts(r@) =~= Seq::<Seq<char>>::empty());
            r
        }
    }

    fn retryable(&self, identity: &ErrorIdentity) -> (r: bool) {
        text_eq(identity.code.as_str(), "sys.network_error") || text_eq(
            identity.code.as_str(),
            "sys.timeout",
        )
    }
}


/// The decision a policy makes for an identity.
pub open spec fn decision_of<P: ExposurePolicy>(p: P, id: IdentityView) -> DecisionView {
    DecisionView {
        http_status: p.status_for(id),
        visibility: p.visibility_for(id),
        hints: p.hints_for(id),
        retryable: p.retryable_for(id),
    }
}

/// The projection a protocol snapshot keeps beside the report: path, merged
/// context metadata and source frames.
pub(crate) struct ReportProjectionParts {
    path: Option<String>,
    root_metadata: ErrorMetadata,
    source_frames: Vec<SourceFrame>,
}

/// Identity, exposure decision and diagnostic report of an error.
pub struct ErrorProtocolSnapshot {
    pub identity: ErrorIdentity,
    pub decision: ExposureDecision,
    report: DiagnosticReport,
    projection: ReportProjectionParts,
}

/// The observable content of a protocol snapshot.
pub struct ProtocolView {
    pub identity: IdentityView,
    pub decision: DecisionView,
    pub report: ReportView,
    pub path: Option<Seq<char>>,
    pub root_metadata: Seq<(Seq<char>, MetaView)>,
    pub source_frames: Seq<FrameView>,
}

impl View for ErrorProtocolSnapshot {
    type V = ProtocolView;

    closed spec fn view(&self) -> ProtocolView {
        ProtocolView {
            identity: self.identity@,
            decision: self.decision@,
            report: self.report@,
            path: ostr(self.projection.path),
            root_metadata: self.projection.root_metadata.entries(),
            source_frames: frame_views(self.projection.source_frames@),
        }
    }
}

/// The protocol snapshot of an error under a policy.
pub open spec fn protocol_of<T: DomainReason + ErrorIdentityProvider, P: ExposurePolicy>(
    p: P,
    e: ErrorView<T>,
) -> ProtocolView {
    ProtocolView {
        identity: identity_of(e),
        decision: decision_of(p, identity_of(e)),
        report: report_of(e),
        path: path_of(e.context),
        root_metadata: merged_metadata(e.context),
        source_frames: source_frames_of(e),
    }
}

/// A protocol snapshot after redaction: identity texts, report and
/// projection redacted; code, category and decision kept.
pub open spec fn protocol_redact<P: RedactPolicy>(p: P, v: ProtocolView) -> ProtocolView {
    ProtocolView {
        identity: IdentityView {
            reason: req_redact(p, "reason"@, v.identity.reason),
            detail: opt_redact(p, "detail"@, v.identity.detail),
            position: opt_redact(p, "position"@, v.identity.position),
            path: opt_redact(p, "path"@, v.identity.path),
            ..v.identity
        },
        decision: v.decision,
        report: report_redact(p, v.report),
        path: opt_redact(p, "path"@, v.path),
        root_metadata: meta_redact(p, v.root_metadata),
        source_frames: v.source_frames.map_values(|f: FrameView| frame_redact(p, f)),
    }
}

fn clone_decision(d: &ExposureDecision) -> (r: ExposureDecision)
    ensures
        r@ == d@,
{
    let mut v: Vec<&'static str> = Vec::new();
    let mut i: usize = 0;
    while i < d.default_hints.len()
        invariant
            i <= d.default_hints.len(),
            v@ == d.default_hints@.subrange(0, i as int),
        decreases d.default_hints.len() - i,
    {
        v.push(d.default_hints[i]);
        i += 1;
    }
    assert(d.default_hints@.subrange(0, d.default_hints.len() as int) =~= d.default_hints@);
    ExposureDecision {
        http_status: d.http_status,
        visibility: d.visibility,
        default_hints: v,
        retryable: d.retryable,
    }
}

impl<T: DomainReason + ErrorIdentityProvider> StructError<T> {
    /// Identity, exposure decision and report in one snapshot (see
    /// [`protocol_of`]).
    pub fn exposure_snapshot<P: ExposurePolicy>(&self, exposure_policy: &P) -> (r:
        ErrorProtocolSnapshot)
        ensures
            r@ == protocol_of(*exposure_policy, self@),
    {
        let identity = self.identity_snapshot();
        let report = self.report();
        let frames = self.source_frames();
        let mut copied: Vec<SourceFrame> = Vec::new();
        let mut i: usize = 0;
        while i < frames.len()
            invariant
                i <= frames.len(),
                copied@.len() == i,
                forall|j: int| 0 <= j < i ==> #[trigger] copied@[j]@ == frames@[j]@,
            decreases frames.len() - i,
        {
            copied.push(frames[i].clone());
            i += 1;
        }
        assert(frame_views(copied@) =~= frame_views(frames@));
        let projection = ReportProjectionParts {
            path: clone_opt(&identity.path),
            root_metadata: self.context_metadata(),
            source_frames: copied,
        };
        let decision = exposure_policy.decide(&identity);
        ErrorProtocolSnapshot { identity, decision, report, projection }
    }

    /// The protocol snapshot, consuming the error.
    pub fn into_exposure_snapshot<P: ExposurePolicy>(self, exposure_policy: &P) -> (r:
        ErrorProtocolSnapshot)
        ensures
            r@ == protocol_of(*exposure_policy, self@),
    {
        self.exposure_snapshot(exposure_policy)
    }
}

/// The summary of one context field: the key, `=`, and the quoted value.
pub open spec fn item_summaries(items: Seq<(Seq<char>, Seq<char>)>) -> Seq<Seq<char>> {
    items.map_values(|p: (Seq<char>, Seq<char>)| p.0 + "="@ + debug_text(p.1))
}

/// The fields of all contexts of a report, summarised and comma-joined.
pub open spec fn context_summary(v: ReportView) -> Seq<char> {
    spec_join(item_summaries(all_items(v.context)), ", "@)
}

/// A metadata value as it appears in a summary: text values quoted.
pub open spec fn meta_value_text(v: MetaView) -> Seq<char> {
    match v {
        MetaView::Str(s) => debug_text(s),
        _ => meta_text(v),
    }
}

/// The metadata entries summarised as `key=value`, comma-joined.
pub open spec fn metadata_summary(m: Seq<(Seq<char>, MetaView)>) -> Seq<char> {
    spec_join(
        m.map_values(|e: (Seq<char>, MetaView)| e.0 + "="@ + meta_value_text(e.1)),
        ", "@,
    )
}

/// The first frame from position `i` on that is marked as the root cause.
pub open spec fn first_root_from(fs: Seq<FrameView>, i: int) -> Option<FrameView>
    decreases fs.len() - i,
{
    if i < 0 || i >= fs.len() {
        None
    } else if fs[i].is_root_cause {
        Some(fs[i])
    } else {
        first_root_from(fs, i + 1)
    }
}

/// The root-cause frame: the first marked one, else the last.
pub open spec fn root_frame(fs: Seq<FrameView>) -> Option<FrameView> {
    if first_root_from(fs, 0) is Some {
        first_root_from(fs, 0)
    } else if fs.len() > 0 {
        Some(fs.last())
    } else {
        None
    }
}

/// The lines of the user debug text.
pub open spec fn user_debug_lines(v: ProtocolView) -> Seq<Seq<char>> {
    let comp = meta_get(v.root_metadata, "component.name"@);
    seq![
        "code          : "@ + v.identity.code + " ("@ + category_text(v.identity.category) + ")"@,
        "detail        : "@ + (if v.report.detail is Some {
            v.report.detail->0
        } else {
            v.identity.reason
        }),
        "http          : "@ + decimal(v.decision.http_status as nat) + " "@ + visibility_text(
            v.decision.visibility,
        ) + " retryable="@ + bool_text(v.decision.retryable),
    ] + (if v.identity.path is Some {
        seq!["path          : "@ + v.identity.path->0]
    } else {
        Seq::empty()
    }) + (if context_summary(v.report).len() > 0 {
        seq!["context       : "@ + context_summary(v.report)]
    } else {
        Seq::empty()
    }) + (match comp {
        Some(MetaView::Str(c)) => seq!["component     : "@ + c],
        _ => if v.root_metadata.len() > 0 {
            seq!["metadata      : "@ + metadata_summary(v.root_metadata)]
        } else {
            Seq::empty()
        },
    }) + (if root_frame(v.source_frames) is Some {
        seq!["source        : "@ + root_frame(v.source_frames)->0.message]
    } else {
        Seq::empty()
    })
}

/// The user debug text: its lines joined with newlines.
pub open spec fn user_debug_text(v: ProtocolView) -> Seq<char> {
    spec_join(user_debug_lines(v), "\n"@)
}

fn context_summary_text(ctxs: &[OperationContext]) -> (r: String)
    ensures
        r@ == spec_join(item_summaries(all_items(ctx_views(ctxs@))), ", "@),
{
    let ghost cs = ctx_views(ctxs@);
    let mut parts: Vec<String> = Vec::new();
    let mut i: usize = 0;
    assert(item_summaries(all_items(cs.subrange(0, 0))) =~= Seq::<Seq<char>>::empty()) by {
        assert(cs.subrange(0, 0).len() == 0);
    }
    assert(strs(parts@) =~= Seq::<Seq<char>>::empty());
    while i < ctxs.len()
        invariant
            i <= ctxs.len(),
            cs == ctx_views(ctxs@),
            strs(parts@) == item_summaries(all_items(cs.subrange(0, i as int))),
        decreases ctxs.len() - i,
    {
        let ghost pre = cs.subrange(0, i as int);
        proof {
            let t = cs.subrange(0, i + 1);
            assert(t.drop_last() =~= pre);
            assert(t.last() == ctxs@[i as int]@);
        }
        let items = &ctxs[i].context.items;
        let ghost ps = crate::text::pairs(items@);
        let ghost start = strs(parts@);
        let mut k: usize = 0;
        assert(start + item_summaries(ps.subrange(0, 0)) =~= start);
        while k < items.len()
            invariant
                k <= items.len(),
                ps == crate::text::pairs(items@),
                strs(parts@) == start + item_summaries(ps.subrange(0, k as int)),
            decreases items.len() - k,
        {
            let mut s = items[k].0.clone();
            s.append("=");
            let q = debug_quoted(items[k].1.as_str());
            s.append(q.as_str());
            let ghost before = strs(parts@);
            parts.push(s);
            proof {
                assert(strs(parts@) =~= before.push(s@));
                assert(item_summaries(ps.subrange(0, k + 1)) =~= item_summaries(
                    ps.subrange(0, k as int),
                ).push(s@));
            }
            k += 1;
        }
        proof {
            assert(ps.subrange(0, items.len() as int) =~= ps);
            assert(item_summaries(all_items(pre) + ps) =~= item_summaries(all_items(pre))
                + item_summaries(ps));
            assert(all_items(cs.subrange(0, i + 1)) == all_items(pre) + ps);
        }
        i += 1;
    }
    assert(cs.subrange(0, ctxs.len() as int) =~= cs);
    join(&parts, ", ")
}

fn metadata_summary_text(m: &ErrorMetadata) -> (r: String)
    ensures
        r@ == metadata_summary(m.entries()),
{
    let fields = m.iter();
    let ghost es = m.entries();
    let mut parts: Vec<String> = Vec::new();
    let mut i: usize = 0;
    while i < fields.len()
        invariant
            i <= fields.len(),
            es == m.entries(),
            crate::metadata::entry_views(fields@) == es,
            parts@.len() == i,
            forall|j: int| 0 <= j < i ==> #[trigger] parts@[j]@ == es[j].0 + "="@ + meta_value_text(es[j].1),
        decreases fields.len() - i,
    {
        assert(es[i as int] == (fields@[i as int].0@, fields@[i as int].1@));
        let mut s = fields[i].0.clone();
        s.append("=");
        let v = match &fields[i].1 {
            MetadataValue::String(x) => debug_quoted(x.as_str()),
            other => other.to_string(),
        };
        s.append(v.as_str());
        parts.push(s);
        i += 1;
    }
    assert(strs(parts@) =~= es.map_values(
        |e: (Seq<char>, MetaView)| e.0 + "="@ + meta_value_text(e.1),
    ));
    join(&parts, ", ")
}

fn root_frame_message(frames: &[SourceFrame]) -> (r: Option<String>)
    ensures
        ostr(r) == (if root_frame(frame_views(frames@)) is Some {
            Some(root_frame(frame_views(frames@))->0.message)
        } else {
            None
        }),
{
    let ghost fs = frame_views(frames@);
    let mut i: usize = 0;
    while i < frames.len()
        invariant
            i <= frames.len(),
            fs == frame_views(frames@),
            first_root_from(fs, 0) == first_root_from(fs, i as int),
        decreases frames.len() - i,
    {
        if frames[i].is_root_cause {
            return Some(owned(smol_as_str(&frames[i].message)));
        }
        i += 1;
    }
    if frames.len() > 0 {
        Some(owned(smol_as_str(&frames[frames.len() - 1].message)))
    } else {
        None
    }
}

/// The plain values a boundary serializer needs: status, identity texts,
/// the message chosen by visibility, hints, the rendered report and the
/// projection.
pub struct ProtocolJsonView {
    pub status: u16,
    pub code: String,
    pub category: String,
    pub reason: String,
    pub message: String,
    pub detail: Option<String>,
    pub rpc_detail: Option<String>,
    pub visibility: String,
    pub hints: Vec<&'static str>,
    pub retryable: bool,
    pub path: Option<String>,
    /// The target of the outermost reported context that has one.
    pub operation: Option<String>,
    pub summary: String,
    pub rendered_detail: String,
    pub root_metadata: ErrorMetadata,
    pub context: Vec<OperationContext>,
    pub source_frames: Vec<SourceFrame>,
}

/// The message shown at a boundary: for a public error its detail (or the
/// reason when there is none), for an internal one only the reason.
pub open spec fn boundary_message(v: ProtocolView) -> Seq<char> {
    match v.decision.visibility {
        Visibility::Public => if v.report.detail is Some {
            v.report.detail->0
        } else {
            v.identity.reason
        },
        Visibility::Internal => v.identity.reason,
    }
}

impl ErrorProtocolSnapshot {
    /// The embedded report rendered as text.
    pub fn render(&self) -> (r: String)
        ensures
            r@ == render_text(self@.report),
    {
        self.report.render()
    }

    /// The embedded report rendered after redaction.
    pub fn render_redacted<P: RedactPolicy>(&self, policy: &P) -> (r: String)
        ensures
            r@ == render_text(report_redact(*policy, self@.report)),
    {
        self.report.render_redacted(policy)
    }

    /// A snapshot from an already built report and identity; the projection
    /// carries only the identity's path.
    pub fn from_report_skeleton<P: ExposurePolicy>(
        report: DiagnosticReport,
        identity: ErrorIdentity,
        exposure_policy: &P,
    ) -> (r: Self)
        ensures
            r@ == (ProtocolView {
                identity: identity@,
                decision: decision_of(*exposure_policy, identity@),
                report: report@,
                path: identity@.path,
                root_metadata: Seq::empty(),
                source_frames: Seq::empty(),
            }),
    {
        let projection = ReportProjectionParts {
            path: clone_opt(&identity.path),
            root_metadata: ErrorMetadata::new(),
            source_frames: Vec::new(),
        };
        assert(frame_views(projection.source_frames@) =~= Seq::<FrameView>::empty());
        let decision = exposure_policy.decide(&identity);
        ErrorProtocolSnapshot { identity, decision, report, projection }
    }

    /// The user debug text (see [`user_debug_lines`]).
    pub fn render_user_debug(&self) -> (r: String)
        ensures
            r@ == user_debug_text(self@),
    {
        let ghost v = self@;
        let mut lines: Vec<String> = Vec::new();
        let mut l1 = owned("code          : ");
        l1.append(self.identity.code.as_str());
        l1.append(" (");
        l1.append(self.identity.category.as_str());
        l1.append(")");
        lines.push(l1);
        let mut l2 = owned("detail        : ");
        match self.report.detail() {
            Some(d) => l2.append(d),
            None => l2.append(self.identity.reason.as_str()),
        }
        lines.push(l2);
        let mut l3 = owned("http          : ");
        let st = u64_text(self.decision.http_status as u64);
        l3.append(st.as_str());
        l3.append(" ");
        l3.append(self.decision.visibility.as_str());
        l3.append(" retryable=");
        let b = bool_string(self.decision.retryable);
        l3.append(b.as_str());
        lines.push(l3);
        let ghost head = strs(lines@);
        assert(head =~= user_debug_lines(v).subrange(0, 3));
        match &self.identity.path {
            Some(p) => {
                let mut l = owned("path          : ");
                l.append(p.as_str());
                lines.push(l);
            },
            None => {},
        }
        let summary = context_summary_text(self.report.context());
        if summary.as_str().unicode_len() > 0 {
            let mut l = owned("context       : ");
            l.append(summary.as_str());
            lines.push(l);
        }
        match self.projection.root_metadata.get_str("component.name") {
            Some(c) => {
                let mut l = owned("component     : ");
                l.append(c);
                lines.push(l);
            },
            None => {
                if !self.projection.root_metadata.is_empty() {
                    let mut l = owned("metadata      : ");
                    let ms = metadata_summary_text(&self.projection.root_metadata);
                    l.append(ms.as_str());
                    lines.push(l);
                }
            },
        }
        match root_frame_message(self.projection.source_frames.as_slice()) {
            Some(m) => {
                let mut l = owned("source        : ");
                l.append(m.as_str());
                lines.push(l);
            },
            None => {},
        }
        assert(strs(lines@) =~= user_debug_lines(v));
        join(&lines, "\n")
    }

    /// A redacted copy (see [`protocol_redact`]).
    pub fn redacted<P: RedactPolicy>(&self, policy: &P) -> (r: Self)
        ensures
            r@ == protocol_redact(*policy, self@),
    {
        let identity = ErrorIdentity {
            code: self.identity.code.clone(),
            category: self.identity.category,
            reason: redact_required_text("reason", self.identity.reason.as_str(), policy),
            detail: redact_optional_text("detail", &self.identity.detail, policy),
            position: redact_optional_text("position", &self.identity.position, policy),
            path: redact_optional_text("path", &self.identity.path, policy),
        };
        let frames = &self.projection.source_frames;
        let mut redacted_frames: Vec<SourceFrame> = Vec::new();
        let mut i: usize = 0;
        while i < frames.len()
            invariant
                i <= frames.len(),
                redacted_frames@.len() == i,
                forall|j: int| 0 <= j < i ==> #[trigger] redacted_frames@[j]@ == frame_redact(
                    *policy,
                    frames@[j]@,
                ),
            decreases frames.len() - i,
        {
            redacted_frames.push(redact_frame(&frames[i], policy));
            i += 1;
        }
        let projection = ReportProjectionParts {
            path: redact_optional_text("path", &self.projection.path, policy),
            root_metadata: redact_metadata(&self.projection.root_metadata, policy),
            source_frames: redacted_frames,
        };
        let r = ErrorProtocolSnapshot {
            identity,
            decision: clone_decision(&self.decision),
            report: self.report.redacted(policy),
            projection,
        };
        assert(r@.source_frames =~= self@.source_frames.map_values(
            |f: FrameView| frame_redact(*policy, f),
        ));
        assert(r@.identity =~= protocol_redact(*policy, self@).identity);
        r
    }

    /// The user debug text after redaction.
    pub fn render_user_debug_redacted<P: RedactPolicy>(&self, redact_policy: &P) -> (r: String)
        ensures
            r@ == user_debug_text(protocol_redact(*redact_policy, self@)),
    {
        self.redacted(redact_policy).render_user_debug()
    }

    /// The values a boundary serializer needs (see [`boundary_message`]).
    pub fn json_view(&self) -> (r: ProtocolJsonView)
        ensures
            r.status == self@.decision.http_status,
            r.code@ == self@.identity.code,
            r.category@ == category_text(self@.identity.category),
            r.reason@ == self@.identity.reason,
            r.message@ == boundary_message(self@),
            ostr(r.detail) == self@.report.detail,
            ostr(r.rpc_detail) == (match self@.decision.visibility {
                Visibility::Public => self@.report.detail,
                Visibility::Internal => None,
            }),
            r.visibility@ == visibility_text(self@.decision.visibility),
            hint_texts(r.hints@) == self@.decision.hints,
            r.retryable == self@.decision.retryable,
            ostr(r.path) == self@.path,
            ostr(r.operation) == crate::error::last_target(self@.report.context),
            r.summary@ == summary_text(self@.report),
            r.rendered_detail@ == render_text(self@.report),
            r.root_metadata.entries() == self@.root_metadata,
            ctx_views(r.context@) == self@.report.context,
            frame_views(r.source_frames@) == self@.source_frames,
    {
        let detail = match self.report.detail() {
            Some(d) => Some(owned(d)),
            None => None,
        };
        let message = match self.decision.visibility {
            Visibility::Public => match &detail {
                Some(d) => d.clone(),
                None => self.identity.reason.clone(),
            },
            Visibility::Internal => self.identity.reason.clone(),
        };
        let rpc_detail = match self.decision.visibility {
            Visibility::Public => clone_opt(&detail),
            Visibility::Internal => None,
        };
        let d = clone_decision(&self.decision);
        ProtocolJsonView {
            status: self.decision.http_status,
            code: self.identity.code.clone(),
            category: owned(self.identity.category.as_str()),
            reason: self.identity.reason.clone(),
            message,
            detail,
            rpc_detail,
            visibility: owned(self.decision.visibility.as_str()),
            hints: d.default_hints,
            retryable: self.decision.retryable,
            path: clone_opt(&self.projection.path),
            operation: crate::error::last_target_of(self.report.context()),
            summary: self.report.render_summary(),
            rendered_detail: self.report.render(),
            root_metadata: self.projection.root_metadata.clone(),
            context: clone_contexts_slice(self.report.context()),
            source_frames: clone_frames(&self.projection.source_frames),
        }
    }
}

fn clone_contexts_slice(v: &[OperationContext]) -> (r: Vec<OperationContext>)
    ensures
        ctx_views(r@) == ctx_views(v@),
{
    let mut r: Vec<OperationContext> = Vec::new();
    let mut i: usize = 0;
    while i < v.len()
        invariant
            i <= v.len(),
            r@.len() == i,
            forall|j: int| 0 <= j < i ==> #[trigger] r@[j]@ == v@[j]@,
        decreases v.len() - i,
    {
        r.push(v[i].clone());
        i += 1;
    }
    assert(ctx_views(r@) =~= ctx_views(v@));
    r
}


/// Under the default policy an error is a public client error (400)
/// exactly when it is a business error, and internal (500) otherwise; an
/// error is retryable exactly when its code is `sys.network_error` or
/// `sys.timeout`.
pub proof fn law_default_policy_exposes_only_business_errors(id: IdentityView)
    ensures
        (DefaultExposurePolicy.visibility_for(id) == Visibility::Public) <==> (id.category
            == ErrorCategory::Biz),
        (DefaultExposurePolicy.status_for(id) == 400u16) <==> (id.category == ErrorCategory::Biz),
        DefaultExposurePolicy.status_for(id) == 400u16 || DefaultExposurePolicy.status_for(id)
            == 500u16,
        DefaultExposurePolicy.retryable_for(id) <==> (id.code == "sys.network_error"@ || id.code
            == "sys.timeout"@),
{
}

/// An internal error never shows its detail at a boundary: the message is
/// the reason and the RPC detail is absent; a public error shows its detail
/// when it has one.
pub proof fn law_internal_errors_hide_detail(v: ProtocolView)
    ensures
        v.decision.visibility == Visibility::Internal ==> boundary_message(v) == v.identity.reason,
        v.decision.visibility == Visibility::Public && v.report.detail is Some ==> boundary_message(
            v,
        ) == v.report.detail->0,
{
}

/// The protocol snapshot of an error agrees with the error's own
/// projections: its identity, report and path are those of the error, and
/// the decision is the policy's decision for that identity.
pub proof fn law_protocol_snapshot_matches_error<T: DomainReason + ErrorIdentityProvider, P: ExposurePolicy>(
    p: P,
    e: ErrorView<T>,
)
    ensures
        protocol_of(p, e).identity == identity_of(e),
        protocol_of(p, e).report == report_of(e),
        protocol_of(p, e).path == protocol_of(p, e).identity.path,
        protocol_of(p, e).decision == decision_of(p, identity_of(e)),
{
}

} // verus!
