//! Source payloads: the chain of underlying errors a structured error was
//! caused by, observed as frames of plain text and metadata.
use vstd::prelude::*;

use smol_str::SmolStr;

use crate::metadata::{ErrorMetadata, MetaView};
use crate::text::{ostr, strs};

verus! {

/// A compact string, carried by value.
#[verifier::external_type_specification]
#[verifier::external_body]
pub struct ExSmolStr(smol_str::SmolStr);

/// The text a compact string holds.
pub uninterp spec fn smol_text(s: SmolStr) -> Seq<char>;

/// Makes a compact string holding the text (`SmolStr::new`).
#[verifier::external_body]
pub(crate) fn smol_new(s: &str) -> (r: SmolStr)
    ensures
        smol_text(r) == s@,
{
    SmolStr::new(s)
}

/// Borrows the text of a compact string (`SmolStr::as_str`).
#[verifier::external_body]
pub(crate) fn smol_as_str(s: &SmolStr) -> (r: &str)
    ensures
        r@ == smol_text(*s),
{
    s.as_str()
}

/// Copies a compact string (`<SmolStr as Clone>::clone`).
#[verifier::external_body]
pub(crate) fn smol_clone(s: &SmolStr) -> (r: SmolStr)
    ensures
        smol_text(r) == smol_text(*s),
{
    s.clone()
}

/// The text of an optional compact string.
pub open spec fn osmol(o: Option<SmolStr>) -> Option<Seq<char>> {
    match o {
        Some(s) => Some(smol_text(s)),
        None => None,
    }
}

/// The texts of compact string pairs.
pub open spec fn smol_pairs(v: Seq<(SmolStr, SmolStr)>) -> Seq<(Seq<char>, Seq<char>)> {
    v.map_values(|p: (SmolStr, SmolStr)| (smol_text(p.0), smol_text(p.1)))
}

/// Makes an optional compact string from an optional string.
pub fn smol_opt(o: &Option<String>) -> (r: Option<SmolStr>)
    ensures
        osmol(r) == ostr(*o),
{
    match o {
        Some(s) => Some(smol_new(s.as_str())),
        None => None,
    }
}

/// Copies an optional compact string.
pub fn smol_opt_clone(o: &Option<SmolStr>) -> (r: Option<SmolStr>)
    ensures
        osmol(r) == osmol(*o),
{
    match o {
        Some(s) => Some(smol_clone(s)),
        None => None,
    }
}

/// Makes an optional string from an optional compact string.
pub fn smol_opt_string(o: &Option<SmolStr>) -> (r: Option<String>)
    ensures
        ostr(r) == osmol(*o),
{
    match o {
        Some(s) => Some(smol_as_str(s).to_owned()),
        None => None,
    }
}

/// Whether a source came from a standard error or a structured error.
#[derive(Debug, Clone, Copy, PartialEq, Eq, Structural)]
pub enum SourcePayloadKind {
    Std,
    Struct,
}

/// One error of a source chain, as text and metadata.
#[derive(Debug, PartialEq, Eq)]
pub struct SourceFrame {
    pub index: usize,
    pub message: SmolStr,
    pub display: Option<SmolStr>,
    pub debug: Option<SmolStr>,
    pub error_type: Option<SmolStr>,
    pub error_code: Option<i32>,
    pub reason: Option<SmolStr>,
    pub path: Option<SmolStr>,
    pub detail: Option<SmolStr>,
    /// Context key-value fields of a structured source.
    pub context_fields: Vec<(SmolStr, SmolStr)>,
    pub metadata: ErrorMetadata,
    pub is_root_cause: bool,
}

/// The observable content of a source frame.
#[verifier::ext_equal]
pub struct FrameView {
    pub index: usize,
    pub message: Seq<char>,
    pub display: Option<Seq<char>>,
    pub debug: Option<Seq<char>>,
    pub error_type: Option<Seq<char>>,
    pub error_code: Option<i32>,
    pub reason: Option<Seq<char>>,
    pub path: Option<Seq<char>>,
    pub detail: Option<Seq<char>>,
    pub context_fields: Seq<(Seq<char>, Seq<char>)>,
    pub metadata: Seq<(Seq<char>, MetaView)>,
    pub is_root_cause: bool,
}

impl View for SourceFrame {
    type V = FrameView;

    open spec fn view(&self) -> FrameView {
        FrameView {
            index: self.index,
            message: smol_text(self.message),
            display: osmol(self.display),
            debug: osmol(self.debug),
            error_type: osmol(self.error_type),
            error_code: self.error_code,
            reason: osmol(self.reason),
            path: osmol(self.path),
            detail: osmol(self.detail),
            context_fields: smol_pairs(self.context_fields@),
            metadata: self.metadata.entries(),
            is_root_cause: self.is_root_cause,
        }
    }
}

/// The views of a sequence of frames.
pub open spec fn frame_views(v: Seq<SourceFrame>) -> Seq<FrameView> {
    v.map_values(|f: SourceFrame| f@)
}

fn clone_smol_pairs(v: &Vec<(SmolStr, SmolStr)>) -> (r: Vec<(SmolStr, SmolStr)>)
    ensures
        smol_pairs(r@) == smol_pairs(v@),
{
    let mut r: Vec<(SmolStr, SmolStr)> = Vec::new();
    let mut i: usize = 0;
    while i < v.len()
        invariant
            i <= v.len(),
            r@.len() == i,
            smol_pairs(r@) == smol_pairs(v@).subrange(0, i as int),
        decreases v.len() - i,
    {
        let a = smol_clone(&v[i].0);
        let b = smol_clone(&v[i].1);
        let ghost before = r@;
        r.push((a, b));
        assert(r@ == before.push((a, b)));
        assert(smol_pairs(r@) =~= smol_pairs(v@).subrange(0, i + 1)) by {
            assert forall|j: int| 0 <= j < i implies #[trigger] r@[j] == before[j] by {}
        }
        i += 1;
    }
    assert(smol_pairs(v@).subrange(0, v.len() as int) =~= smol_pairs(v@));
    r
}

impl Clone for SourceFrame {
    fn clone(&self) -> (r: Self)
        ensures
            r@ == self@,
    {
        SourceFrame {
            index: self.index,
            message: smol_clone(&self.message),
            display: smol_opt_clone(&self.display),
            debug: smol_opt_clone(&self.debug),
            error_type: smol_opt_clone(&self.error_type),
            error_code: self.error_code,
            reason: smol_opt_clone(&self.reason),
            path: smol_opt_clone(&self.path),
            detail: smol_opt_clone(&self.detail),
            context_fields: clone_smol_pairs(&self.context_fields),
            metadata: self.metadata.clone(),
            is_root_cause: self.is_root_cause,
        }
    }
}

/// Copies a vector of frames.
pub fn clone_frames(v: &Vec<SourceFrame>) -> (r: Vec<SourceFrame>)
    ensures
        frame_views(r@) == frame_views(v@),
{
    let mut r: Vec<SourceFrame> = Vec::new();
    let mut i: usize = 0;
    while i < v.len()
        invariant
            i <= v.len(),
            r@.len() == i,
            frame_views(r@) == frame_views(v@).subrange(0, i as int),
        decreases v.len() - i,
    {
        let f = v[i].clone();
        let ghost before = r@;
        r.push(f);
        assert(frame_views(r@) =~= frame_views(v@).subrange(0, i + 1)) by {
            assert forall|j: int| 0 <= j < i implies #[trigger] r@[j] == before[j] by {}
        }
        i += 1;
    }
    assert(frame_views(v@).subrange(0, v.len() as int) =~= frame_views(v@));
    r
}

/// A standard error chain as plain text: the error's own message, the
/// messages of the errors it was caused by (outermost first), and the
/// error's type name.
#[derive(Debug, Clone, PartialEq, Eq)]
pub struct StdSource {
    pub message: String,
    pub causes: Vec<String>,
    pub error_type: String,
}

impl StdSource {
    /// A standard error without further causes.
    pub fn new<M: crate::metadata::IntoText, N: crate::metadata::IntoText>(
        message: M,
        error_type: N,
    ) -> (r: Self)
        ensures
            r.message@ == message.text_of(),
            r.causes@.len() == 0,
            r.error_type@ == error_type.text_of(),
    {
        StdSource { message: message.into_text(), causes: Vec::new(), error_type: error_type.into_text() }
    }

    /// The same error, caused (further down the chain) by an error with
    /// this message.
    pub fn with_cause<M: crate::metadata::IntoText>(self, message: M) -> (r: Self)
        ensures
            r.message@ == self.message@,
            strs(r.causes@) == strs(self.causes@).push(message.text_of()),
            r.error_type@ == self.error_type@,
    {
        let mut s = self;
        let ghost before = strs(s.causes@);
        let m = message.into_text();
        let ghost mv = m@;
        s.causes.push(m);
        assert(strs(s.causes@) =~= before.push(mv));
        s
    }

    /// All messages of the chain, outermost first.
    pub open spec fn chain(&self) -> Seq<Seq<char>> {
        seq![self.message@] + strs(self.causes@)
    }
}

/// The frames collected from a standard error chain: one per message with
/// its position as index, the type name on the first, and the last marked
/// as the root cause.
pub open spec fn std_frame(chain: Seq<Seq<char>>, error_type: Seq<char>, i: int) -> FrameView {
    FrameView {
        index: i as usize,
        message: chain[i],
        display: None,
        debug: None,
        error_type: if i == 0 {
            Some(error_type)
        } else {
            None
        },
        error_code: None,
        reason: None,
        path: None,
        detail: None,
        context_fields: Seq::empty(),
        metadata: Seq::empty(),
        is_root_cause: i == chain.len() - 1,
    }
}

/// Every frame carries its position as its index.
pub open spec fn indexed(frames: Seq<FrameView>) -> bool {
    forall|i: int| 0 <= i < frames.len() ==> (#[trigger] frames[i]).index == i
}

/// The source of a structured error: where it came from, its display text,
/// the display text of its root cause, and its frames.
#[derive(Debug, PartialEq, Eq)]
pub struct SourcePayload {
    kind: SourcePayloadKind,
    display: String,
    root_display: String,
    frames: Vec<SourceFrame>,
}

/// The observable content of a source payload.
#[verifier::ext_equal]
pub struct PayloadView {
    pub kind: SourcePayloadKind,
    pub display: Seq<char>,
    pub root_display: Seq<char>,
    pub frames: Seq<FrameView>,
}

impl View for SourcePayload {
    type V = PayloadView;

    closed spec fn view(&self) -> PayloadView {
        PayloadView {
            kind: self.kind,
            display: self.display@,
            root_display: self.root_display@,
            frames: frame_views(self.frames@),
        }
    }
}

impl SourcePayload {
    #[verifier::type_invariant]
    spec fn wf(&self) -> bool {
        indexed(frame_views(self.frames@)) && self.frames@.len() > 0
    }

    /// Frames carry their positions, and there is at least one.
    pub fn well_formed(&self)
        ensures
            indexed(self@.frames),
            self@.frames.len() > 0,
    {
        proof {
            use_type_invariant(self);
        }
    }

    /// Assembles a payload; the frames must carry their positions.
    pub fn from_parts(
        kind: SourcePayloadKind,
        display: String,
        root_display: String,
        frames: Vec<SourceFrame>,
    ) -> (r: Self)
        requires
            indexed(frame_views(frames@)),
            frames@.len() > 0,
        ensures
            r@ == (PayloadView {
                kind,
                display: display@,
                root_display: root_display@,
                frames: frame_views(frames@),
            }),
    {
        SourcePayload { kind, display, root_display, frames }
    }

    /// The payload of a standard error chain: its frames, its message as the
    /// display text, and its last message as the root cause.
    pub fn from_std(source: &StdSource) -> (r: Self)
        ensures
            r@.kind == SourcePayloadKind::Std,
            r@.display == source.message@,
            r@.root_display == source.chain().last(),
            r@.frames.len() == source.chain().len(),
            forall|i: int|
                0 <= i < source.chain().len() ==> #[trigger] r@.frames[i] == std_frame(
                    source.chain(),
                    source.error_type@,
                    i,
                ),
    {
        let ghost chain = source.chain();
        let mut messages: Vec<String> = Vec::new();
        messages.push(source.message.clone());
        let mut k: usize = 0;
        while k < source.causes.len()
            invariant
                k <= source.causes.len(),
                messages@.len() == k + 1,
                strs(messages@) == chain.subrange(0, k + 1),
                chain == seq![source.message@] + strs(source.causes@),
            decreases source.causes.len() - k,
        {
            let ghost before = messages@;
            let m = source.causes[k].clone();
            messages.push(m);
            assert forall|j: int| 0 <= j < k + 2 implies #[trigger] strs(messages@)[j] == chain[j] by {
                if j < k + 1 {
                    assert(messages@[j] == before[j]);
                    assert(strs(before)[j] == chain.subrange(0, k + 1)[j]);
                } else {
                    assert(chain[j] == strs(source.causes@)[k as int]);
                }
            }
            assert(strs(messages@) =~= chain.subrange(0, k + 2));
            k += 1;
        }
        assert(strs(messages@) =~= chain);
        let n = messages.len();
        let mut frames: Vec<SourceFrame> = Vec::new();
        let mut i: usize = 0;
        while i < n
            invariant
                n == messages@.len(),
                n == chain.len(),
                strs(messages@) == chain,
                i <= n,
                frames@.len() == i,
                frame_views(frames@).len() == i,
                forall|j: int|
                    0 <= j < i ==> #[trigger] frame_views(frames@)[j] == std_frame(
                        chain,
                        source.error_type@,
                        j,
                    ),
            decreases n - i,
        {
            let error_type = if i == 0 {
                Some(smol_new(source.error_type.as_str()))
            } else {
                None
            };
            let f = SourceFrame {
                index: i,
                message: smol_new(messages[i].as_str()),
                display: None,
                debug: None,
                error_type,
                error_code: None,
                reason: None,
                path: None,
                detail: None,
                context_fields: Vec::new(),
                metadata: ErrorMetadata::new(),
                is_root_cause: i + 1 == n,
            };
            assert(smol_pairs(f.context_fields@) =~= Seq::<(Seq<char>, Seq<char>)>::empty());
            assert(chain[i as int] == messages@[i as int]@);
            assert(f@ =~= std_frame(chain, source.error_type@, i as int));
            let ghost before = frames@;
            frames.push(f);
            assert forall|j: int| 0 <= j < i + 1 implies #[trigger] frame_views(frames@)[j]
                == std_frame(chain, source.error_type@, j) by {
                if j < i {
                    assert(frames@[j] == before[j]);
                    assert(frame_views(before)[j] == std_frame(chain, source.error_type@, j));
                }
            }
            i += 1;
        }
        let display = source.message.clone();
        let root_display = messages[n - 1].clone();
        assert(indexed(frame_views(frames@))) by {
            assert forall|j: int| 0 <= j < frame_views(frames@).len() implies (#[trigger] frame_views(
                frames@,
            )[j]).index == j by {
                assert(frame_views(frames@)[j] == std_frame(chain, source.error_type@, j));
            }
        }
        SourcePayload { kind: SourcePayloadKind::Std, display, root_display, frames }
    }

    /// Where the source came from.
    pub fn kind(&self) -> (r: SourcePayloadKind)
        ensures
            r == self@.kind,
    {
        self.kind
    }

    /// The display text of the source error.
    pub fn source(&self) -> (r: String)
        ensures
            r@ == self@.display,
    {
        self.display.clone()
    }

    /// The display text of the innermost error of the chain.
    pub fn root_cause(&self) -> (r: String)
        ensures
            r@ == self@.root_display,
    {
        self.root_display.clone()
    }

    /// The frames, outermost first.
    pub fn frames(&self) -> (r: &[SourceFrame])
        ensures
            frame_views(r@) == self@.frames,
    {
        self.frames.as_slice()
    }

    /// The frame messages, outermost first.
    pub fn source_chain(&self) -> (r: Vec<String>)
        ensures
            strs(r@) == self@.frames.map_values(|f: FrameView| f.message),
    {
        let mut r: Vec<String> = Vec::new();
        let mut i: usize = 0;
        while i < self.frames.len()
            invariant
                i <= self.frames.len(),
                r@.len() == i,
                strs(r@) == frame_views(self.frames@).subrange(0, i as int).map_values(
                    |f: FrameView| f.message,
                ),
            decreases self.frames.len() - i,
        {
            let ghost before = r@;
            let m = smol_as_str(&self.frames[i].message).to_owned();
            r.push(m);
            assert forall|j: int| 0 <= j < i + 1 implies #[trigger] strs(r@)[j]
                == frame_views(self.frames@)[j].message by {
                if j < i {
                    assert(r@[j] == before[j]);
                    assert(strs(before)[j] == frame_views(self.frames@).subrange(0, i as int).map_values(
                        |f: FrameView| f.message,
                    )[j]);
                }
            }
            assert(strs(r@) =~= frame_views(self.frames@).subrange(0, i + 1).map_values(
                |f: FrameView| f.message,
            ));
            i += 1;
        }
        assert(frame_views(self.frames@).subrange(0, self.frames.len() as int) =~= frame_views(
            self.frames@,
        ));
        r
    }
}

impl Clone for SourcePayload {
    fn clone(&self) -> (r: Self)
        ensures
            r@ == self@,
    {
        proof {
            use_type_invariant(self);
        }
        let frames = clone_frames(&self.frames);
        assert(frame_views(frames@) == frame_views(self.frames@));
        assert(frames@.len() == frame_views(frames@).len());
        assert(indexed(frame_views(frames@)));
        SourcePayload {
            kind: self.kind,
            display: self.display.clone(),
            root_display: self.root_display.clone(),
            frames,
        }
    }
}

/// A read-only view of the source payload of an error.
#[derive(Debug, Clone, Copy)]
pub struct SourcePayloadRef<'a> {
    pub payload: &'a SourcePayload,
}

impl<'a> SourcePayloadRef<'a> {
    /// Where the source came from.
    pub fn kind(&self) -> (r: SourcePayloadKind)
        ensures
            r == self.payload@.kind,
    {
        self.payload.kind()
    }

    /// The display text of the source error.
    pub fn source(&self) -> (r: String)
        ensures
            r@ == self.payload@.display,
    {
        self.payload.source()
    }

    /// The frames, outermost first.
    pub fn frames(&self) -> (r: &'a [SourceFrame])
        ensures
            frame_views(r@) == self.payload@.frames,
    {
        self.payload.frames()
    }

    /// The display text of the innermost error of the chain.
    pub fn root_cause(&self) -> (r: String)
        ensures
            r@ == self.payload@.root_display,
    {
        self.payload.root_cause()
    }

    /// The frame messages, outermost first.
    pub fn source_chain(&self) -> (r: Vec<String>)
        ensures
            strs(r@) == self.payload@.frames.map_values(|f: FrameView| f.message),
    {
        self.payload.source_chain()
    }
}

} // verus!
