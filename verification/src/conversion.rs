//! Extension traits: annotating errors (and results) with position and
//! operation context, converting between reason types, wrapping one error
//! as the source of another, and turning raw error chains into structured
//! errors.
use vstd::prelude::*;

use crate::context::{at_context, empty_context, ContextView, IntoContext, OperationContext};
use crate::error::{convert_error, std_payload_ok, names_struct_error, struct_payload, ErrorView, StructError};
use crate::metadata::IntoText;
use crate::reason::DomainReason;
use crate::source::StdSource;

verus! {

/// The context that `OperationContext::doing(action)` makes.
pub open spec fn doing_context(action: Seq<char>) -> ContextView {
    ContextView { action: Some(action), path: seq![action], ..empty_context() }
}

/// The contexts that `at` attaches for a value that converts to `c0`.
pub open spec fn at_from(c: ContextView, c0: ContextView) -> bool {
    c == at_context(c0)
}

/// Extension methods for attaching operation context and position.
pub trait ErrorWith: Sized {
    /// `r` is `self` with its position set to `p`.
    spec fn positioned(&self, p: Seq<char>, r: Self) -> bool;

    /// `r` is `self` with one more, outermost, context that satisfies `ok`.
    spec fn context_pushed(&self, ok: spec_fn(ContextView) -> bool, r: Self) -> bool;

    /// Set the position.
    fn position<S: IntoText>(self, desc: S) -> (r: Self)
        ensures
            self.positioned(desc.text_of(), r),
    ;

    /// Add an outer context converted from `ctx`.
    fn with_context<C: IntoContext>(self, ctx: C) -> (r: Self)
        ensures
            self.context_pushed(|c: ContextView| ctx.context_ok(c), r),
    ;

    /// Add an outer context naming the operation that was running.
    fn doing<S: IntoText>(self, desc: S) -> (r: Self)
        ensures
            self.context_pushed(|c: ContextView| c == doing_context(desc.text_of()), r),
    ;

    /// Add an outer context naming where it happened (see `at_context`).
    fn at<C: IntoContext>(self, ctx: C) -> (r: Self)
        ensures
            self.context_pushed(
                |c: ContextView| exists|c0: ContextView| #[trigger] ctx.context_ok(c0) && at_from(c, c0),
                r,
            ),
    ;
}

impl<T: DomainReason> StructError<T> {
    fn with_exact_context(self, c: OperationContext) -> (r: Self)
        ensures
            r@ == (ErrorView { context: self@.context.push(c@), ..self@ }),
    {
        let mut s = self;
        crate::context::ContextAdd::add_context(&mut s, c);
        s
    }
}

impl<T: DomainReason> ErrorWith for StructError<T> {
    open spec fn positioned(&self, p: Seq<char>, r: Self) -> bool {
        r@ == (ErrorView { position: Some(p), ..self@ })
    }

    open spec fn context_pushed(&self, ok: spec_fn(ContextView) -> bool, r: Self) -> bool {
        &&& r@.context.len() == self@.context.len() + 1
        &&& r@.context.drop_last() == self@.context
        &&& ok(r@.context.last())
        &&& r@ == (ErrorView { context: r@.context, ..self@ })
    }

    fn position<S: IntoText>(self, desc: S) -> (r: Self) {
        self.with_position(desc)
    }

    fn with_context<C: IntoContext>(self, ctx: C) -> (r: Self) {
        StructError::with_context(self, ctx)
    }

    fn doing<S: IntoText>(self, desc: S) -> (r: Self) {
        let c = OperationContext::doing(desc);
        let r = self.with_exact_context(c);
        assert(r@.context.drop_last() =~= self@.context);
        r
    }

    fn at<C: IntoContext>(self, ctx: C) -> (r: Self) {
        let c0 = ctx.into_context();
        let c = c0.into_at_context();
        let r = self.with_exact_context(c);
        assert(r@.context.drop_last() =~= self@.context);
        assert(at_from(r@.context.last(), c0@));
        r
    }
}

impl<V, E: ErrorWith> ErrorWith for Result<V, E> {
    open spec fn positioned(&self, p: Seq<char>, r: Self) -> bool {
        match (*self, r) {
            (Ok(a), Ok(b)) => b == a,
            (Err(e), Err(f)) => e.positioned(p, f),
            _ => false,
        }
    }

    open spec fn context_pushed(&self, ok: spec_fn(ContextView) -> bool, r: Self) -> bool {
        match (*self, r) {
            (Ok(a), Ok(b)) => b == a,
            (Err(e), Err(f)) => e.context_pushed(ok, f),
            _ => false,
        }
    }

    fn position<S: IntoText>(self, desc: S) -> (r: Self) {
        match self {
            Ok(v) => Ok(v),
            Err(e) => Err(e.position(desc)),
        }
    }

    fn with_context<C: IntoContext>(self, ctx: C) -> (r: Self) {
        match self {
            Ok(v) => Ok(v),
            Err(e) => Err(e.with_context(ctx)),
        }
    }

    fn doing<S: IntoText>(self, desc: S) -> (r: Self) {
        match self {
            Ok(v) => Ok(v),
            Err(e) => Err(e.doing(desc)),
        }
    }

    fn at<C: IntoContext>(self, ctx: C) -> (r: Self) {
        match self {
            Ok(v) => Ok(v),
            Err(e) => Err(e.at(ctx)),
        }
    }
}

/// `f` is `e` with its reason converted by `R2::from`, all else kept.
pub open spec fn converted<R1: DomainReason, R2: DomainReason + From<R1>>(
    e: ErrorView<R1>,
    f: ErrorView<R2>,
) -> bool {
    &&& call_ensures(R2::from, (e.reason,), f.reason)
    &&& f.detail == e.detail
    &&& f.position == e.position
    &&& f.context == e.context
    &&& f.source == e.source
}

/// The error that wraps `e` as its source, with a new reason and detail.
pub open spec fn wrapped<R1: DomainReason, R2: DomainReason>(
    e: ErrorView<R1>,
    reason: R2,
    detail: Seq<char>,
) -> ErrorView<R2> {
    ErrorView {
        reason,
        detail: Some(detail),
        position: None,
        context: Seq::empty(),
        source: Some(struct_payload(e)),
    }
}

/// Convert the error of a result to another reason type.
pub trait ErrorConv<V, R: DomainReason>: Sized {
    fn err_conv(self) -> Result<V, StructError<R>>;
}

/// Convert an error to another reason type.
pub trait ConvStructError<R: DomainReason>: Sized {
    fn conv(self) -> StructError<R>;
}

/// Wrap the error of a result as the source of a new error.
pub trait ErrorWrapAs<V, R: DomainReason>: Sized {
    fn wrap_as<S: IntoText>(self, reason: R, detail: S) -> Result<V, StructError<R>>;
}

/// Wrap an error as the source of a new error.
pub trait WrapStructErrorAs<R: DomainReason>: Sized {
    fn wrap_as<S: IntoText>(self, reason: R, detail: S) -> StructError<R>;
}

/// Turn a reason into an error.
pub trait ToStructError<R: DomainReason> {
    fn to_err(self) -> StructError<R>;

    fn err_result<V>(self) -> Result<V, StructError<R>>;
}

impl<V, R1: DomainReason, R2: DomainReason + From<R1>> ErrorConv<V, R2> for Result<
    V,
    StructError<R1>,
> {
    fn err_conv(self) -> (r: Result<V, StructError<R2>>)
        ensures
            match (self, r) {
                (Ok(a), Ok(b)) => b == a,
                (Err(e), Err(f)) => converted::<R1, R2>(e@, f@),
                _ => false,
            },
    {
        match self {
            Ok(o) => Ok(o),
            Err(e) => Err(convert_error::<R1, R2>(e)),
        }
    }
}

impl<R1: DomainReason, R2: DomainReason + From<R1>> ConvStructError<R2> for StructError<R1> {
    fn conv(self) -> (r: StructError<R2>)
        ensures
            converted::<R1, R2>(self@, r@),
    {
        convert_error::<R1, R2>(self)
    }
}

impl<V, R1: DomainReason, R2: DomainReason> ErrorWrapAs<V, R2> for Result<V, StructError<R1>> {
    fn wrap_as<S: IntoText>(self, reason: R2, detail: S) -> (r: Result<V, StructError<R2>>)
        ensures
            match (self, r) {
                (Ok(a), Ok(b)) => b == a,
                (Err(e), Err(f)) => f@ == wrapped(e@, reason, detail.text_of()),
                _ => false,
            },
    {
        match self {
            Ok(v) => Ok(v),
            Err(e) => Err(WrapStructErrorAs::wrap_as(e, reason, detail)),
        }
    }
}

impl<R1: DomainReason, R2: DomainReason> WrapStructErrorAs<R2> for StructError<R1> {
    fn wrap_as<S: IntoText>(self, reason: R2, detail: S) -> (r: StructError<R2>)
        ensures
            r@ == wrapped(self@, reason, detail.text_of()),
    {
        self.wrap(reason).with_detail(detail)
    }
}

impl<R: DomainReason> ToStructError<R> for R {
    fn to_err(self) -> (r: StructError<R>)
        ensures
            r@ == (ErrorView {
                reason: self,
                detail: None,
                position: None,
                context: Seq::empty(),
                source: None,
            }),
    {
        StructError::from_reason(self)
    }

    fn err_result<V>(self) -> (r: Result<V, StructError<R>>)
        ensures
            r matches Err(e) && e@ == (ErrorView {
                reason: self,
                detail: None,
                position: None,
                context: Seq::empty(),
                source: None,
            }),
    {
        Err(StructError::from_reason(self))
    }
}

/// Marker for raw (non-structured) error chains that may be attached as an
/// unstructured source.
pub trait RawStdError {}

impl RawStdError for StdSource {}

/// A raw error chain explicitly marked as an unstructured source.
#[derive(Debug)]
pub struct RawSource<E>(E);

impl<E> RawSource<E> {
    /// The wrapped error.
    pub closed spec fn wrapped_value(&self) -> E {
        self.0
    }

    /// Unwrap.
    pub fn into_inner(self) -> (r: E)
        ensures
            r == self.wrapped_value(),
    {
        self.0
    }

    /// Borrow the wrapped error.
    pub fn inner(&self) -> (r: &E)
        ensures
            *r == self.wrapped_value(),
    {
        &self.0
    }
}

/// Mark a raw error chain as an unstructured source.
pub fn raw_source<E: RawStdError>(err: E) -> (r: RawSource<E>)
    ensures
        r.wrapped_value() == err,
{
    RawSource(err)
}

/// The error a raw chain becomes: the reason and detail, with the chain as
/// its standard source.
pub open spec fn attached<R: DomainReason>(
    s: StdSource,
    reason: R,
    detail: Seq<char>,
    f: ErrorView<R>,
) -> bool {
    &&& f.reason == reason
    &&& f.detail == Some(detail)
    &&& f.position is None
    &&& f.context == Seq::<ContextView>::empty()
    &&& f.source is Some
    &&& std_payload_ok(s, f.source->0)
}

/// Turn the raw error of a result into a structured error.
pub trait IntoAs<V, R: DomainReason>: Sized {
    /// Whether the raw error may be attached (it is not a structured error).
    spec fn into_as_ready(&self) -> bool;

    fn into_as<S: IntoText>(self, reason: R, detail: S) -> Result<V, StructError<R>>
        requires
            self.into_as_ready(),
    ;
}

fn attach_std_source<R: DomainReason, S: IntoText>(s: StdSource, reason: R, detail: S) -> (r:
    StructError<R>)
    requires
        !names_struct_error(s.error_type@),
    ensures
        attached(s, reason, detail.text_of(), r@),
{
    StructError::from_reason(reason).with_detail(detail).with_std_source(s)
}

impl<V, R: DomainReason> IntoAs<V, R> for Result<V, StdSource> {
    open spec fn into_as_ready(&self) -> bool {
        match *self {
            Ok(_) => true,
            Err(s) => !names_struct_error(s.error_type@),
        }
    }

    fn into_as<S: IntoText>(self, reason: R, detail: S) -> (r: Result<V, StructError<R>>)
        ensures
            match (self, r) {
                (Ok(a), Ok(b)) => b == a,
                (Err(s), Err(f)) => attached(s, reason, detail.text_of(), f@),
                _ => false,
            },
    {
        match self {
            Ok(v) => Ok(v),
            Err(s) => Err(attach_std_source(s, reason, detail)),
        }
    }
}

impl<V, R: DomainReason> IntoAs<V, R> for Result<V, RawSource<StdSource>> {
    open spec fn into_as_ready(&self) -> bool {
        match *self {
            Ok(_) => true,
            Err(s) => !names_struct_error(s.wrapped_value().error_type@),
        }
    }

    fn into_as<S: IntoText>(self, reason: R, detail: S) -> (r: Result<V, StructError<R>>)
        ensures
            match (self, r) {
                (Ok(a), Ok(b)) => b == a,
                (Err(s), Err(f)) => attached(s.wrapped_value(), reason, detail.text_of(), f@),
                _ => false,
            },
    {
        match self {
            Ok(v) => Ok(v),
            Err(s) => Err(attach_std_source(s.into_inner(), reason, detail)),
        }
    }
}


impl<T: DomainReason> StructError<T> {
    /// Remap the reason type: the reason goes through `R2::from`; detail,
    /// position, contexts and source are kept.
    pub fn upcast<R2: DomainReason + From<T>>(self) -> (r: StructError<R2>)
        ensures
            converted::<T, R2>(self@, r@),
    {
        convert_error::<T, R2>(self)
    }
}

/// First entry of an error into the structured system: a raw error chain
/// becomes the standard source of a new error, a structured error its
/// structured source.
pub trait SourceErr<V, R: DomainReason>: Sized {
    /// Whether the error may be attached (a raw chain must not name a
    /// structured error type).
    spec fn source_err_ready(&self) -> bool;

    fn source_err<S: IntoText>(self, reason: R, detail: S) -> Result<V, StructError<R>>
        requires
            self.source_err_ready(),
    ;
}

impl<V, R1: DomainReason, R: DomainReason> SourceErr<V, R> for Result<V, StructError<R1>> {
    open spec fn source_err_ready(&self) -> bool {
        true
    }

    fn source_err<S: IntoText>(self, reason: R, detail: S) -> (r: Result<V, StructError<R>>)
        ensures
            match (self, r) {
                (Ok(a), Ok(b)) => b == a,
                (Err(e), Err(f)) => f@ == wrapped(e@, reason, detail.text_of()),
                _ => false,
            },
    {
        ErrorWrapAs::wrap_as(self, reason, detail)
    }
}

impl<V, R: DomainReason> SourceErr<V, R> for Result<V, StdSource> {
    open spec fn source_err_ready(&self) -> bool {
        match *self {
            Ok(_) => true,
            Err(s) => !names_struct_error(s.error_type@),
        }
    }

    fn source_err<S: IntoText>(self, reason: R, detail: S) -> (r: Result<V, StructError<R>>)
        ensures
            match (self, r) {
                (Ok(a), Ok(b)) => b == a,
                (Err(s), Err(f)) => attached(s, reason, detail.text_of(), f@),
                _ => false,
            },
    {
        IntoAs::into_as(self, reason, detail)
    }
}

impl<V, R: DomainReason> SourceErr<V, R> for Result<V, RawSource<StdSource>> {
    open spec fn source_err_ready(&self) -> bool {
        match *self {
            Ok(_) => true,
            Err(s) => !names_struct_error(s.wrapped_value().error_type@),
        }
    }

    fn source_err<S: IntoText>(self, reason: R, detail: S) -> (r: Result<V, StructError<R>>)
        ensures
            match (self, r) {
                (Ok(a), Ok(b)) => b == a,
                (Err(s), Err(f)) => attached(s.wrapped_value(), reason, detail.text_of(), f@),
                _ => false,
            },
    {
        IntoAs::into_as(self, reason, detail)
    }
}

/// Remapping the reason type twice is remapping it once through both
/// conversions: the parts besides the reason are kept all the way.
pub proof fn law_upcast_keeps_everything_but_the_reason<
    R1: DomainReason,
    R2: DomainReason + From<R1>,
    R3: DomainReason + From<R2>,
>(e: ErrorView<R1>, f: ErrorView<R2>, g: ErrorView<R3>)
    requires
        converted::<R1, R2>(e, f),
        converted::<R2, R3>(f, g),
    ensures
        g.detail == e.detail,
        g.position == e.position,
        g.context == e.context,
        g.source == e.source,
{
}

} // verus!
