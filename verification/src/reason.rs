//! Reason-layer traits: the domain reason a structured error carries, its
//! legacy numeric code, and its stable identity (code and category).
use vstd::prelude::*;

verus! {

/// Categorisation of an error for protocol-level routing and policy decisions.
#[derive(Debug, Clone, Copy, PartialEq, Eq, Structural)]
pub enum ErrorCategory {
    /// Configuration / environment issue (e.g. missing file, bad config).
    Conf,
    /// Business-logic violation (e.g. validation failure, policy reject).
    Biz,
    /// Internal logic error (e.g. unreachable branch, invariant violation).
    Logic,
    /// System / infrastructure error (e.g. network, disk I/O, upstream timeout).
    Sys,
}

/// The stable string code of a category.
pub open spec fn category_text(c: ErrorCategory) -> Seq<char> {
    match c {
        ErrorCategory::Conf => "conf"@,
        ErrorCategory::Biz => "biz"@,
        ErrorCategory::Logic => "logic"@,
        ErrorCategory::Sys => "sys"@,
    }
}

impl ErrorCategory {
    /// Return the stable string code for this category.
    pub fn as_str(self) -> (s: &'static str)
        ensures
            s@ == category_text(self),
    {
        match self {
            ErrorCategory::Conf => "conf",
            ErrorCategory::Biz => "biz",
            ErrorCategory::Logic => "logic",
            ErrorCategory::Sys => "sys",
        }
    }
}

/// Marker for domain-specific error reason types: the generic parameter of
/// `StructError`. A reason knows the human-readable message it displays as.
pub trait DomainReason: Sized {
    /// The message this reason displays as. This default applies only to an
    /// implementation in verified code that does not define it;
    /// implementations outside verified code are not held to it.
    closed spec fn spec_message(&self) -> Seq<char> {
        Seq::empty()
    }

    /// The message this reason displays as.
    fn message(&self) -> (s: String)
        ensures
            s@ == self.spec_message(),
    ;
}

/// Legacy numeric error code. The default is `500`, a compatibility
/// fallback rather than a classification.
pub trait ErrorCode {
    fn error_code(&self) -> (c: i32)
        default_ensures
            c == 500,
    {
        500
    }
}

/// Runtime identity provider for stable error codes and categories.
pub trait ErrorIdentityProvider {
    /// The stable machine-facing code. This default applies only to an
    /// implementation in verified code that does not define it;
    /// implementations outside verified code are not held to it.
    closed spec fn spec_stable_code(&self) -> Seq<char> {
        Seq::empty()
    }

    /// The category for routing and exposure decisions. This default
    /// applies only to an implementation in verified code that does not
    /// define it; implementations outside verified code are not held to it.
    closed spec fn spec_error_category(&self) -> ErrorCategory {
        ErrorCategory::Logic
    }

    fn stable_code(&self) -> (s: &'static str)
        ensures
            s@ == self.spec_stable_code(),
    ;

    fn error_category(&self) -> (c: ErrorCategory)
        ensures
            c == self.spec_error_category(),
    ;
}


/// The display message an identity implies: the part after its last `.`,
/// with each `_` read as a space.
pub open spec fn identity_message(s: Seq<char>) -> Seq<char>
    decreases s.len(),
{
    if s.len() == 0 {
        Seq::empty()
    } else if s.last() == '.' {
        Seq::empty()
    } else {
        identity_message(s.drop_last()).push(if s.last() == '_' {
            ' '
        } else {
            s.last()
        })
    }
}

/// The text before the first `.` from position `i` on.
pub open spec fn prefix_until_dot(s: Seq<char>, i: int) -> Seq<char>
    decreases s.len() - i,
{
    if i < 0 || i >= s.len() || s[i] == '.' {
        s.subrange(0, if i < 0 { 0 } else if i > s.len() { s.len() as int } else { i })
    } else {
        prefix_until_dot(s, i + 1)
    }
}

/// The category a category name (`conf`, `biz`, `logic`, `sys`) stands for.
pub open spec fn category_named(name: Seq<char>) -> Option<ErrorCategory> {
    if name == "conf"@ {
        Some(ErrorCategory::Conf)
    } else if name == "biz"@ {
        Some(ErrorCategory::Biz)
    } else if name == "logic"@ {
        Some(ErrorCategory::Logic)
    } else if name == "sys"@ {
        Some(ErrorCategory::Sys)
    } else {
        None
    }
}

/// The category an identity implies by its prefix before the first `.`;
/// none for an unknown prefix.
pub open spec fn identity_category_of(s: Seq<char>) -> Option<ErrorCategory> {
    category_named(prefix_until_dot(s, 0))
}

/// The display message an identity implies (see [`identity_message`]).
pub fn message_from_identity(identity: &str) -> (r: String)
    ensures
        r@ == identity_message(identity@),
{
    let n = identity.unicode_len();
    let mut out = String::new();
    let mut i: usize = 0;
    while i < n
        invariant
            n == identity@.len(),
            i <= n,
            out@ == identity_message(identity@.subrange(0, i as int)),
        decreases n - i,
    {
        let c = identity.get_char(i);
        proof {
            let t = identity@.subrange(0, i + 1);
            assert(t.drop_last() =~= identity@.subrange(0, i as int));
            assert(t.last() == c);
        }
        if c == '.' {
            out = String::new();
            assert(out@ =~= Seq::<char>::empty());
        } else if c == '_' {
            crate::text::push_char(&mut out, ' ');
        } else {
            crate::text::push_char(&mut out, c);
        }
        i += 1;
    }
    assert(identity@.subrange(0, n as int) =~= identity@);
    out
}

/// The category a category name stands for (see [`category_named`]).
pub fn category_from_name(name: &str) -> (r: Option<ErrorCategory>)
    ensures
        r == category_named(name@),
{
    if crate::text::text_eq(name, "conf") {
        Some(ErrorCategory::Conf)
    } else if crate::text::text_eq(name, "biz") {
        Some(ErrorCategory::Biz)
    } else if crate::text::text_eq(name, "logic") {
        Some(ErrorCategory::Logic)
    } else if crate::text::text_eq(name, "sys") {
        Some(ErrorCategory::Sys)
    } else {
        None
    }
}

/// The category an identity implies (see [`identity_category_of`]).
pub fn identity_category(identity: &str) -> (r: Option<ErrorCategory>)
    ensures
        r == identity_category_of(identity@),
{
    let n = identity.unicode_len();
    let mut i: usize = 0;
    while i < n && identity.get_char(i) != '.'
        invariant
            n == identity@.len(),
            i <= n,
            prefix_until_dot(identity@, 0) == prefix_until_dot(identity@, i as int),
        decreases n - i,
    {
        i += 1;
    }
    let prefix = identity.substring_char(0, i);
    category_from_name(prefix)
}

/// An identity that starts with a category's name and a dot implies that
/// category.
pub proof fn law_identity_prefix_gives_category(c: ErrorCategory, rest: Seq<char>)
    ensures
        identity_category_of(category_text(c) + "."@ + rest) == Some(c),
{
    reveal_strlit("conf");
    reveal_strlit("biz");
    reveal_strlit("logic");
    reveal_strlit("sys");
    reveal_strlit(".");
    let s = category_text(c) + "."@ + rest;
    let k = category_text(c).len() as int;
    assert forall|i: int| 0 <= i <= k implies prefix_until_dot(s, i) == prefix_until_dot(s, k) by {
        lemma_prefix_walk(s, i, k);
    }
    assert(s[k] == '.');
    assert(s.subrange(0, k) =~= category_text(c));
}

proof fn lemma_prefix_walk(s: Seq<char>, i: int, k: int)
    requires
        0 <= i <= k < s.len(),
        forall|j: int| i <= j < k ==> s[j] != '.',
    ensures
        prefix_until_dot(s, i) == prefix_until_dot(s, k),
    decreases k - i,
{
    if i < k {
        lemma_prefix_walk(s, i + 1, k);
    }
}

} // verus!
