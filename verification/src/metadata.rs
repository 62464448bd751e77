//! Typed metadata attached to an operation context: a map from text keys to
//! string, boolean or integer values, kept in key order.
use vstd::prelude::*;

use crate::text::{
    bool_string, bool_text, decimal, i64_text, int_text, lemma_text_lt_asymmetric, lemma_text_lt_irreflexive,
    lemma_text_lt_total, lemma_text_lt_transitive, text_less, text_lt, u64_text,
};

verus! {

/// A typed value stored in [`ErrorMetadata`].
#[derive(Debug, PartialEq, Eq)]
pub enum MetadataValue {
    String(String),
    Bool(bool),
    I64(i64),
    U64(u64),
}

/// The mathematical value of a [`MetadataValue`].
pub enum MetaView {
    Str(Seq<char>),
    Bool(bool),
    I64(i64),
    U64(u64),
}

impl View for MetadataValue {
    type V = MetaView;

    open spec fn view(&self) -> MetaView {
        match self {
            MetadataValue::String(s) => MetaView::Str(s@),
            MetadataValue::Bool(b) => MetaView::Bool(*b),
            MetadataValue::I64(i) => MetaView::I64(*i),
            MetadataValue::U64(u) => MetaView::U64(*u),
        }
    }
}

impl Clone for MetadataValue {
    fn clone(&self) -> (r: Self)
        ensures
            r == *self,
    {
        match self {
            MetadataValue::String(s) => MetadataValue::String(s.clone()),
            MetadataValue::Bool(b) => MetadataValue::Bool(*b),
            MetadataValue::I64(i) => MetadataValue::I64(*i),
            MetadataValue::U64(u) => MetadataValue::U64(*u),
        }
    }
}

/// The text that `Display` gives a metadata value.
pub open spec fn meta_text(v: MetaView) -> Seq<char> {
    match v {
        MetaView::Str(s) => s,
        MetaView::Bool(b) => bool_text(b),
        MetaView::I64(i) => int_text(i as int),
        MetaView::U64(u) => decimal(u as nat),
    }
}

impl MetadataValue {
    /// The value as text: a string as it is, the others in their usual form.
    pub fn to_string(&self) -> (r: String)
        ensures
            r@ == meta_text(self@),
    {
        match self {
            MetadataValue::String(s) => s.clone(),
            MetadataValue::Bool(b) => bool_string(*b),
            MetadataValue::I64(i) => i64_text(*i),
            MetadataValue::U64(u) => u64_text(*u),
        }
    }
}

/// A value that converts into text: a string slice or a string.
pub trait IntoText {
    spec fn text_of(&self) -> Seq<char>;

    fn into_text(self) -> (s: String)
        ensures
            s@ == self.text_of(),
    ;
}

impl<'a> IntoText for &'a str {
    open spec fn text_of(&self) -> Seq<char> {
        (*self)@
    }

    fn into_text(self) -> (s: String) {
        self.to_owned()
    }
}

impl IntoText for String {
    open spec fn text_of(&self) -> Seq<char> {
        self@
    }

    fn into_text(self) -> (s: String) {
        self
    }
}

impl<'a> IntoText for &'a String {
    open spec fn text_of(&self) -> Seq<char> {
        (*self)@
    }

    fn into_text(self) -> (s: String) {
        self.clone()
    }
}

/// A value that converts into a [`MetadataValue`].
pub trait IntoMetadataValue {
    spec fn meta_of(&self) -> MetaView;

    fn into_meta(self) -> (v: MetadataValue)
        ensures
            v@ == self.meta_of(),
    ;
}

impl<'a> IntoMetadataValue for &'a str {
    open spec fn meta_of(&self) -> MetaView {
        MetaView::Str((*self)@)
    }

    fn into_meta(self) -> (v: MetadataValue) {
        MetadataValue::String(self.to_owned())
    }
}

impl IntoMetadataValue for String {
    open spec fn meta_of(&self) -> MetaView {
        MetaView::Str(self@)
    }

    fn into_meta(self) -> (v: MetadataValue) {
        MetadataValue::String(self)
    }
}

impl IntoMetadataValue for bool {
    open spec fn meta_of(&self) -> MetaView {
        MetaView::Bool(*self)
    }

    fn into_meta(self) -> (v: MetadataValue) {
        MetadataValue::Bool(self)
    }
}

impl IntoMetadataValue for i64 {
    open spec fn meta_of(&self) -> MetaView {
        MetaView::I64(*self)
    }

    fn into_meta(self) -> (v: MetadataValue) {
        MetadataValue::I64(self)
    }
}

impl IntoMetadataValue for i32 {
    open spec fn meta_of(&self) -> MetaView {
        MetaView::I64(*self as i64)
    }

    fn into_meta(self) -> (v: MetadataValue) {
        MetadataValue::I64(self as i64)
    }
}

impl IntoMetadataValue for u64 {
    open spec fn meta_of(&self) -> MetaView {
        MetaView::U64(*self)
    }

    fn into_meta(self) -> (v: MetadataValue) {
        MetadataValue::U64(self)
    }
}

impl IntoMetadataValue for u32 {
    open spec fn meta_of(&self) -> MetaView {
        MetaView::U64(*self as u64)
    }

    fn into_meta(self) -> (v: MetadataValue) {
        MetadataValue::U64(self as u64)
    }
}

impl IntoMetadataValue for usize {
    open spec fn meta_of(&self) -> MetaView {
        MetaView::U64(*self as u64)
    }

    fn into_meta(self) -> (v: MetadataValue) {
        MetadataValue::U64(self as u64)
    }
}

impl IntoMetadataValue for MetadataValue {
    open spec fn meta_of(&self) -> MetaView {
        self@
    }

    fn into_meta(self) -> (v: MetadataValue) {
        self
    }
}

/// The views of stored entries.
pub open spec fn entry_views(v: Seq<(String, MetadataValue)>) -> Seq<(Seq<char>, MetaView)> {
    v.map_values(|e: (String, MetadataValue)| (e.0@, e.1@))
}

/// Keys strictly increase along the entries: sorted, and no key twice.
pub open spec fn keys_sorted(s: Seq<(Seq<char>, MetaView)>) -> bool {
    forall|i: int, j: int| 0 <= i < j < s.len() ==> text_lt(#[trigger] s[i].0, #[trigger] s[j].0)
}

/// How many entries have a key below `k`: the place of `k` in sorted entries.
pub open spec fn count_below(s: Seq<(Seq<char>, MetaView)>, k: Seq<char>) -> nat
    decreases s.len(),
{
    if s.len() == 0 {
        0
    } else {
        count_below(s.drop_last(), k) + (if text_lt(s.last().0, k) {
            1nat
        } else {
            0nat
        })
    }
}

/// The value stored under `k` in sorted entries, if any.
pub open spec fn meta_get(s: Seq<(Seq<char>, MetaView)>, k: Seq<char>) -> Option<MetaView> {
    let i = count_below(s, k) as int;
    if i < s.len() && s[i].0 == k {
        Some(s[i].1)
    } else {
        None
    }
}

/// Sorted entries after storing `v` under `k`: the old value replaced, or a
/// new entry at its place in key order.
pub open spec fn meta_insert(s: Seq<(Seq<char>, MetaView)>, k: Seq<char>, v: MetaView) -> Seq<
    (Seq<char>, MetaView),
> {
    let i = count_below(s, k) as int;
    if i < s.len() && s[i].0 == k {
        s.update(i, (k, v))
    } else {
        s.insert(i, (k, v))
    }
}

/// Sorted entries after adding, in order, each entry of `other` whose key
/// `s` does not have yet.
pub open spec fn meta_merge_missing(
    s: Seq<(Seq<char>, MetaView)>,
    other: Seq<(Seq<char>, MetaView)>,
) -> Seq<(Seq<char>, MetaView)>
    decreases other.len(),
{
    if other.len() == 0 {
        s
    } else {
        let acc = meta_merge_missing(s, other.drop_last());
        let e = other.last();
        if meta_get(acc, e.0) is Some {
            acc
        } else {
            meta_insert(acc, e.0, e.1)
        }
    }
}

/// In sorted entries, the entries before `count_below(s, k)` have keys
/// below `k` and the others do not.
pub proof fn lemma_count_below(s: Seq<(Seq<char>, MetaView)>, k: Seq<char>)
    requires
        keys_sorted(s),
    ensures
        count_below(s, k) <= s.len(),
        forall|j: int| 0 <= j < count_below(s, k) ==> text_lt(#[trigger] s[j].0, k),
        forall|j: int| count_below(s, k) <= j < s.len() ==> !text_lt(#[trigger] s[j].0, k),
    decreases s.len(),
{
    if s.len() > 0 {
        let t = s.drop_last();
        assert(keys_sorted(t)) by {
            assert forall|i: int, j: int| 0 <= i < j < t.len() implies text_lt(
                #[trigger] t[i].0,
                #[trigger] t[j].0,
            ) by {
                assert(t[i] == s[i] && t[j] == s[j]);
            }
        }
        lemma_count_below(t, k);
        let c = count_below(t, k);
        let n = s.len() - 1;
        if text_lt(s.last().0, k) {
            if c < n {
                assert(!text_lt(t[c as int].0, k));
                assert(text_lt(s[c as int].0, s[n].0));
                lemma_text_lt_transitive(s[c as int].0, s[n].0, k);
                assert(false);
            }
            assert forall|j: int| 0 <= j < count_below(s, k) implies text_lt(#[trigger] s[j].0, k) by {
                if j < n {
                    assert(s[j] == t[j]);
                }
            }
        } else {
            assert forall|j: int| count_below(s, k) <= j < s.len() implies !text_lt(
                #[trigger] s[j].0,
                k,
            ) by {
                if j < n {
                    assert(s[j] == t[j]);
                }
            }
            assert forall|j: int| 0 <= j < count_below(s, k) implies text_lt(#[trigger] s[j].0, k) by {
                assert(s[j] == t[j]);
            }
        }
    }
}

/// In sorted entries, a key is stored exactly at its place in key order.
pub proof fn lemma_meta_get(s: Seq<(Seq<char>, MetaView)>, k: Seq<char>, j: int)
    requires
        keys_sorted(s),
        0 <= j < s.len(),
        s[j].0 == k,
    ensures
        count_below(s, k) == j,
        meta_get(s, k) == Some(s[j].1),
{
    lemma_count_below(s, k);
    lemma_text_lt_irreflexive(k);
    let c = count_below(s, k) as int;
    if c < j {
        assert(text_lt(s[c].0, s[j].0));
        assert(false);
    }
}

/// A key that no entry has is not found.
pub proof fn lemma_meta_get_absent(s: Seq<(Seq<char>, MetaView)>, k: Seq<char>)
    requires
        keys_sorted(s),
        forall|j: int| 0 <= j < s.len() ==> (#[trigger] s[j]).0 != k,
    ensures
        meta_get(s, k) is None,
{
    lemma_count_below(s, k);
    let c = count_below(s, k) as int;
    if c < s.len() {
        assert(s[c].0 != k);
    }
}

/// Storing a value keeps the entries sorted, finds the value under its key,
/// and leaves every other key as it was.
pub proof fn lemma_meta_insert(s: Seq<(Seq<char>, MetaView)>, k: Seq<char>, v: MetaView)
    requires
        keys_sorted(s),
    ensures
        keys_sorted(meta_insert(s, k, v)),
        meta_get(meta_insert(s, k, v), k) == Some(v),
        forall|k2: Seq<char>| k2 != k ==> meta_get(meta_insert(s, k, v), k2) == meta_get(s, k2),
        meta_insert(s, k, v).len() == s.len() + (if meta_get(s, k) is Some {
            0int
        } else {
            1int
        }),
{
    lemma_count_below(s, k);
    let i = count_below(s, k) as int;
    let r = meta_insert(s, k, v);
    if i < s.len() && s[i].0 == k {
        assert(keys_sorted(r)) by {
            assert forall|a: int, b: int| 0 <= a < b < r.len() implies text_lt(
                #[trigger] r[a].0,
                #[trigger] r[b].0,
            ) by {
                assert(r[a].0 == s[a].0 && r[b].0 == s[b].0);
            }
        }
        lemma_meta_get(r, k, i);
        assert forall|k2: Seq<char>| k2 != k implies meta_get(r, k2) == meta_get(s, k2) by {
            if exists|j: int| 0 <= j < s.len() && (#[trigger] s[j]).0 == k2 {
                let j = choose|j: int| 0 <= j < s.len() && (#[trigger] s[j]).0 == k2;
                lemma_meta_get(s, k2, j);
                assert(r[j] == s[j]);
                lemma_meta_get(r, k2, j);
            } else {
                lemma_meta_get_absent(s, k2);
                assert forall|j: int| 0 <= j < r.len() implies (#[trigger] r[j]).0 != k2 by {
                    if j != i {
                        assert(r[j] == s[j]);
                    }
                }
                lemma_meta_get_absent(r, k2);
            }
        }
    } else {
        if i < s.len() {
            lemma_text_lt_total(s[i].0, k);
        }
        assert(keys_sorted(r)) by {
            assert forall|a: int, b: int| 0 <= a < b < r.len() implies text_lt(
                #[trigger] r[a].0,
                #[trigger] r[b].0,
            ) by {
                if b < i {
                    assert(r[a] == s[a] && r[b] == s[b]);
                } else if b == i {
                    assert(r[a] == s[a]);
                } else if a == i {
                    assert(r[b] == s[b - 1]);
                    if b - 1 > i {
                        lemma_text_lt_transitive(k, s[i].0, s[b - 1].0);
                    }
                } else if a < i {
                    assert(r[a] == s[a] && r[b] == s[b - 1]);
                } else {
                    assert(r[a] == s[a - 1] && r[b] == s[b - 1]);
                }
            }
        }
        lemma_meta_get(r, k, i);
        assert forall|k2: Seq<char>| k2 != k implies meta_get(r, k2) == meta_get(s, k2) by {
            if exists|j: int| 0 <= j < s.len() && (#[trigger] s[j]).0 == k2 {
                let j = choose|j: int| 0 <= j < s.len() && (#[trigger] s[j]).0 == k2;
                lemma_meta_get(s, k2, j);
                if j < i {
                    assert(r[j] == s[j]);
                    lemma_meta_get(r, k2, j);
                } else {
                    assert(r[j + 1] == s[j]);
                    lemma_meta_get(r, k2, j + 1);
                }
            } else {
                lemma_meta_get_absent(s, k2);
                assert forall|j: int| 0 <= j < r.len() implies (#[trigger] r[j]).0 != k2 by {
                    if j < i {
                        assert(r[j] == s[j]);
                    } else if j > i {
                        assert(r[j] == s[j - 1]);
                    }
                }
                lemma_meta_get_absent(r, k2);
            }
        }
        if i < s.len() {
            assert(meta_get(s, k) is None);
        }
    }
}

/// Merging keeps the entries sorted, keeps every value `s` has, and takes
/// from `other` exactly the keys that `s` lacks.
pub proof fn lemma_meta_merge_missing(
    s: Seq<(Seq<char>, MetaView)>,
    other: Seq<(Seq<char>, MetaView)>,
)
    requires
        keys_sorted(s),
        keys_sorted(other),
    ensures
        keys_sorted(meta_merge_missing(s, other)),
        forall|k: Seq<char>|
            #[trigger] meta_get(meta_merge_missing(s, other), k) == (if meta_get(s, k) is Some {
                meta_get(s, k)
            } else {
                meta_get(other, k)
            }),
    decreases other.len(),
{
    if other.len() > 0 {
        let t = other.drop_last();
        assert(keys_sorted(t)) by {
            assert forall|i: int, j: int| 0 <= i < j < t.len() implies text_lt(
                #[trigger] t[i].0,
                #[trigger] t[j].0,
            ) by {
                assert(t[i] == other[i] && t[j] == other[j]);
            }
        }
        lemma_meta_merge_missing(s, t);
        let acc = meta_merge_missing(s, t);
        let e = other.last();
        let n = other.len() - 1;
        if meta_get(acc, e.0) is None {
            lemma_meta_insert(acc, e.0, e.1);
        }
        let r = meta_merge_missing(s, other);
        assert(r == (if meta_get(acc, e.0) is Some {
            acc
        } else {
            meta_insert(acc, e.0, e.1)
        }));
        lemma_meta_get(other, e.0, n);
        assert forall|k: Seq<char>|
            #[trigger] meta_get(meta_merge_missing(s, other), k) == (if meta_get(s, k) is Some {
                meta_get(s, k)
            } else {
                meta_get(other, k)
            }) by {
            if k == e.0 {
                if meta_get(s, k) is None {
                    assert forall|j: int| 0 <= j < t.len() implies (#[trigger] t[j]).0 != k by {
                        assert(t[j] == other[j]);
                        assert(text_lt(other[j].0, other[n].0));
                        lemma_text_lt_irreflexive(k);
                    }
                    lemma_meta_get_absent(t, k);
                    assert(meta_get(acc, k) is None);
                    assert(meta_get(r, k) == Some(e.1));
                } else {
                    assert(meta_get(acc, k) == meta_get(s, k));
                    assert(r == acc);
                }
            } else {
                if exists|j: int| 0 <= j < other.len() && (#[trigger] other[j]).0 == k {
                    let j = choose|j: int| 0 <= j < other.len() && (#[trigger] other[j]).0 == k;
                    lemma_meta_get(other, k, j);
                    assert(j != n);
                    assert(t[j] == other[j]);
                    lemma_meta_get(t, k, j);
                } else {
                    lemma_meta_get_absent(other, k);
                    assert forall|j: int| 0 <= j < t.len() implies (#[trigger] t[j]).0 != k by {
                        assert(t[j] == other[j]);
                    }
                    lemma_meta_get_absent(t, k);
                }
                assert(meta_get(t, k) == meta_get(other, k));
                assert(meta_get(r, k) == meta_get(acc, k));
            }
        }
    }
}

/// Typed structured metadata attached to an error context, kept in key order.
///
/// Unlike the fields recorded with `OperationContext::record_field`, these
/// entries are not part of a context's display text; they are meant for
/// snapshots, structured logs and API responses.
#[derive(Debug, PartialEq, Eq)]
pub struct ErrorMetadata {
    fields: Vec<(String, MetadataValue)>,
}

impl ErrorMetadata {
    /// The entries in key order.
    pub closed spec fn entries(&self) -> Seq<(Seq<char>, MetaView)> {
        entry_views(self.fields@)
    }

    #[verifier::type_invariant]
    spec fn wf(&self) -> bool {
        keys_sorted(entry_views(self.fields@))
    }

    /// The entries are in strictly increasing key order.
    pub fn sorted(&self)
        ensures
            keys_sorted(self.entries()),
    {
        proof {
            use_type_invariant(self);
        }
    }

    /// Create an empty metadata container.
    pub fn new() -> (r: Self)
        ensures
            r.entries() == Seq::<(Seq<char>, MetaView)>::empty(),
    {
        let r = ErrorMetadata { fields: Vec::new() };
        assert(entry_views(r.fields@) =~= Seq::<(Seq<char>, MetaView)>::empty());
        r
    }

    /// Returns `true` if no entries are stored.
    pub fn is_empty(&self) -> (r: bool)
        ensures
            r == (self.entries().len() == 0),
    {
        self.fields.len() == 0
    }

    /// The number of stored entries.
    pub fn len(&self) -> (r: usize)
        ensures
            r == self.entries().len(),
    {
        self.fields.len()
    }

    /// Read-only access to the stored map.
    pub fn as_map(&self) -> (r: &Self)
        ensures
            r == self,
    {
        self
    }

    /// The stored entries in key order.
    pub fn iter(&self) -> (r: &[(String, MetadataValue)])
        ensures
            entry_views(r@) == self.entries(),
    {
        self.fields.as_slice()
    }

    fn find(&self, key: &str) -> (r: usize)
        ensures
            r == count_below(self.entries(), key@),
            r <= self.fields.len(),
    {
        proof {
            use_type_invariant(self);
            lemma_count_below(self.entries(), key@);
        }
        let mut i: usize = 0;
        while i < self.fields.len() && text_less(self.fields[i].0.as_str(), key)
            invariant
                i <= self.fields.len(),
                i <= count_below(self.entries(), key@),
                self.entries() == entry_views(self.fields@),
                count_below(self.entries(), key@) <= self.entries().len(),
                forall|j: int|
                    count_below(self.entries(), key@) <= j < self.entries().len() ==> !text_lt(
                        #[trigger] self.entries()[j].0,
                        key@,
                    ),
            decreases self.fields.len() - i,
        {
            assert(self.entries()[i as int].0 == self.fields@[i as int].0@);
            i += 1;
        }
        if i < self.fields.len() {
            assert(self.entries()[i as int].0 == self.fields@[i as int].0@);
        }
        i
    }

    /// Look up a key and return its typed value.
    pub fn get(&self, key: &str) -> (r: Option<&MetadataValue>)
        ensures
            match r {
                Some(v) => meta_get(self.entries(), key@) == Some(v@),
                None => meta_get(self.entries(), key@) is None,
            },
    {
        let i = self.find(key);
        if i < self.fields.len() && self.fields[i].0 == key.to_owned() {
            assert(self.entries()[i as int] == (self.fields@[i as int].0@, self.fields@[i as int].1@));
            Some(&self.fields[i].1)
        } else {
            proof {
                if i < self.fields.len() {
                    assert(self.entries()[i as int].0 == self.fields@[i as int].0@);
                }
            }
            None
        }
    }

    /// Whether a value is stored under `key`.
    pub fn contains_key(&self, key: &str) -> (r: bool)
        ensures
            r == (meta_get(self.entries(), key@) is Some),
    {
        self.get(key).is_some()
    }

    /// Look up a key and return its text, or `None` if the key is absent or
    /// the value is not a string.
    pub fn get_str(&self, key: &str) -> (r: Option<&str>)
        ensures
            match meta_get(self.entries(), key@) {
                Some(MetaView::Str(s)) => r is Some && r->0@ == s,
                _ => r is None,
            },
    {
        match self.get(key) {
            Some(MetadataValue::String(value)) => Some(value.as_str()),
            _ => None,
        }
    }

    fn store(&mut self, key: String, value: MetadataValue)
        ensures
            final(self).entries() == meta_insert(old(self).entries(), key@, value@),
    {
        proof {
            use_type_invariant(&*self);
            lemma_meta_insert(self.entries(), key@, value@);
        }
        let i = self.find(key.as_str());
        let ghost s = self.entries();
        let ghost k = key@;
        let ghost v = value@;
        let mut fields: Vec<(String, MetadataValue)> = Vec::new();
        std::mem::swap(&mut fields, &mut self.fields);
        assert(entry_views(fields@) == s);
        if i < fields.len() && fields[i].0 == key {
            assert(s[i as int].0 == fields@[i as int].0@);
            fields.set(i, (key, value));
            assert(entry_views(fields@) =~= s.update(i as int, (k, v)));
        } else {
            proof {
                if i < fields.len() {
                    assert(s[i as int].0 == fields@[i as int].0@);
                }
            }
            fields.insert(i, (key, value));
            assert(entry_views(fields@) =~= s.insert(i as int, (k, v)));
        }
        self.fields = fields;
    }

    /// Insert a key-value pair; an existing value under the same key is
    /// replaced. An empty key is ignored.
    pub fn insert<K: IntoText, V: IntoMetadataValue>(&mut self, key: K, value: V)
        ensures
            key.text_of().len() == 0 ==> final(self).entries() == old(self).entries(),
            key.text_of().len() > 0 ==> final(self).entries() == meta_insert(
                old(self).entries(),
                key.text_of(),
                value.meta_of(),
            ),
    {
        let key = key.into_text();
        if key.as_str().unicode_len() == 0 {
            return ;
        }
        let value = value.into_meta();
        self.store(key, value);
    }

    /// Merge entries from `other`, keeping existing values: each key of
    /// `other` is added only when `self` does not have it yet.
    pub fn merge_missing(&mut self, other: &ErrorMetadata)
        ensures
            final(self).entries() == meta_merge_missing(old(self).entries(), other.entries()),
    {
        let ghost start = self.entries();
        let mut i: usize = 0;
        while i < other.fields.len()
            invariant
                i <= other.fields.len(),
                other.entries() == entry_views(other.fields@),
                self.entries() == meta_merge_missing(start, other.entries().subrange(0, i as int)),
            decreases other.fields.len() - i,
        {
            let ghost before = self.entries();
            proof {
                let t = other.entries().subrange(0, i + 1);
                assert(t.drop_last() =~= other.entries().subrange(0, i as int));
                assert(t.last() == (other.fields@[i as int].0@, other.fields@[i as int].1@));
            }
            let present = self.get(other.fields[i].0.as_str()).is_some();
            if !present {
                let k = other.fields[i].0.clone();
                let v = other.fields[i].1.clone();
                self.store(k, v);
            }
            i += 1;
        }
        assert(other.entries().subrange(0, other.fields.len() as int) =~= other.entries());
    }
}

impl ErrorMetadata {
    /// Append an entry whose key comes after every stored key.
    pub(crate) fn push_last(&mut self, key: String, value: MetadataValue)
        requires
            old(self).entries().len() > 0 ==> text_lt(old(self).entries().last().0, key@),
        ensures
            final(self).entries() == old(self).entries().push((key@, value@)),
    {
        proof {
            use_type_invariant(&*self);
        }
        let mut fields: Vec<(String, MetadataValue)> = Vec::new();
        std::mem::swap(&mut fields, &mut self.fields);
        let ghost before = entry_views(fields@);
        let ghost kv = key@;
        let ghost vv = value@;
        fields.push((key, value));
        assert(entry_views(fields@) =~= before.push((kv, vv)));
        proof {
            let s = entry_views(fields@);
            assert forall|i: int, j: int| 0 <= i < j < s.len() implies text_lt(
                #[trigger] s[i].0,
                #[trigger] s[j].0,
            ) by {
                if j == s.len() - 1 && i < j {
                    if i < before.len() - 1 {
                        crate::text::lemma_text_lt_transitive(before[i].0, before.last().0, kv);
                    }
                }
            }
        }
        self.fields = fields;
    }
}

impl Clone for ErrorMetadata {
    fn clone(&self) -> (r: Self)
        ensures
            r.entries() == self.entries(),
    {
        proof {
            use_type_invariant(self);
        }
        let mut fields: Vec<(String, MetadataValue)> = Vec::new();
        let mut i: usize = 0;
        while i < self.fields.len()
            invariant
                i <= self.fields.len(),
                fields@.len() == i,
                entry_views(fields@) == entry_views(self.fields@).subrange(0, i as int),
            decreases self.fields.len() - i,
        {
            let k = self.fields[i].0.clone();
            let v = self.fields[i].1.clone();
            assert(k@ == self.fields@[i as int].0@);
            assert(v@ == self.fields@[i as int].1@);
            let ghost before = fields@;
            fields.push((k, v));
            assert(fields@ == before.push((k, v)));
            assert forall|j: int| 0 <= j < i + 1 implies #[trigger] entry_views(fields@)[j]
                == entry_views(self.fields@)[j] by {
                if j < i {
                    assert(fields@[j] == before[j]);
                    assert(entry_views(before)[j] == entry_views(self.fields@)[j]);
                }
            }
            assert(entry_views(fields@) =~= entry_views(self.fields@).subrange(0, i + 1));
            i += 1;
        }
        assert(entry_views(self.fields@).subrange(0, self.fields.len() as int) =~= entry_views(
            self.fields@,
        ));
        ErrorMetadata { fields }
    }
}

impl Default for ErrorMetadata {
    fn default() -> (r: Self)
        ensures
            r.entries() == Seq::<(Seq<char>, MetaView)>::empty(),
    {
        ErrorMetadata::new()
    }
}

/// Storing a value and then reading its key gives the value back; other
/// keys read as before.
pub proof fn law_metadata_insert_then_get(m: ErrorMetadata, k: Seq<char>, v: MetaView)
    requires
        keys_sorted(m.entries()),
    ensures
        meta_get(meta_insert(m.entries(), k, v), k) == Some(v),
        forall|k2: Seq<char>|
            k2 != k ==> #[trigger] meta_get(meta_insert(m.entries(), k, v), k2) == meta_get(
                m.entries(),
                k2,
            ),
        keys_sorted(meta_insert(m.entries(), k, v)),
{
    lemma_meta_insert(m.entries(), k, v);
}

/// Merging keeps every existing value (first wins) and adds only the keys
/// that were missing.
pub proof fn law_metadata_merge_first_wins(m: ErrorMetadata, other: ErrorMetadata, k: Seq<char>)
    requires
        keys_sorted(m.entries()),
        keys_sorted(other.entries()),
    ensures
        meta_get(meta_merge_missing(m.entries(), other.entries()), k) == (if meta_get(
            m.entries(),
            k,
        ) is Some {
            meta_get(m.entries(), k)
        } else {
            meta_get(other.entries(), k)
        }),
{
    lemma_meta_merge_missing(m.entries(), other.entries());
}

/// Appending an entry whose key is above every key keeps the entries sorted
/// and adds exactly that key.
pub proof fn lemma_meta_push_above(
    t: Seq<(Seq<char>, MetaView)>,
    e: (Seq<char>, MetaView),
    k: Seq<char>,
)
    requires
        keys_sorted(t),
        forall|j: int| 0 <= j < t.len() ==> text_lt(#[trigger] t[j].0, e.0),
    ensures
        keys_sorted(t.push(e)),
        meta_get(t.push(e), k) == (if k == e.0 {
            Some(e.1)
        } else {
            meta_get(t, k)
        }),
{
    let s = t.push(e);
    let n = t.len() as int;
    assert forall|i: int, j: int| 0 <= i < j < s.len() implies text_lt(
        #[trigger] s[i].0,
        #[trigger] s[j].0,
    ) by {
        assert(s[i] == t[i]);
        if j < n {
            assert(s[j] == t[j]);
        }
    }
    if k == e.0 {
        lemma_meta_get(s, k, n);
    } else {
        lemma_count_below(t, k);
        let c = count_below(t, k) as int;
        if c < t.len() && t[c].0 == k {
            lemma_meta_get(t, k, c);
            lemma_meta_get(s, k, c);
        } else {
            assert forall|j: int| 0 <= j < s.len() implies (#[trigger] s[j]).0 != k by {
                if j < n && s[j].0 == k {
                    lemma_meta_get(t, k, j);
                }
            }
            lemma_meta_get_absent(s, k);
        }
    }
}

/// Sorted entries are fixed by what each key reads: two sorted entry lists
/// that read the same at every key are the same list.
pub proof fn lemma_meta_ext(s1: Seq<(Seq<char>, MetaView)>, s2: Seq<(Seq<char>, MetaView)>)
    requires
        keys_sorted(s1),
        keys_sorted(s2),
        forall|k: Seq<char>| #[trigger] meta_get(s1, k) == meta_get(s2, k),
    ensures
        s1 == s2,
    decreases s1.len() + s2.len(),
{
    if s1.len() == 0 && s2.len() == 0 {
        assert(s1 =~= s2);
    } else if s1.len() == 0 {
        let n2 = s2.len() - 1;
        lemma_meta_get(s2, s2[n2].0, n2);
        assert(meta_get(s1, s2[n2].0) is None);
    } else if s2.len() == 0 {
        let n1 = s1.len() - 1;
        lemma_meta_get(s1, s1[n1].0, n1);
        assert(meta_get(s2, s1[n1].0) is None);
    } else {
        let n1 = s1.len() - 1;
        let n2 = s2.len() - 1;
        let k1 = s1[n1].0;
        let k2 = s2[n2].0;
        lemma_meta_get(s1, k1, n1);
        lemma_meta_get(s2, k2, n2);
        lemma_count_below(s1, k2);
        lemma_count_below(s2, k1);
        let c1 = count_below(s1, k2) as int;
        let c2 = count_below(s2, k1) as int;
        assert(meta_get(s2, k1) is Some);
        assert(meta_get(s1, k2) is Some);
        assert(s1[c1].0 == k2 && s2[c2].0 == k1);
        if k1 != k2 {
            assert(c1 < n1 && c2 < n2);
            assert(text_lt(s1[c1].0, s1[n1].0));
            assert(text_lt(s2[c2].0, s2[n2].0));
            lemma_text_lt_asymmetric(k1, k2);
            assert(false);
        }
        let t1 = s1.drop_last();
        let t2 = s2.drop_last();
        assert(s1 =~= t1.push(s1[n1]));
        assert(s2 =~= t2.push(s2[n2]));
        assert(keys_sorted(t1)) by {
            assert forall|i: int, j: int| 0 <= i < j < t1.len() implies text_lt(
                #[trigger] t1[i].0,
                #[trigger] t1[j].0,
            ) by {
                assert(t1[i] == s1[i] && t1[j] == s1[j]);
            }
        }
        assert(keys_sorted(t2)) by {
            assert forall|i: int, j: int| 0 <= i < j < t2.len() implies text_lt(
                #[trigger] t2[i].0,
                #[trigger] t2[j].0,
            ) by {
                assert(t2[i] == s2[i] && t2[j] == s2[j]);
            }
        }
        assert forall|j: int| 0 <= j < t1.len() implies text_lt(#[trigger] t1[j].0, k1) by {
            assert(t1[j] == s1[j]);
        }
        assert forall|j: int| 0 <= j < t2.len() implies text_lt(#[trigger] t2[j].0, k1) by {
            assert(t2[j] == s2[j]);
        }
        assert forall|k: Seq<char>| #[trigger] meta_get(t1, k) == meta_get(t2, k) by {
            lemma_meta_push_above(t1, s1[n1], k);
            lemma_meta_push_above(t2, s2[n2], k);
            assert(meta_get(s1, k) == meta_get(s2, k));
            if k == k1 {
                lemma_text_lt_irreflexive(k);
                lemma_meta_get_absent(t1, k);
                lemma_meta_get_absent(t2, k);
            }
        }
        lemma_meta_ext(t1, t2);
        assert(s1[n1].1 == s2[n2].1);
    }
}

/// Metadata entries depend only on what each key reads, not on how they
/// were built: two metadata values that read the same at every key hold
/// the same entries, in the same (key) order.
pub proof fn law_metadata_entries_by_keys(a: ErrorMetadata, b: ErrorMetadata)
    requires
        keys_sorted(a.entries()),
        keys_sorted(b.entries()),
        forall|k: Seq<char>| #[trigger] meta_get(a.entries(), k) == meta_get(b.entries(), k),
    ensures
        a.entries() == b.entries(),
{
    lemma_meta_ext(a.entries(), b.entries());
}

/// Storing values under two different keys gives the same entries in
/// either order.
pub proof fn law_metadata_insert_commutes(
    m: ErrorMetadata,
    k1: Seq<char>,
    v1: MetaView,
    k2: Seq<char>,
    v2: MetaView,
)
    requires
        keys_sorted(m.entries()),
        k1 != k2,
    ensures
        meta_insert(meta_insert(m.entries(), k1, v1), k2, v2) == meta_insert(
            meta_insert(m.entries(), k2, v2),
            k1,
            v1,
        ),
{
    let s = m.entries();
    lemma_meta_insert(s, k1, v1);
    lemma_meta_insert(s, k2, v2);
    let a = meta_insert(s, k1, v1);
    let b = meta_insert(s, k2, v2);
    lemma_meta_insert(a, k2, v2);
    lemma_meta_insert(b, k1, v1);
    let x = meta_insert(a, k2, v2);
    let y = meta_insert(b, k1, v1);
    assert forall|k: Seq<char>| #[trigger] meta_get(x, k) == meta_get(y, k) by {
        if k == k1 {
            assert(meta_get(x, k) == meta_get(a, k));
            assert(meta_get(a, k) == Some(v1));
            assert(meta_get(y, k) == Some(v1));
        } else if k == k2 {
            assert(meta_get(x, k) == Some(v2));
            assert(meta_get(y, k) == meta_get(b, k));
            assert(meta_get(b, k) == Some(v2));
        } else {
            assert(meta_get(x, k) == meta_get(a, k));
            assert(meta_get(a, k) == meta_get(s, k));
            assert(meta_get(y, k) == meta_get(b, k));
            assert(meta_get(b, k) == meta_get(s, k));
        }
    }
    lemma_meta_ext(x, y);
}

} // verus!
