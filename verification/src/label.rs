//! Interned label names. A `Label` is an immutable, shared, reference-counted
//! text value; a `LabelStorage` canonicalizes labels by content, so that at
//! most one canonical entry per text exists, and reports how many live
//! handles to an entry exist outside the store itself.

use vstd::prelude::*;
use vstd::std_specs::cmp::PartialEqSpec;
use vstd::string::StrSliceExecFns;
use std::sync::Arc;

verus! {

/// Compares two string slices character by character.
pub(crate) fn str_eq(a: &str, b: &str) -> (r: bool)
    ensures
        r == (a@ == b@),
{
    let la = a.unicode_len();
    let lb = b.unicode_len();
    if la != lb {
        return false;
    }
    let mut i: usize = 0;
    while i < la
        invariant
            la == a@.len(),
            lb == b@.len(),
            la == lb,
            i <= la,
            forall|j: int| 0 <= j < i ==> a@[j] == b@[j],
        decreases la - i,
    {
        if a.get_char(i) != b.get_char(i) {
            return false;
        }
        i = i + 1;
    }
    proof {
        assert(a@ =~= b@);
    }
    true
}

/// Builds a `String` holding the given characters in order.
///
/// Relies on `String`'s `FromIterator` over characters: collecting yields
/// the string of exactly those characters, in order.
#[verifier::external_body]
pub(crate) fn chars_to_string(v: &Vec<char>) -> (r: String)
    ensures
        r@ == v@,
{
    v.iter().collect()
}

/// Reads the live strong-handle count of a shared text allocation.
///
/// Relies on `Arc::strong_count`: it returns the number of strong handles to
/// the allocation, and at least the one passed in exists while it is read.
#[verifier::external_body]
fn arc_strong_count(a: &Arc<String>) -> (r: usize)
    ensures
        r >= 1,
{
    Arc::strong_count(a)
}

/// An interned, immutable, shared text value. Its view is its character
/// sequence; two labels are equal exactly when their texts are equal.
#[derive(Debug)]
pub struct Label {
    inner: Arc<String>,
}

impl View for Label {
    type V = Seq<char>;

    closed spec fn view(&self) -> Seq<char> {
        self.inner@
    }
}

impl Label {
    /// Builds a fresh (not yet shared) label with the given text.
    pub fn new(src: &str) -> (r: Self)
        ensures
            r@ == src@,
    {
        Label { inner: Arc::new(src.to_owned()) }
    }

    /// The label's text.
    pub fn as_str(&self) -> (r: &str)
        ensures
            r@ == self@,
    {
        (*self.inner).as_str()
    }

    /// How many live handles share this label's text allocation, this one
    /// included. The count is a fact about the whole program's handles, not
    /// about this value alone; all that holds of it in isolation is that the
    /// handle asked about exists.
    pub fn copies(&self) -> (r: usize)
        ensures
            r >= 1,
    {
        arc_strong_count(&self.inner)
    }
}

impl Clone for Label {
    /// The clone shares the text allocation: it holds the same text, and it
    /// raises the copy count of the entry by one while it lives.
    fn clone(&self) -> (r: Self)
        ensures
            r@ == self@,
    {
        Label { inner: Arc::clone(&self.inner) }
    }
}

impl PartialEq for Label {
    fn eq(&self, other: &Label) -> (r: bool) {
        str_eq(self.as_str(), other.as_str())
    }
}

impl vstd::std_specs::cmp::PartialEqSpecImpl for Label {
    open spec fn obeys_eq_spec() -> bool {
        true
    }

    open spec fn eq_spec(&self, other: &Label) -> bool {
        self@ == other@
    }
}

/// A canonicalizing store of interned labels. At most one canonical entry
/// per text exists at a time; the store holds one residency handle to each
/// entry, which is excluded when reporting external copy counts.
pub struct LabelStorage {
    cache: Vec<Label>,
}

impl LabelStorage {
    /// Well-formedness: entries have pairwise distinct texts.
    pub closed spec fn wf(self) -> bool {
        forall|i: int, j: int|
            0 <= i < j < self.cache.len() ==> self.cache[i]@ != self.cache[j]@
    }

    /// The texts of the interned entries, in the order they were interned.
    pub closed spec fn texts(self) -> Seq<Seq<char>> {
        self.cache@.map_values(|l: Label| l@)
    }

    /// Whether a label with this text has been interned.
    pub open spec fn contains_text(self, s: Seq<char>) -> bool {
        self.texts().contains(s)
    }

    /// An empty store.
    pub fn new() -> (r: Self)
        ensures
            r.wf(),
            r.texts() == Seq::<Seq<char>>::empty(),
    {
        let r = LabelStorage { cache: Vec::new() };
        proof {
            assert(r.texts() =~= Seq::<Seq<char>>::empty());
        }
        r
    }

    /// Returns the canonical label for this text: a shared handle to the
    /// existing entry if one with equal content is interned, else a handle
    /// to a freshly interned entry. Always succeeds; each returned handle
    /// counts toward the entry's external copies until it is dropped.
    pub fn get_or_add(&mut self, src: &str) -> (r: Label)
        requires
            old(self).wf(),
        ensures
            final(self).wf(),
            r@ == src@,
            final(self).contains_text(src@),
            old(self).contains_text(src@) ==> final(self).texts() == old(self).texts(),
            !old(self).contains_text(src@) ==> final(self).texts() == old(self).texts().push(
                src@,
            ),
    {
        let mut i: usize = 0;
        let n = self.cache.len();
        while i < n
            invariant
                *old(self) == *self,
                old(self).wf(),
                n == self.cache.len(),
                i <= n,
                forall|j: int| 0 <= j < i ==> self.cache[j]@ != src@,
            decreases n - i,
        {
            let candidate = vec_label_ref(&self.cache, i);
            if str_eq(candidate.as_str(), src) {
                proof {
                    assert(old(self).texts()[i as int] == src@);
                    assert(old(self).contains_text(src@));
                }
                return candidate.clone();
            }
            i = i + 1;
        }
        let lab = Label::new(src);
        self.cache.push(lab.clone());
        proof {
            assert(forall|j: int|
                0 <= j < old(self).texts().len() ==> old(self).texts()[j] == #[trigger] self.texts()[j]);
            assert(!old(self).contains_text(src@)) by {
                if old(self).contains_text(src@) {
                    let k = choose|k: int|
                        0 <= k < old(self).texts().len() && old(self).texts()[k] == src@;
                    assert(old(self).cache[k]@ == src@);
                }
            }
            assert(self.texts() =~= old(self).texts().push(src@));
            assert(self.texts()[self.texts().len() - 1] == src@);
        }
        lab
    }

    /// The number of live handles to the canonical label with this text
    /// outside the store (total live handles minus the store's residency
    /// one), or `None` if no such text was ever interned.
    pub fn copies(&self, src: &str) -> (r: Option<usize>)
        requires
            self.wf(),
        ensures
            r is Some <==> self.contains_text(src@),
    {
        let mut i: usize = 0;
        let n = self.cache.len();
        while i < n
            invariant
                self.wf(),
                n == self.cache.len(),
                i <= n,
                forall|j: int| 0 <= j < i ==> self.cache[j]@ != src@,
            decreases n - i,
        {
            let candidate = vec_label_ref(&self.cache, i);
            if str_eq(candidate.as_str(), src) {
                proof {
                    assert(self.texts()[i as int] == src@);
                }
                return Some(candidate.copies() - 1);
            }
            i = i + 1;
        }
        proof {
            assert(!self.contains_text(src@)) by {
                if self.contains_text(src@) {
                    let k = choose|k: int|
                        0 <= k < self.texts().len() && self.texts()[k] == src@;
                    assert(self.cache[k]@ == src@);
                }
            }
        }
        None
    }
}

/// Law: interning a text twice yields handles that compare equal and leaves
/// exactly one canonical entry for it. `mid` and `a` stand for any store and
/// handle `get_or_add` can produce from `pre` for the text `s`, and `post`
/// and `b` for any it can then produce from `mid`; the second call adds no
/// entry, and the two handles are equal by `==`'s meaning on labels.
pub proof fn lemma_label_canonicalization(
    pre: LabelStorage,
    mid: LabelStorage,
    post: LabelStorage,
    a: Label,
    b: Label,
    s: Seq<char>,
)
    requires
        a@ == s,
        mid.contains_text(s),
        pre.contains_text(s) ==> mid.texts() == pre.texts(),
        !pre.contains_text(s) ==> mid.texts() == pre.texts().push(s),
        b@ == s,
        post.contains_text(s),
        mid.contains_text(s) ==> post.texts() == mid.texts(),
        !mid.contains_text(s) ==> post.texts() == mid.texts().push(s),
    ensures
        post.texts() == mid.texts(),
        a.eq_spec(&b),
        mid.texts().len() <= pre.texts().len() + 1,
{
}

/// Reads `v[i]` by reference.
fn vec_label_ref(v: &Vec<Label>, i: usize) -> (r: &Label)
    requires
        i < v@.len(),
    ensures
        *r == v@[i as int],
{
    &v[i]
}

} // verus!
