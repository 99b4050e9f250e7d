//! Deduplication of strings that occur again and again, such as group tags
//! and node identifiers.
//!
//! The interner keeps one shared copy of each distinct text. Interning a
//! text hands out a handle to that copy, so that equal texts share their
//! allocation.

use crate::text::str_eq;
use std::sync::Arc;
use vstd::prelude::*;
use vstd::std_specs::cmp::PartialEqSpecImpl;
use vstd::string::StringExecFns;

verus! {

/// A further handle to a shared string: `Arc::clone` of the standard
/// library, which hands out a pointer to the same allocation and so to the
/// same text.
#[verifier::external_body]
fn share(handle: &Arc<String>) -> (again: Arc<String>)
    ensures
        again == *handle,
{
    Arc::clone(handle)
}

/// Feeds a text into a hasher: `Hash::hash` of `str` in the standard
/// library. Nothing is claimed of the state of the hasher.
pub assume_specification<H: std::hash::Hasher>[ <str as std::hash::Hash>::hash ](
    text: &str,
    state: &mut H,
);

/// The shared copies of the texts interned so far, each text once.
pub struct StringInterner {
    cache: Vec<Arc<String>>,
}

/// The texts of the handles.
pub open spec fn handle_texts(handles: Seq<Arc<String>>) -> Seq<Seq<char>> {
    handles.map_values(|h: Arc<String>| h@)
}

/// No text occurs twice.
pub open spec fn all_distinct(texts: Seq<Seq<char>>) -> bool {
    forall|a: int, b: int| 0 <= a < b < texts.len() ==> #[trigger] texts[a] != #[trigger] texts[b]
}

impl StringInterner {
    /// No text is held twice. This holds of every interner that was made
    /// by `new` and changed by the methods of this type only.
    pub open spec fn holds_each_text_once(self) -> bool {
        all_distinct(self.interned())
    }

    /// The texts interned so far, in the order in which they came first.
    pub closed spec fn interned(self) -> Seq<Seq<char>> {
        handle_texts(self.cache@)
    }

    /// An interner that holds nothing.
    pub fn new() -> (interner: StringInterner)
        ensures
            interner.interned() == Seq::<Seq<char>>::empty(),
            interner.holds_each_text_once(),
    {
        let interner = StringInterner { cache: Vec::new() };
        assert(interner.interned() =~= Seq::<Seq<char>>::empty());
        interner
    }

    /// The handle to the shared copy of `s`, if `s` was interned before.
    /// Nothing changes, so that many readers can look up at once.
    pub fn lookup(&self, s: &str) -> (found: Option<Arc<String>>)
        ensures
            match found {
                Some(handle) => handle@ == s@ && self.interned().contains(s@),
                None => !self.interned().contains(s@),
            },
    {
        let ghost held = self.interned();
        let mut i: usize = 0;
        while i < self.cache.len()
            invariant
                i <= self.cache.len(),
                held == handle_texts(self.cache@),
                forall|k: int| 0 <= k < i ==> #[trigger] held[k] != s@,
            decreases self.cache.len() - i,
        {
            assert(held[i as int] == self.cache@[i as int]@);
            if str_eq(self.cache[i].as_str(), s) {
                return Some(share(&self.cache[i]));
            }
            i += 1;
        }
        None
    }

    /// The handle to the shared copy of `s`. A text that was interned
    /// before gets a handle to the copy made then; a new text is copied
    /// once and kept.
    pub fn intern(&mut self, s: &str) -> (handle: Arc<String>)
        ensures
            handle@ == s@,
            old(self).interned().contains(s@) ==> final(self).interned() == old(self).interned(),
            !old(self).interned().contains(s@) ==> final(self).interned() == old(
                self,
            ).interned().push(s@),
            old(self).holds_each_text_once() ==> final(self).holds_each_text_once(),
    {
        let ghost before = self.interned();
        match self.lookup(s) {
            Some(handle) => handle,
            None => {
                let fresh: Arc<String> = Arc::new(String::from_str(s));
                self.cache.push(share(&fresh));
                assert(handle_texts(self.cache@) =~= before.push(s@));
                fresh
            },
        }
    }

    /// The number of distinct texts interned.
    pub fn len(&self) -> (n: usize)
        ensures
            n == self.interned().len(),
    {
        self.cache.len()
    }

    /// Forgets every text.
    pub fn clear(&mut self)
        ensures
            final(self).interned() == Seq::<Seq<char>>::empty(),
            final(self).holds_each_text_once(),
    {
        self.cache.clear();
        assert(handle_texts(self.cache@) =~= Seq::<Seq<char>>::empty());
    }
}

/// The handle to the shared copy of `s` in `interner`.
pub fn intern(interner: &mut StringInterner, s: &str) -> (handle: Arc<String>)
    ensures
        handle@ == s@,
        old(interner).interned().contains(s@) ==> final(interner).interned() == old(
            interner,
        ).interned(),
        !old(interner).interned().contains(s@) ==> final(interner).interned() == old(
            interner,
        ).interned().push(s@),
        old(interner).holds_each_text_once() ==> final(interner).holds_each_text_once(),
{
    interner.intern(s)
}

/// A string that is either part of the program or interned.
#[derive(Debug, Clone)]
pub enum InternedString {
    Static(&'static str),
    Interned(Arc<String>),
}

impl View for InternedString {
    type V = Seq<char>;

    open spec fn view(&self) -> Seq<char> {
        match self {
            InternedString::Static(s) => s@,
            InternedString::Interned(s) => s@,
        }
    }
}

impl InternedString {
    /// A string that is part of the program.
    pub fn from_static(s: &'static str) -> (r: InternedString)
        ensures
            r@ == s@,
    {
        InternedString::Static(s)
    }

    /// A string that is interned in `interner`.
    pub fn from_string(interner: &mut StringInterner, s: &str) -> (r: InternedString)
        ensures
            r@ == s@,
            old(interner).interned().contains(s@) ==> final(interner).interned() == old(
                interner,
            ).interned(),
            !old(interner).interned().contains(s@) ==> final(interner).interned() == old(
                interner,
            ).interned().push(s@),
    {
        InternedString::Interned(interner.intern(s))
    }

    /// The text.
    pub fn as_str(&self) -> (s: &str)
        ensures
            s@ == self@,
    {
        match self {
            InternedString::Static(s) => s,
            InternedString::Interned(s) => s.as_str(),
        }
    }
}

impl PartialEq for InternedString {
    /// Two strings are equal where their texts are, wherever they live.
    fn eq(&self, other: &InternedString) -> (r: bool) {
        str_eq(self.as_str(), other.as_str())
    }
}

impl PartialEqSpecImpl for InternedString {
    open spec fn obeys_eq_spec() -> bool {
        true
    }

    open spec fn eq_spec(&self, other: &InternedString) -> bool {
        self@ == other@
    }
}

impl Eq for InternedString {

}

impl std::hash::Hash for InternedString {
    /// Equal strings hash alike: the hash is that of the text.
    fn hash<H: std::hash::Hasher>(&self, state: &mut H) {
        self.as_str().hash(state)
    }
}

/// A text that is interned stays where it is: interning it again changes
/// nothing, and interning another text leaves it in its place.
pub proof fn law_interned_stays(before: Seq<Seq<char>>, after: Seq<Seq<char>>, text: Seq<char>, other: Seq<char>)
    requires
        before.contains(text),
        before.contains(other) ==> after == before,
        !before.contains(other) ==> after == before.push(other),
    ensures
        after.contains(text),
        forall|i: int| 0 <= i < before.len() ==> #[trigger] after[i] == before[i],
{
    let at = choose|at: int| 0 <= at < before.len() && before[at] == text;
    assert(after[at] == text);
}

} // verus!
