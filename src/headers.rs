//! An ordered header multimap whose names compare without regard to ASCII case.
use vstd::prelude::*;
use crate::bytes::{eq_ignore_case, lower, same_name, to_lower, to_vec};

verus! {

/// A header list as plain byte strings: `(name, value)` pairs in order.
pub type HeaderSeq = Seq<(Seq<u8>, Seq<u8>)>;

/// The first value stored under `name`.
pub open spec fn first_value(hs: HeaderSeq, name: Seq<u8>) -> Option<Seq<u8>>
    decreases hs.len(),
{
    if hs.len() == 0 {
        None
    } else if same_name(hs[0].0, name) {
        Some(hs[0].1)
    } else {
        first_value(hs.drop_first(), name)
    }
}

pub open spec fn has_name(hs: HeaderSeq, name: Seq<u8>) -> bool {
    first_value(hs, name) is Some
}

/// `hs` with every entry named `name` taken out, the rest in order.
pub open spec fn without(hs: HeaderSeq, name: Seq<u8>) -> HeaderSeq
    decreases hs.len(),
{
    if hs.len() == 0 {
        hs
    } else if same_name(hs.last().0, name) {
        without(hs.drop_last(), name)
    } else {
        without(hs.drop_last(), name).push(hs.last())
    }
}

/// `hs` after setting `name` to the single value `value`.
pub open spec fn with_header(hs: HeaderSeq, name: Seq<u8>, value: Seq<u8>) -> HeaderSeq {
    without(hs, name).push((lower(name), value))
}

pub proof fn lemma_first_value_without(hs: HeaderSeq, name: Seq<u8>, other: Seq<u8>)
    ensures
        first_value(without(hs, name), other) == if same_name(name, other) {
            None
        } else {
            first_value(hs, other)
        },
    decreases hs.len(),
{
    if hs.len() > 0 {
        lemma_first_value_without(hs.drop_last(), name, other);
        lemma_first_value_push(without(hs.drop_last(), name), hs.last(), other);
        lemma_first_value_push(hs.drop_last(), hs.last(), other);
        assert(hs.drop_last().push(hs.last()) =~= hs);
    }
}

pub proof fn lemma_first_value_push(hs: HeaderSeq, e: (Seq<u8>, Seq<u8>), name: Seq<u8>)
    ensures
        first_value(hs.push(e), name) == match first_value(hs, name) {
            Some(v) => Some(v),
            None => if same_name(e.0, name) {
                Some(e.1)
            } else {
                None
            },
        },
    decreases hs.len(),
{
    if hs.len() > 0 {
        assert(hs.push(e).drop_first() =~= hs.drop_first().push(e));
        lemma_first_value_push(hs.drop_first(), e, name);
    } else {
        assert(hs.push(e).drop_first() =~= hs);
    }
}

/// The value under `name` after setting `name` to `value`, and every other name untouched.
pub proof fn lemma_with_header(hs: HeaderSeq, name: Seq<u8>, value: Seq<u8>, other: Seq<u8>)
    ensures
        first_value(with_header(hs, name, value), other) == if same_name(name, other) {
            Some(value)
        } else {
            first_value(hs, other)
        },
{
    lemma_first_value_without(hs, name, other);
    lemma_first_value_push(without(hs, name), (lower(name), value), other);
    assert(lower(lower(name)) =~= lower(name));
}

pub open spec fn entries_view(s: Seq<(Vec<u8>, Vec<u8>)>) -> HeaderSeq {
    Seq::new(s.len(), |i: int| (s[i].0@, s[i].1@))
}

/// An ordered list of headers.
pub struct Headers {
    entries: Vec<(Vec<u8>, Vec<u8>)>,
}

impl View for Headers {
    type V = HeaderSeq;

    closed spec fn view(&self) -> HeaderSeq {
        entries_view(self.entries@)
    }
}

impl Headers {
    /// An empty header list.
    pub fn new() -> (r: Headers)
        ensures
            r@ == Seq::<(Seq<u8>, Seq<u8>)>::empty(),
    {
        let r = Headers { entries: Vec::new() };
        assert(r@ =~= Seq::<(Seq<u8>, Seq<u8>)>::empty());
        r
    }

    /// The number of entries.
    pub fn len(&self) -> (r: usize)
        ensures
            r == self@.len(),
    {
        self.entries.len()
    }

    /// The entry at position `i`.
    pub fn entry(&self, i: usize) -> (r: (&[u8], &[u8]))
        requires
            i < self@.len(),
        ensures
            r.0@ == self@[i as int].0,
            r.1@ == self@[i as int].1,
    {
        let e = &self.entries[i];
        (e.0.as_slice(), e.1.as_slice())
    }

    /// The first value stored under `name`, compared without regard to case.
    pub fn get(&self, name: &[u8]) -> (r: Option<&[u8]>)
        ensures
            match r {
                Some(v) => first_value(self@, name@) == Some(v@),
                None => first_value(self@, name@) is None,
            },
    {
        let mut i: usize = 0;
        assert(self@.skip(0) =~= self@);
        while i < self.entries.len()
            invariant
                i <= self@.len(),
                first_value(self@, name@) == first_value(self@.skip(i as int), name@),
            decreases self@.len() - i,
        {
            assert(self@.skip(i as int).drop_first() =~= self@.skip(i + 1));
            let e = &self.entries[i];
            if eq_ignore_case(e.0.as_slice(), name) {
                return Some(e.1.as_slice());
            }
            i = i + 1;
        }
        None
    }

    /// Whether some entry is named `name`.
    pub fn contains_key(&self, name: &[u8]) -> (r: bool)
        ensures
            r == has_name(self@, name@),
    {
        self.get(name).is_some()
    }

    /// Adds an entry after the existing ones; the name is stored in lowercase.
    pub fn append(&mut self, name: &[u8], value: &[u8])
        ensures
            final(self)@ == old(self)@.push((lower(name@), value@)),
    {
        let n = to_lower(name);
        let v = to_vec(value);
        self.entries.push((n, v));
        assert(final(self)@ =~= old(self)@.push((lower(name@), value@)));
    }

    /// Takes out every entry named `name`.
    pub fn remove(&mut self, name: &[u8])
        ensures
            final(self)@ == without(old(self)@, name@),
    {
        let mut kept: Vec<(Vec<u8>, Vec<u8>)> = Vec::new();
        let ghost hs = self@;
        let mut i: usize = 0;
        while i < self.entries.len()
            invariant
                i <= self@.len(),
                hs == self@,
                entries_view(kept@) == without(
                    hs.take(i as int),
                    name@,
                ),
            decreases self@.len() - i,
        {
            assert(hs.take(i + 1).drop_last() =~= hs.take(i as int));
            let e = &self.entries[i];
            if !eq_ignore_case(e.0.as_slice(), name) {
                let n = to_vec(e.0.as_slice());
                let v = to_vec(e.1.as_slice());
                kept.push((n, v));
            }
            i = i + 1;
            assert(entries_view(kept@) =~= without(
                hs.take(i as int),
                name@,
            ));
        }
        assert(hs.take(i as int) =~= hs);
        self.entries = kept;
    }

    /// Sets `name` to the single value `value`, replacing any earlier entries of that name.
    pub fn insert(&mut self, name: &[u8], value: &[u8])
        ensures
            final(self)@ == with_header(old(self)@, name@, value@),
    {
        self.remove(name);
        self.append(name, value);
    }

    /// A copy of this header list.
    pub fn duplicate(&self) -> (r: Headers)
        ensures
            r@ == self@,
    {
        let mut out: Vec<(Vec<u8>, Vec<u8>)> = Vec::new();
        let ghost hs = self@;
        let mut i: usize = 0;
        while i < self.entries.len()
            invariant
                i <= self@.len(),
                hs == self@,
                entries_view(out@) == hs.take(i as int),
            decreases self@.len() - i,
        {
            let e = &self.entries[i];
            let n = to_vec(e.0.as_slice());
            let v = to_vec(e.1.as_slice());
            assert(hs[i as int] == (n@, v@));
            let ghost prev = out@;
            assert(entries_view(prev).len() == prev.len());
            assert(hs.take(i as int).len() == i);
            assert(prev.len() == i);
            out.push((n, v));
            assert(out@.len() == i + 1);
            assert(out@[i as int].0@ == n@);
            proof {
                assert forall|k: int| 0 <= k < i + 1 implies #[trigger] entries_view(out@)[k]
                    == hs.take(i + 1)[k] by {
                    if k < i {
                        assert(entries_view(prev)[k] == hs.take(i as int)[k]);
                    }
                }
            }
            i = i + 1;
            assert(entries_view(out@) =~= hs.take(i as int));
        }
        assert(self@.take(i as int) =~= self@);
        Headers { entries: out }
    }
}

} // verus!
