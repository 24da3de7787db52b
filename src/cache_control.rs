//! The `Cache-Control` directives that the cache acts on.
use vstd::prelude::*;
use crate::bytes::{
    all_visible, ascii_of, eq_ignore_case, is_all_visible, literal, lower, parse_u64, parse_u64_spec,
    same_name, starts_with, to_lower, trim, trim_range,
};
use crate::headers::{HeaderSeq, Headers};

verus! {

broadcast use vstd::string::group_string_axioms;

/// Directives read from every `Cache-Control` header of a message.
#[derive(Clone, Copy, Debug, PartialEq, Eq, Structural)]
pub struct CacheControl {
    pub no_cache: bool,
    pub no_store: bool,
    pub max_age: Option<u64>,
    pub must_revalidate: bool,
    pub public: bool,
}

pub open spec fn no_directives() -> CacheControl {
    CacheControl {
        no_cache: false,
        no_store: false,
        max_age: None,
        must_revalidate: false,
        public: false,
    }
}

pub open spec fn cache_control_name() -> Seq<u8> {
    ascii_of("cache-control"@)
}

pub open spec fn max_age_prefix() -> Seq<u8> {
    ascii_of("max-age="@)
}

/// The effect of one directive, already trimmed and in lowercase. A later
/// `max-age` replaces an earlier one; anything unknown is ignored.
pub open spec fn apply_directive(acc: CacheControl, tok: Seq<u8>) -> CacheControl {
    if tok == ascii_of("no-cache"@) {
        CacheControl { no_cache: true, ..acc }
    } else if tok == ascii_of("no-store"@) {
        CacheControl { no_store: true, ..acc }
    } else if tok == ascii_of("must-revalidate"@) {
        CacheControl { must_revalidate: true, ..acc }
    } else if tok == ascii_of("public"@) {
        CacheControl { public: true, ..acc }
    } else if tok.len() >= max_age_prefix().len() && tok.take(max_age_prefix().len() as int)
        == max_age_prefix() && parse_u64_spec(tok.skip(max_age_prefix().len() as int)) is Some {
        CacheControl { max_age: parse_u64_spec(tok.skip(max_age_prefix().len() as int)), ..acc }
    } else {
        acc
    }
}

/// The comma-separated pieces of `s`, empty pieces included.
pub open spec fn split_commas(s: Seq<u8>) -> Seq<Seq<u8>>
    decreases s.len(),
{
    if s.len() == 0 {
        seq![Seq::<u8>::empty()]
    } else {
        let p = split_commas(s.drop_last());
        if s.last() == 44 {
            p.push(Seq::<u8>::empty())
        } else {
            p.drop_last().push(p.last().push(s.last()))
        }
    }
}

pub open spec fn fold_directives(acc: CacheControl, toks: Seq<Seq<u8>>) -> CacheControl
    decreases toks.len(),
{
    if toks.len() == 0 {
        acc
    } else {
        apply_directive(fold_directives(acc, toks.drop_last()), lower(trim(toks.last())))
    }
}

/// One header value read into `acc`; a value that is not visible ASCII is skipped.
pub open spec fn apply_value(acc: CacheControl, v: Seq<u8>) -> CacheControl {
    if all_visible(v) {
        fold_directives(acc, split_commas(v))
    } else {
        acc
    }
}

/// The directives of every `Cache-Control` header in `hs`, in order.
pub open spec fn cache_control_of(hs: HeaderSeq) -> CacheControl
    decreases hs.len(),
{
    if hs.len() == 0 {
        no_directives()
    } else if same_name(hs.last().0, cache_control_name()) {
        apply_value(cache_control_of(hs.drop_last()), hs.last().1)
    } else {
        cache_control_of(hs.drop_last())
    }
}

fn bytes_eq(a: &[u8], b: &[u8]) -> (r: bool)
    ensures
        r == (a@ == b@),
{
    if a.len() != b.len() {
        return false;
    }
    let mut i: usize = 0;
    while i < a.len()
        invariant
            i <= a@.len() == b@.len(),
            forall|k: int| 0 <= k < i ==> #[trigger] a@[k] == b@[k],
        decreases a@.len() - i,
    {
        if a[i] != b[i] {
            return false;
        }
        i = i + 1;
    }
    assert(a@ =~= b@);
    true
}

fn directive(acc: CacheControl, v: &[u8], from: usize, to: usize) -> (r: CacheControl)
    requires
        from <= to <= v@.len(),
    ensures
        r == apply_directive(acc, lower(trim(v@.subrange(from as int, to as int)))),
{
    let (lo, hi) = trim_range(v, from, to);
    let piece = &v[lo..hi];
    assert(v@.subrange(lo as int, hi as int) =~= piece@);
    let tok = to_lower(piece);
    let mut acc = acc;
    proof {
        reveal_strlit("no-cache");
        reveal_strlit("no-store");
        reveal_strlit("must-revalidate");
        reveal_strlit("public");
        reveal_strlit("max-age=");
    }
    let prefix = literal("max-age=");
    if bytes_eq(tok.as_slice(), literal("no-cache").as_slice()) {
        acc.no_cache = true;
    } else if bytes_eq(tok.as_slice(), literal("no-store").as_slice()) {
        acc.no_store = true;
    } else if bytes_eq(tok.as_slice(), literal("must-revalidate").as_slice()) {
        acc.must_revalidate = true;
    } else if bytes_eq(tok.as_slice(), literal("public").as_slice()) {
        acc.public = true;
    } else if starts_with(tok.as_slice(), prefix.as_slice()) {
        let rest = &tok.as_slice()[prefix.len()..tok.len()];
        assert(rest@ =~= tok@.skip(prefix@.len() as int));
        let parsed = parse_u64(rest);
        if parsed.is_some() {
            acc.max_age = parsed;
        }
    }
    acc
}

/// Reads one header value into `acc`.
fn parse_value(acc: CacheControl, v: &[u8]) -> (r: CacheControl)
    ensures
        r == apply_value(acc, v@),
{
    if !is_all_visible(v) {
        return acc;
    }
    let ghost acc0 = acc;
    let mut cur = acc;
    let mut start: usize = 0;
    let mut j: usize = 0;
    assert(v@.take(0) =~= Seq::<u8>::empty());
    assert(v@.subrange(0, 0) =~= Seq::<u8>::empty());
    while j < v.len()
        invariant
            start <= j <= v@.len(),
            split_commas(v@.take(j as int)).len() >= 1,
            split_commas(v@.take(j as int)).last() == v@.subrange(start as int, j as int),
            cur == fold_directives(acc0, split_commas(v@.take(j as int)).drop_last()),
        decreases v@.len() - j,
    {
        let ghost p = split_commas(v@.take(j as int));
        assert(v@.take(j + 1).drop_last() =~= v@.take(j as int));
        assert(v@.take(j + 1).last() == v@[j as int]);
        if v[j] == 44 {
            assert(split_commas(v@.take(j + 1)) == p.push(Seq::<u8>::empty()));
            assert(p.push(Seq::<u8>::empty()).drop_last() =~= p);
            assert(p =~= p.drop_last().push(p.last()));
            cur = directive(cur, v, start, j);
            start = j + 1;
            assert(v@.subrange(start as int, j + 1) =~= Seq::<u8>::empty());
        } else {
            let ghost q = p.drop_last().push(p.last().push(v@[j as int]));
            assert(split_commas(v@.take(j + 1)) == q);
            assert(q.drop_last() =~= p.drop_last());
            assert(v@.subrange(start as int, j + 1) =~= v@.subrange(start as int, j as int).push(
                v@[j as int],
            ));
        }
        j = j + 1;
    }
    assert(v@.take(j as int) =~= v@);
    let ghost p = split_commas(v@);
    assert(p =~= p.drop_last().push(p.last()));
    directive(cur, v, start, j)
}

impl CacheControl {
    /// Reads the directives of every `Cache-Control` header.
    pub fn from_header_map(headers: &Headers) -> (r: CacheControl)
        ensures
            r == cache_control_of(headers@),
    {
        proof {
            reveal_strlit("cache-control");
        }
        let name = literal("cache-control");
        let mut acc = CacheControl {
            no_cache: false,
            no_store: false,
            max_age: None,
            must_revalidate: false,
            public: false,
        };
        let mut i: usize = 0;
        assert(headers@.take(0) =~= Seq::<(Seq<u8>, Seq<u8>)>::empty());
        while i < headers.len()
            invariant
                i <= headers@.len(),
                name@ == cache_control_name(),
                acc == cache_control_of(headers@.take(i as int)),
            decreases headers@.len() - i,
        {
            assert(headers@.take(i + 1).drop_last() =~= headers@.take(i as int));
            let (n, v) = headers.entry(i);
            if eq_ignore_case(n, name.as_slice()) {
                acc = parse_value(acc, v);
            }
            i = i + 1;
        }
        assert(headers@.take(i as int) =~= headers@);
        acc
    }
}

} // verus!
