//! The order of `String`s (character by character, a prefix first) and the
//! sorting of distinct names by it.
use crate::text::owned;
use crate::text::{chars_of, views};
use vstd::prelude::*;

verus! {

/// `a < b` for strings: the first differing character decides, and a proper
/// prefix comes first. UTF-8 keeps the order of code points, so this is the
/// order of `String`'s `Ord`.
pub open spec fn str_less(a: Seq<char>, b: Seq<char>) -> bool
    decreases a.len(),
{
    if a.len() == 0 {
        b.len() > 0
    } else if b.len() == 0 {
        false
    } else if a[0] != b[0] {
        a[0] < b[0]
    } else {
        str_less(a.drop_first(), b.drop_first())
    }
}

pub proof fn lemma_less_irreflexive(a: Seq<char>)
    ensures
        !str_less(a, a),
    decreases a.len(),
{
    if a.len() > 0 {
        lemma_less_irreflexive(a.drop_first());
    }
}

pub proof fn lemma_less_asymmetric(a: Seq<char>, b: Seq<char>)
    requires
        str_less(a, b),
    ensures
        !str_less(b, a),
    decreases a.len(),
{
    if a.len() > 0 && b.len() > 0 && a[0] == b[0] {
        lemma_less_asymmetric(a.drop_first(), b.drop_first());
    }
}

pub proof fn lemma_less_transitive(a: Seq<char>, b: Seq<char>, c: Seq<char>)
    requires
        str_less(a, b),
        str_less(b, c),
    ensures
        str_less(a, c),
    decreases a.len(),
{
    if a.len() > 0 && b.len() > 0 && c.len() > 0 && a[0] == b[0] && b[0] == c[0] {
        lemma_less_transitive(a.drop_first(), b.drop_first(), c.drop_first());
    }
}

pub proof fn lemma_less_total(a: Seq<char>, b: Seq<char>)
    requires
        a != b,
    ensures
        str_less(a, b) || str_less(b, a),
    decreases a.len(),
{
    if a.len() > 0 && b.len() > 0 && a[0] == b[0] {
        if a.drop_first() == b.drop_first() {
            assert(a =~= seq![a[0]] + a.drop_first());
            assert(b =~= seq![b[0]] + b.drop_first());
        }
        lemma_less_total(a.drop_first(), b.drop_first());
    } else if a.len() == 0 && b.len() == 0 {
        assert(a =~= b);
    }
}

/// `a < b` on strings.
pub fn string_less(a: &str, b: &str) -> (r: bool)
    ensures
        r == str_less(a@, b@),
{
    let x = chars_of(a);
    let y = chars_of(b);
    let mut i: usize = 0;
    assert(x@.subrange(0, x@.len() as int) =~= x@);
    assert(y@.subrange(0, y@.len() as int) =~= y@);
    while i < x.len() && i < y.len() && x[i] == y[i]
        invariant
            0 <= i <= x@.len(),
            i <= y@.len(),
            x@ == a@,
            y@ == b@,
            str_less(a@, b@) == str_less(x@.subrange(i as int, x@.len() as int), y@.subrange(i as int, y@.len() as int)),
        decreases x@.len() - i,
    {
        assert(x@.subrange(i as int, x@.len() as int).drop_first() =~= x@.subrange(i + 1, x@.len() as int));
        assert(y@.subrange(i as int, y@.len() as int).drop_first() =~= y@.subrange(i + 1, y@.len() as int));
        i = i + 1;
    }
    if i == x.len() {
        i < y.len()
    } else if i == y.len() {
        false
    } else {
        x[i] < y[i]
    }
}

/// Strictly increasing: in order, and no name twice.
pub open spec fn sorted_names(s: Seq<Seq<char>>) -> bool {
    forall|i: int, j: int| 0 <= i < j < s.len() ==> str_less(#[trigger] s[i], #[trigger] s[j])
}

/// The distinct names of `names`, sorted (`Vec<&String>` sorted with `sort`).
pub fn sort_names(names: &[String]) -> (r: Vec<String>)
    requires
        forall|i: int, j: int| 0 <= i < j < names@.len() ==> (#[trigger] names@[i])@ != (#[trigger] names@[j])@,
    ensures
        sorted_names(views(r@)),
        r@.len() == names@.len(),
        forall|k: Seq<char>| views(r@).contains(k) <==> views(names@).contains(k),
{
    let mut out: Vec<String> = Vec::new();
    let mut i: usize = 0;
    while i < names.len()
        invariant
            0 <= i <= names@.len(),
            forall|a: int, b: int| 0 <= a < b < names@.len() ==> (#[trigger] names@[a])@ != (#[trigger] names@[b])@,
            sorted_names(views(out@)),
            out@.len() == i,
            forall|k: Seq<char>| views(out@).contains(k) <==> views(names@.take(i as int)).contains(k),
        decreases names@.len() - i,
    {
        let x = names[i].as_str();
        let ghost ov = views(out@);
        assert(!ov.contains(x@)) by {
            if ov.contains(x@) {
                let t = choose|t: int| 0 <= t < ov.len() && ov[t] == x@;
                assert(views(names@.take(i as int)).contains(x@));
                let u = choose|u: int| 0 <= u < i && views(names@.take(i as int))[u] == x@;
                assert(names@[u]@ == x@);
            }
        }
        let mut p: usize = 0;
        while p < out.len() && !string_less(x, out[p].as_str())
            invariant
                0 <= p <= out@.len(),
                ov == views(out@),
                !ov.contains(x@),
                sorted_names(ov),
                forall|q: int| 0 <= q < p ==> str_less(#[trigger] ov[q], x@),
            decreases out@.len() - p,
        {
            assert(ov[p as int] == out@[p as int]@);
            assert(ov[p as int] != x@) by {
                assert(ov.contains(ov[p as int]));
            }
            proof {
                lemma_less_total(ov[p as int], x@);
            }
            p = p + 1;
        }
        proof {
            if p < out@.len() {
                assert(ov[p as int] == out@[p as int]@);
                assert(str_less(x@, ov[p as int]));
            }
        }
        out.insert(p, owned(x));
        let ghost nv = views(out@);
        assert(nv =~= ov.insert(p as int, x@));
        assert(sorted_names(nv)) by {
            assert forall|a: int, b: int| 0 <= a < b < nv.len() implies str_less(#[trigger] nv[a], #[trigger] nv[b]) by {
                if b < p {
                    assert(nv[a] == ov[a] && nv[b] == ov[b]);
                } else if b == p {
                    assert(nv[a] == ov[a]);
                } else if a < p {
                    assert(nv[a] == ov[a] && nv[b] == ov[b - 1]);
                    assert(str_less(x@, ov[p as int]));
                    if b - 1 > p {
                        lemma_less_transitive(x@, ov[p as int], ov[b - 1]);
                    }
                    lemma_less_transitive(ov[a], x@, ov[b - 1]);
                } else if a == p {
                    assert(nv[b] == ov[b - 1]);
                    if b - 1 > p {
                        lemma_less_transitive(x@, ov[p as int], ov[b - 1]);
                    }
                } else {
                    assert(nv[a] == ov[a - 1] && nv[b] == ov[b - 1]);
                }
            }
        }
        assert forall|k: Seq<char>| nv.contains(k) <==> views(names@.take(i + 1)).contains(k) by {
            let pre = views(names@.take(i as int));
            let post = views(names@.take(i + 1));
            assert(post =~= pre.push(x@));
            if nv.contains(k) {
                let t = choose|t: int| 0 <= t < nv.len() && nv[t] == k;
                if t < p {
                    assert(nv[t] == ov[t]);
                    assert(ov.contains(k));
                    assert(pre.contains(k));
                    let u = choose|u: int| 0 <= u < pre.len() && pre[u] == k;
                    assert(post[u] == k);
                } else if t == p {
                    assert(post[i as int] == k);
                } else {
                    assert(nv[t] == ov[t - 1]);
                    assert(ov.contains(k));
                    assert(pre.contains(k));
                    let u = choose|u: int| 0 <= u < pre.len() && pre[u] == k;
                    assert(post[u] == k);
                }
            }
            if post.contains(k) {
                let u = choose|u: int| 0 <= u < post.len() && post[u] == k;
                if u < i {
                    assert(pre[u] == k);
                    assert(pre.contains(k));
                    assert(ov.contains(k));
                    let t = choose|t: int| 0 <= t < ov.len() && ov[t] == k;
                    if t < p {
                        assert(nv[t] == k);
                    } else {
                        assert(nv[t + 1] == k);
                    }
                } else {
                    assert(nv[p as int] == k);
                }
            }
        }
        i = i + 1;
    }
    assert(names@.take(names@.len() as int) =~= names@);
    out
}


/// The text by which paths are ordered: each `/` counts as lower than every
/// other character, so a path sorts by its `/`-separated components.
pub open spec fn path_key(p: Seq<char>) -> Seq<char> {
    p.map_values(|c: char| if c == '/' { '\0' } else { c })
}

/// The order keys of a list of paths.
pub open spec fn path_keys(s: Seq<Seq<char>>) -> Seq<Seq<char>> {
    s.map_values(|p: Seq<char>| path_key(p))
}

/// The order key of `p` (see `path_key`).
fn path_key_exec(p: &str) -> (r: String)
    ensures
        r@ == path_key(p@),
{
    let v = chars_of(p);
    let mut out: Vec<char> = Vec::new();
    let mut i: usize = 0;
    while i < v.len()
        invariant
            v@ == p@,
            0 <= i <= v@.len(),
            out@ == path_key(v@.take(i as int)),
        decreases v@.len() - i,
    {
        let c = v[i];
        let k = if c == '/' {
            '\0'
        } else {
            c
        };
        out.push(k);
        assert(out@ =~= path_key(v@.take(i + 1)));
        i = i + 1;
    }
    assert(v@.take(v@.len() as int) =~= v@);
    crate::text::string_from_chars(out.as_slice())
}

/// The paths of `paths` in ascending order of their components (see
/// `path_key`), each spelling of a path once: the first of those with the
/// same key is kept.
pub fn sort_unique_paths(paths: &[String]) -> (r: Vec<String>)
    ensures
        sorted_names(path_keys(views(r@))),
        forall|k: int| 0 <= k < r@.len() ==> views(paths@).contains(#[trigger] views(r@)[k]),
        forall|j: int| 0 <= j < paths@.len() ==> path_keys(views(r@)).contains(path_key(#[trigger] views(paths@)[j])),
{
    let ghost pv = views(paths@);
    let mut out: Vec<String> = Vec::new();
    let mut keys: Vec<String> = Vec::new();
    let mut i: usize = 0;
    while i < paths.len()
        invariant
            pv == views(paths@),
            0 <= i <= paths@.len(),
            views(keys@) == path_keys(views(out@)),
            sorted_names(views(keys@)),
            forall|k: int| 0 <= k < out@.len() ==> pv.contains(#[trigger] views(out@)[k]),
            forall|j: int| 0 <= j < i ==> views(keys@).contains(path_key(#[trigger] pv[j])),
        decreases paths@.len() - i,
    {
        let x = paths[i].as_str();
        assert(pv[i as int] == x@);
        let kx = path_key_exec(x);
        let ghost kv = views(keys@);
        let ghost ov = views(out@);
        let mut p: usize = 0;
        while p < keys.len() && string_less(keys[p].as_str(), kx.as_str())
            invariant
                0 <= p <= keys@.len(),
                kv == views(keys@),
                forall|q: int| 0 <= q < p ==> str_less(#[trigger] kv[q], kx@),
            decreases keys@.len() - p,
        {
            assert(kv[p as int] == keys@[p as int]@);
            p = p + 1;
        }
        let dup = p < keys.len() && crate::text::str_eq(keys[p].as_str(), kx.as_str());
        if dup {
            assert(kv[p as int] == keys@[p as int]@);
            assert(kv[p as int] == kx@);
            assert forall|j: int| 0 <= j < i + 1 implies views(keys@).contains(path_key(#[trigger] pv[j])) by {
                if j == i {
                    assert(views(keys@)[p as int] == path_key(pv[j]));
                }
            }
        } else {
            proof {
                if p < keys@.len() {
                    assert(kv[p as int] == keys@[p as int]@);
                    assert(!str_less(kv[p as int], kx@));
                    assert(kv[p as int] != kx@);
                    lemma_less_total(kv[p as int], kx@);
                    assert(str_less(kx@, kv[p as int]));
                }
            }
            keys.insert(p, kx);
            out.insert(p, owned(x));
            let ghost nk = views(keys@);
            let ghost no = views(out@);
            assert(nk =~= kv.insert(p as int, path_key(x@)));
            assert(no =~= ov.insert(p as int, x@));
            assert(nk =~= path_keys(no));
            assert(sorted_names(nk)) by {
                assert forall|a: int, b: int| 0 <= a < b < nk.len() implies str_less(#[trigger] nk[a], #[trigger] nk[b]) by {
                    let kk = path_key(x@);
                    if b < p {
                        assert(nk[a] == kv[a] && nk[b] == kv[b]);
                    } else if b == p {
                        assert(nk[a] == kv[a]);
                    } else if a < p {
                        assert(nk[a] == kv[a] && nk[b] == kv[b - 1]);
                        assert(str_less(kk, kv[p as int]));
                        if b - 1 > p {
                            lemma_less_transitive(kk, kv[p as int], kv[b - 1]);
                        }
                        lemma_less_transitive(kv[a], kk, kv[b - 1]);
                    } else if a == p {
                        assert(nk[b] == kv[b - 1]);
                        if b - 1 > p {
                            lemma_less_transitive(kk, kv[p as int], kv[b - 1]);
                        }
                    } else {
                        assert(nk[a] == kv[a - 1] && nk[b] == kv[b - 1]);
                    }
                }
            }
            assert forall|k: int| 0 <= k < out@.len() implies pv.contains(#[trigger] views(out@)[k]) by {
                if k < p {
                    assert(no[k] == ov[k]);
                } else if k == p {
                    assert(no[k] == pv[i as int]);
                } else {
                    assert(no[k] == ov[k - 1]);
                }
            }
            assert forall|j: int| 0 <= j < i + 1 implies views(keys@).contains(path_key(#[trigger] pv[j])) by {
                if j == i {
                    assert(nk[p as int] == path_key(pv[j]));
                } else {
                    let t = choose|t: int| 0 <= t < kv.len() && kv[t] == path_key(pv[j]);
                    if t < p {
                        assert(nk[t] == kv[t]);
                    } else {
                        assert(nk[t + 1] == kv[t]);
                    }
                }
            }
        }
        i = i + 1;
    }
    out
}

} // verus!
