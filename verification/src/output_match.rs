//! Matching of configured output overrides against a connected output:
//! case-insensitive wildcard patterns (`*`, `?`), their specificity, and the
//! choice of the best override for an output.

use vstd::prelude::*;
use crate::text::{byte_lower, trim, trim_str, to_ascii_lower_byte};

verus! {

/// Whether pattern byte `pc` accepts text byte `tc` at one step of the scan:
/// `?` accepts any byte, everything else compares ignoring ASCII case.
pub open spec fn pat_byte_matches(pc: u8, tc: u8) -> bool {
    pc == 63u8 || byte_lower(pc) == byte_lower(tc)
}

/// Every byte of `p` from `pi` on is `*`.
pub open spec fn all_stars_from(p: Seq<u8>, pi: int) -> bool {
    forall|k: int| pi <= k < p.len() ==> p[k] == 42u8
}

/// The left-to-right wildcard scan with one back-tracking point (the last `*` seen),
/// from pattern position `pi`, text position `ti`, last star `star` and the text
/// position `m` that this star currently absorbs up to.
pub open spec fn scan(p: Seq<u8>, t: Seq<u8>, pi: int, ti: int, star: Option<int>, m: int) -> bool
    decreases t.len() - m, t.len() - ti, p.len() - pi,
    when 0 <= m <= ti <= t.len() && 0 <= pi <= p.len() && (star is Some ==> 0 <= star->0 < pi)
{
    if ti >= t.len() {
        all_stars_from(p, pi)
    } else if pi < p.len() && pat_byte_matches(p[pi], t[ti]) {
        scan(p, t, pi + 1, ti + 1, star, m)
    } else if pi < p.len() && p[pi] == 42u8 {
        scan(p, t, pi + 1, ti, Some(pi), ti)
    } else if star is Some {
        scan(p, t, star->0 + 1, m + 1, star, m + 1)
    } else {
        false
    }
}

/// Glob matching of `p[a..]` against `t[b..]`: `*` takes any run of bytes,
/// `?` any one byte, other bytes compare ignoring ASCII case.
pub open spec fn glob_at(p: Seq<u8>, t: Seq<u8>, a: int, b: int) -> bool
    decreases p.len() - a, t.len() - b,
    when 0 <= a <= p.len() && 0 <= b <= t.len()
{
    if a == p.len() {
        b == t.len()
    } else if p[a] == 42u8 {
        glob_at(p, t, a + 1, b) || (b < t.len() && glob_at(p, t, a, b + 1))
    } else {
        b < t.len() && pat_byte_matches(p[a], t[b]) && glob_at(p, t, a + 1, b + 1)
    }
}

/// Whole-string glob matching.
pub open spec fn glob(p: Seq<u8>, t: Seq<u8>) -> bool {
    glob_at(p, t, 0, 0)
}

/// What `wildcard_matches` decides for pattern text `pattern` and text `text`.
pub open spec fn wildcard_spec(pattern: Seq<char>, text: Seq<char>) -> bool {
    let p = vstd::utf8::encode_utf8(trim(pattern));
    trim(pattern).len() > 0 && scan(p, vstd::utf8::encode_utf8(text), 0, 0, None, 0)
}

/// Case-insensitive wildcard match of `text` against the trimmed `pattern`,
/// byte by byte; an empty pattern matches nothing.
pub fn wildcard_matches(pattern: &str, text: &str) -> (r: bool)
    ensures
        r == wildcard_spec(pattern@, text@),
{
    let trimmed = trim_str(pattern);
    if trimmed.as_str().is_empty() {
        return false;
    }
    let p = trimmed.as_str().as_bytes();
    let t = text.as_bytes();
    let ghost pp = p@;
    let ghost tt = t@;
    assert(pp == vstd::utf8::encode_utf8(trim(pattern@)));
    assert(tt == vstd::utf8::encode_utf8(text@));
    assert(trim(pattern@).len() > 0);
    let mut pi: usize = 0;
    let mut ti: usize = 0;
    let mut star_idx: Option<usize> = None;
    let mut match_idx: usize = 0;
    while ti < t.len()
        invariant
            pp == p@,
            tt == t@,
            pp == vstd::utf8::encode_utf8(trim(pattern@)),
            tt == vstd::utf8::encode_utf8(text@),
            trim(pattern@).len() > 0,
            0 <= match_idx <= ti <= t@.len(),
            0 <= pi <= p@.len(),
            star_idx is Some ==> star_idx->0 < pi,
            scan(pp, tt, pi as int, ti as int, match star_idx { Some(s) => Some(s as int), None => None }, match_idx as int)
                == scan(pp, tt, 0, 0, None, 0),
        decreases t@.len() - match_idx, t@.len() - ti, p@.len() - pi,
    {
        if pi < p.len() && (p[pi] == 63u8 || to_ascii_lower_byte(p[pi]) == to_ascii_lower_byte(t[ti])) {
            pi = pi + 1;
            ti = ti + 1;
        } else if pi < p.len() && p[pi] == 42u8 {
            star_idx = Some(pi);
            match_idx = ti;
            pi = pi + 1;
        } else if let Some(star) = star_idx {
            pi = star + 1;
            match_idx = match_idx + 1;
            ti = match_idx;
        } else {
            assert(!scan(pp, tt, pi as int, ti as int, None, match_idx as int));
            return false;
        }
    }
    assert(scan(pp, tt, 0, 0, None, 0) == all_stars_from(pp, pi as int));
    let ghost pi0 = pi as int;
    while pi < p.len() && p[pi] == 42u8
        invariant
            pp == p@,
            pi0 <= pi <= p@.len(),
            all_stars_from(pp, pi0) == all_stars_from(pp, pi as int),
        decreases p@.len() - pi,
    {
        pi = pi + 1;
    }
    pi == p.len()
}

/// No byte of `s[a..b]` is `*`.
pub open spec fn star_free(s: Seq<u8>, a: int, b: int) -> bool {
    forall|k: int| a <= k < b ==> s[k] != 42u8
}

/// `p[a..a+n]` accepts `t[b..b+n]` byte for byte.
pub open spec fn seg_match(p: Seq<u8>, t: Seq<u8>, a: int, b: int, n: int) -> bool {
    forall|i: int| 0 <= i < n ==> pat_byte_matches(#[trigger] p[a + i], t[b + i])
}

/// `p[a..]` glob-matches some suffix `t[k..]` with `k >= k0`.
pub open spec fn glob_from(p: Seq<u8>, t: Seq<u8>, a: int, k0: int) -> bool {
    exists|k: int| k0 <= k <= t.len() && #[trigger] glob_at(p, t, a, k)
}

proof fn lemma_glob_star(p: Seq<u8>, t: Seq<u8>, a: int, b: int)
    requires
        0 <= a < p.len(),
        p[a] == 42u8,
        0 <= b <= t.len(),
    ensures
        glob_at(p, t, a, b) == glob_from(p, t, a + 1, b),
    decreases t.len() - b,
{
    if b < t.len() {
        lemma_glob_star(p, t, a, b + 1);
        if glob_at(p, t, a, b) {
            if !glob_at(p, t, a + 1, b) {
                let k = choose|k: int| b + 1 <= k <= t.len() && #[trigger] glob_at(p, t, a + 1, k);
                assert(glob_at(p, t, a + 1, k));
            } else {
                assert(glob_at(p, t, a + 1, b));
            }
        }
        if glob_from(p, t, a + 1, b) {
            let k = choose|k: int| b <= k <= t.len() && #[trigger] glob_at(p, t, a + 1, k);
            if k > b {
                assert(glob_from(p, t, a + 1, b + 1));
            }
        }
    } else {
        if glob_from(p, t, a + 1, b) {
            let k = choose|k: int| b <= k <= t.len() && #[trigger] glob_at(p, t, a + 1, k);
            assert(k == b);
        }
        if glob_at(p, t, a, b) {
            assert(glob_at(p, t, a + 1, b));
        }
    }
}

proof fn lemma_glob_block(p: Seq<u8>, t: Seq<u8>, a: int, b: int, n: int)
    requires
        0 <= a,
        0 <= n,
        a + n <= p.len(),
        0 <= b <= t.len(),
        star_free(p, a, a + n),
    ensures
        b + n <= t.len() ==> (glob_at(p, t, a, b) == (seg_match(p, t, a, b, n) && glob_at(
            p,
            t,
            a + n,
            b + n,
        ))),
        b + n > t.len() ==> !glob_at(p, t, a, b),
    decreases n,
{
    if n > 0 && b == t.len() {
        assert(p[a] != 42u8);
    } else if n > 0 {
        lemma_glob_block(p, t, a + 1, b + 1, n - 1);
        assert(p[a] != 42u8);
        if b + n <= t.len() {
            assert forall|i: int| 0 <= i < n - 1 implies (#[trigger] p[(a + 1) + i] == p[a + (i
                + 1)]) by {}
            if seg_match(p, t, a, b, n) {
                assert(pat_byte_matches(p[a + 0], t[b + 0]));
                assert forall|i: int| 0 <= i < n - 1 implies pat_byte_matches(
                    #[trigger] p[(a + 1) + i],
                    t[(b + 1) + i],
                ) by {
                    assert(pat_byte_matches(p[a + (i + 1)], t[b + (i + 1)]));
                }
            }
            if pat_byte_matches(p[a], t[b]) && seg_match(p, t, a + 1, b + 1, n - 1) {
                assert forall|i: int| 0 <= i < n implies pat_byte_matches(
                    #[trigger] p[a + i],
                    t[b + i],
                ) by {
                    if i > 0 {
                        assert(pat_byte_matches(p[(a + 1) + (i - 1)], t[(b + 1) + (i - 1)]));
                    }
                }
            }
        } else if b < t.len() {
        }
    } else {
        assert(a + 0 == a);
    }
}

proof fn lemma_glob_at_end(p: Seq<u8>, t: Seq<u8>, a: int)
    requires
        0 <= a <= p.len(),
    ensures
        glob_at(p, t, a, t.len() as int) == all_stars_from(p, a),
    decreases p.len() - a,
{
    if a < p.len() {
        lemma_glob_at_end(p, t, a + 1);
        if p[a] == 42u8 {
            if all_stars_from(p, a + 1) {
                assert forall|k: int| a <= k < p.len() implies p[k] == 42u8 by {
                    if k > a {
                        assert(all_stars_from(p, a + 1));
                    }
                }
            }
        }
    }
}

proof fn lemma_scan_glob(p: Seq<u8>, t: Seq<u8>, pi: int, ti: int, star: Option<int>, m: int)
    requires
        0 <= m <= ti <= t.len(),
        0 <= pi <= p.len(),
        star is Some ==> 0 <= star->0 < pi,
        star_free(t, 0, t.len() as int),
        star is Some ==> ({
            let s = star->0;
            &&& p[s] == 42u8
            &&& star_free(p, s + 1, pi)
            &&& pi - (s + 1) == ti - m
            &&& seg_match(p, t, s + 1, m, pi - (s + 1))
        }),
    ensures
        scan(p, t, pi, ti, star, m) == (match star {
            None => glob_at(p, t, pi, ti),
            Some(s) => glob_from(p, t, s + 1, m),
        }),
    decreases t.len() - m, t.len() - ti, p.len() - pi,
{
    if let Some(s) = star {
        let n = pi - (s + 1);
        lemma_glob_block(p, t, s + 1, m, n);
        assert(glob_at(p, t, s + 1, m) == glob_at(p, t, pi, ti));
    }
    if ti >= t.len() {
        lemma_glob_at_end(p, t, pi);
        if let Some(s) = star {
            let n = pi - (s + 1);
            if glob_from(p, t, s + 1, m) {
                let k = choose|k: int| m <= k <= t.len() && #[trigger] glob_at(p, t, s + 1, k);
                if k > m {
                    lemma_glob_block(p, t, s + 1, k, n);
                }
            }
            if glob_at(p, t, pi, ti) {
                assert(glob_at(p, t, s + 1, m));
            }
        }
    } else if pi < p.len() && pat_byte_matches(p[pi], t[ti]) {
        assert(p[pi] != 42u8) by {
            if p[pi] == 42u8 {
                assert(t[ti] != 42u8);
            }
        }
        if let Some(s) = star {
            let n = pi - (s + 1);
            assert forall|i: int| 0 <= i < n + 1 implies pat_byte_matches(
                #[trigger] p[(s + 1) + i],
                t[m + i],
            ) by {
                if i < n {
                    assert(seg_match(p, t, s + 1, m, n));
                }
            }
            assert(seg_match(p, t, s + 1, m, n + 1));
        }
        lemma_scan_glob(p, t, pi + 1, ti + 1, star, m);
    } else if pi < p.len() && p[pi] == 42u8 {
        lemma_scan_glob(p, t, pi + 1, ti, Some(pi), ti);
        lemma_glob_star(p, t, pi, ti);
        if let Some(s) = star {
            let n = pi - (s + 1);
            if glob_from(p, t, s + 1, m) {
                let k = choose|k: int| m <= k <= t.len() && #[trigger] glob_at(p, t, s + 1, k);
                if k > m {
                    lemma_glob_block(p, t, s + 1, k, n);
                    lemma_glob_star(p, t, pi, k + n);
                    let k2 = choose|k2: int| k + n <= k2 <= t.len() && #[trigger] glob_at(
                        p,
                        t,
                        pi + 1,
                        k2,
                    );
                    assert(glob_at(p, t, pi + 1, k2));
                } else {
                    assert(glob_at(p, t, pi, ti));
                }
            }
            if glob_from(p, t, pi + 1, ti) {
                assert(glob_at(p, t, s + 1, m));
            }
        }
    } else if let Some(s) = star {
        let n = pi - (s + 1);
        assert(!glob_at(p, t, pi, ti));
        lemma_scan_glob(p, t, s + 1, m + 1, star, m + 1);
        assert(seg_match(p, t, s + 1, m + 1, 0));
        if glob_from(p, t, s + 1, m) {
            let k = choose|k: int| m <= k <= t.len() && #[trigger] glob_at(p, t, s + 1, k);
            assert(k != m);
            assert(glob_from(p, t, s + 1, m + 1));
        }
        if glob_from(p, t, s + 1, m + 1) {
            let k = choose|k: int| m + 1 <= k <= t.len() && #[trigger] glob_at(p, t, s + 1, k);
            assert(glob_from(p, t, s + 1, m));
        }
    } else {
        assert(!glob_at(p, t, pi, ti));
    }
}

proof fn lemma_lone_star_absorbs(p: Seq<u8>, t: Seq<u8>, m: int)
    requires
        p == seq![42u8],
        0 <= m <= t.len(),
    ensures
        scan(p, t, 1, m, Some(0), m),
    decreases t.len() - m,
{
    if m < t.len() {
        lemma_lone_star_absorbs(p, t, m + 1);
    }
}

/// The pattern `*` matches every text that does not itself start with `*`.
/// (A text that starts with `*` has that byte taken by the pattern's `*` as a
/// literal, and then matches only when it is that one byte.)
pub proof fn law_star_matches_any_text(text: Seq<char>)
    requires
        text.len() == 0 || text[0] != '*',
    ensures
        wildcard_spec("*"@, text),
{
    reveal_strlit("*");
    let star = "*"@;
    assert(star.len() == 1 && star[0] == '*');
    assert(trim(star) == star) by {
        assert(!crate::text::is_ws('*'));
        assert(crate::text::trim_start_by(star, crate::text::CharClass::Whitespace) == star);
        assert(crate::text::trim_end_by(star, crate::text::CharClass::Whitespace) == star);
    }
    vstd::utf8::is_ascii_chars_encode_utf8(star);
    let p = vstd::utf8::encode_utf8(star);
    assert(p =~= seq![42u8]);
    let t = vstd::utf8::encode_utf8(text);
    if text.len() > 0 {
        let c = text[0] as u32;
        let e = vstd::utf8::encode_scalar(c);
        assert(t == e + vstd::utf8::encode_utf8(text.drop_first()));
        vstd::utf8::char_is_scalar(text[0]);
        assert(c != 42u32) by {
            if c == 42u32 {
                assert(('*' as u32) == 42u32);
                vstd::utf8::char_u32_cast('*', 42u32);
                vstd::utf8::char_u32_cast(text[0], c);
            }
        }
        assert(e.len() > 0 && e[0] != 42u8) by {
            if vstd::utf8::has_width_1_encoding(c) {
                assert((c & 0x7F) as u8 != 42u8) by (bit_vector)
                    requires
                        c <= 0x7F,
                        c != 42u32,
                ;
            } else if vstd::utf8::has_width_2_encoding(c) {
                assert(0xC0u8 | ((c >> 6) & 0x1F) as u8 != 42u8) by (bit_vector);
            } else if vstd::utf8::has_width_3_encoding(c) {
                assert(0xE0u8 | ((c >> 12) & 0x0F) as u8 != 42u8) by (bit_vector);
            } else {
                assert(0xF0u8 | ((c >> 18) & 0x7) as u8 != 42u8) by (bit_vector);
            }
        }
        assert(t[0] == e[0]);
        assert(!pat_byte_matches(p[0], t[0]));
    } else {
        assert(t.len() == 0);
    }
    lemma_lone_star_absorbs(p, t, 0);
}

/// For a text without `*`, the wildcard scan decides exactly glob matching:
/// `*` matches any run of bytes, `?` any single byte, and other bytes match
/// ignoring ASCII case.
pub proof fn law_wildcard_is_glob(p: Seq<u8>, t: Seq<u8>)
    requires
        star_free(t, 0, t.len() as int),
    ensures
        scan(p, t, 0, 0, None, 0) == glob(p, t),
{
    lemma_scan_glob(p, t, 0, 0, None, 0);
}

/// Weight of one pattern character: `*` counts 0, `?` counts 1, anything else 3.
pub open spec fn char_weight(c: char) -> int {
    if c == '*' {
        0
    } else if c == '?' {
        1
    } else {
        3
    }
}

/// Sum of the character weights of a pattern: how specific it is.
pub open spec fn specificity(s: Seq<char>) -> int
    decreases s.len(),
{
    if s.len() == 0 {
        0
    } else {
        char_weight(s[0]) + specificity(s.drop_first())
    }
}

proof fn lemma_specificity_bounds(s: Seq<char>)
    ensures
        0 <= specificity(s) <= 3 * s.len(),
    decreases s.len(),
{
    if s.len() > 0 {
        lemma_specificity_bounds(s.drop_first());
    }
}

proof fn lemma_specificity_take(s: Seq<char>, i: int)
    requires
        0 <= i < s.len(),
    ensures
        specificity(s.subrange(i, s.len() as int)) == char_weight(s[i]) + specificity(
            s.subrange(i + 1, s.len() as int),
        ),
{
    assert(s.subrange(i, s.len() as int).drop_first() =~= s.subrange(i + 1, s.len() as int));
}

/// How specific a pattern is: the sum over its characters of 0 for `*`,
/// 1 for `?` and 3 for any other character.
pub fn pattern_specificity(pattern: &str) -> (r: i32)
    requires
        3 * pattern@.len() <= i32::MAX,
    ensures
        r == specificity(pattern@),
{
    let v = crate::text::chars_of(pattern);
    let n = v.len();
    let mut i = n;
    let mut total: i32 = 0;
    proof {
        assert(v@.subrange(n as int, n as int) =~= Seq::<char>::empty());
        lemma_specificity_bounds(v@);
    }
    while i > 0
        invariant
            0 <= i <= n == v@.len(),
            v@ == pattern@,
            3 * n <= i32::MAX,
            total == specificity(v@.subrange(i as int, n as int)),
            0 <= total <= 3 * (n - i),
        decreases i,
    {
        i = i - 1;
        proof {
            lemma_specificity_take(v@, i as int);
        }
        let c = v[i];
        let w: i32 = if c == '*' {
            0
        } else if c == '?' {
            1
        } else {
            3
        };
        total = total + w;
    }
    assert(v@.subrange(0, n as int) =~= v@);
    total
}

/// The score of `value` under `pattern`: its specificity when it matches.
pub open spec fn score_spec(pattern: Seq<char>, value: Seq<char>) -> Option<int> {
    if wildcard_spec(pattern, value) {
        Some(specificity(pattern))
    } else {
        None
    }
}

/// The specificity of `pattern` when it matches `value`, and `None` otherwise.
pub fn score_pattern(pattern: &str, value: &str) -> (r: Option<i32>)
    requires
        3 * pattern@.len() <= i32::MAX,
    ensures
        match r {
            Some(x) => score_spec(pattern@, value@) == Some(x as int),
            None => score_spec(pattern@, value@) is None,
        },
{
    if wildcard_matches(pattern, value) {
        Some(pattern_specificity(pattern))
    } else {
        None
    }
}

/// A connected output as the compositor reports it.
#[derive(Debug, Clone)]
pub struct OutputDescriptor {
    pub name: String,
    pub connector: Option<String>,
    pub index: Option<u32>,
}

/// The selecting part of an `[output.<key>]` table of the configuration:
/// whether the output is enabled and which name, connector and index it
/// applies to.
#[derive(Debug, Clone)]
pub struct OutputOverrideConfig {
    pub enabled: Option<bool>,
    pub name: Option<String>,
    pub connector: Option<String>,
    pub index: Option<u32>,
}

/// Byte-wise ASCII case-insensitive equality, as `str::eq_ignore_ascii_case`.
pub open spec fn eq_ignore_ascii_case_spec(a: Seq<char>, b: Seq<char>) -> bool {
    let x = vstd::utf8::encode_utf8(a);
    let y = vstd::utf8::encode_utf8(b);
    x.len() == y.len() && forall|i: int| 0 <= i < x.len() ==> byte_lower(#[trigger] x[i])
        == byte_lower(y[i])
}

/// `a.eq_ignore_ascii_case(b)`.
pub fn eq_ignore_ascii_case(a: &str, b: &str) -> (r: bool)
    ensures
        r == eq_ignore_ascii_case_spec(a@, b@),
{
    let x = a.as_bytes();
    let y = b.as_bytes();
    if x.len() != y.len() {
        return false;
    }
    let mut i: usize = 0;
    while i < x.len()
        invariant
            x@.len() == y@.len(),
            x@ == vstd::utf8::encode_utf8(a@),
            y@ == vstd::utf8::encode_utf8(b@),
            0 <= i <= x@.len(),
            forall|k: int| 0 <= k < i ==> byte_lower(#[trigger] x@[k]) == byte_lower(y@[k]),
        decreases x@.len() - i,
    {
        if to_ascii_lower_byte(x[i]) != to_ascii_lower_byte(y[i]) {
            return false;
        }
        i = i + 1;
    }
    true
}

/// The score with which the override keyed `key` with selector `cfg` applies to
/// output `d`, or `None` when it does not apply: the key must match the output
/// name; a `name` pattern adds 100 plus its score, a `connector` pattern 70
/// plus its score (the output must report a connector), a required `index`
/// adds 40 (the output must report that index), and a key equal to the output
/// name ignoring ASCII case adds 1000.
pub open spec fn override_score(key: Seq<char>, cfg: OutputOverrideConfig, d: OutputDescriptor) -> Option<int> {
    let base = score_spec(key, d.name@);
    let with_name = match base {
        None => None,
        Some(s) => match cfg.name {
            None => Some(s),
            Some(n) => match score_spec(n@, d.name@) {
                Some(x) => Some(s + 100 + x),
                None => None,
            },
        },
    };
    let with_connector = match with_name {
        None => None,
        Some(s) => match cfg.connector {
            None => Some(s),
            Some(cp) => match d.connector {
                None => None,
                Some(c) => match score_spec(cp@, c@) {
                    Some(x) => Some(s + 70 + x),
                    None => None,
                },
            },
        },
    };
    let with_index = match with_connector {
        None => None,
        Some(s) => match cfg.index {
            None => Some(s),
            Some(e) => match d.index {
                Some(a) => if a == e {
                    Some(s + 40)
                } else {
                    None
                },
                None => None,
            },
        },
    };
    match with_index {
        None => None,
        Some(s) => Some(
            if eq_ignore_ascii_case_spec(key, d.name@) {
                s + 1000
            } else {
                s
            },
        ),
    }
}

/// The patterns of an override are short enough that its score fits an `i32`.
pub open spec fn override_fits(key: Seq<char>, cfg: OutputOverrideConfig) -> bool {
    let nl = match cfg.name {
        Some(n) => n@.len(),
        None => 0,
    };
    let cl = match cfg.connector {
        Some(c) => c@.len(),
        None => 0,
    };
    3 * (key.len() + nl + cl) + 1210 <= i32::MAX
}

/// The score of override `key`/`cfg` for output `descriptor` (see `override_score`).
pub fn match_output_override(key: &str, cfg: &OutputOverrideConfig, descriptor: &OutputDescriptor) -> (r: Option<i32>)
    requires
        override_fits(key@, *cfg),
    ensures
        match r {
            Some(x) => override_score(key@, *cfg, *descriptor) == Some(x as int),
            None => override_score(key@, *cfg, *descriptor) is None,
        },
{
    proof {
        lemma_specificity_bounds(key@);
        if let Some(n) = &cfg.name {
            lemma_specificity_bounds(n@);
        }
        if let Some(c) = &cfg.connector {
            lemma_specificity_bounds(c@);
        }
    }
    let mut score = match score_pattern(key, descriptor.name.as_str()) {
        Some(s) => s,
        None => return None,
    };
    if let Some(name_pattern) = &cfg.name {
        match score_pattern(name_pattern.as_str(), descriptor.name.as_str()) {
            Some(x) => {
                score = score + 100 + x;
            },
            None => return None,
        }
    }
    if let Some(connector_pattern) = &cfg.connector {
        let connector = match &descriptor.connector {
            Some(c) => c,
            None => return None,
        };
        match score_pattern(connector_pattern.as_str(), connector.as_str()) {
            Some(x) => {
                score = score + 70 + x;
            },
            None => return None,
        }
    }
    if let Some(expected_index) = cfg.index {
        let actual_index = match descriptor.index {
            Some(a) => a,
            None => return None,
        };
        if expected_index != actual_index {
            return None;
        }
        score = score + 40;
    }
    if eq_ignore_ascii_case(key, descriptor.name.as_str()) {
        score = score + 1000;
    }
    Some(score)
}

/// The index of the override that applies best to `descriptor`: the highest
/// score wins, and among equal scores the last entry in key order (as
/// `Iterator::max_by_key` picks it); `None` when no override applies.
pub fn find_best_output_override(entries: &[(String, OutputOverrideConfig)], descriptor: &OutputDescriptor) -> (r: Option<usize>)
    requires
        forall|i: int| 0 <= i < entries@.len() ==> override_fits((#[trigger] entries@[i]).0@, entries@[i].1),
    ensures
        r is None <==> forall|i: int| 0 <= i < entries@.len() ==> override_score((#[trigger] entries@[i]).0@, entries@[i].1, *descriptor) is None,
        r matches Some(b) ==> ({
            &&& b < entries@.len()
            &&& override_score(entries@[b as int].0@, entries@[b as int].1, *descriptor) is Some
            &&& forall|j: int| 0 <= j < entries@.len() && (#[trigger] override_score(entries@[j].0@, entries@[j].1, *descriptor)) is Some ==> override_score(entries@[j].0@, entries@[j].1, *descriptor)->0 <= override_score(entries@[b as int].0@, entries@[b as int].1, *descriptor)->0
            &&& forall|j: int| b < j < entries@.len() && (#[trigger] override_score(entries@[j].0@, entries@[j].1, *descriptor)) is Some ==> override_score(entries@[j].0@, entries@[j].1, *descriptor)->0 < override_score(entries@[b as int].0@, entries@[b as int].1, *descriptor)->0
        }),
{
    let mut best: Option<usize> = None;
    let mut best_score: i32 = 0;
    let mut i: usize = 0;
    while i < entries.len()
        invariant
            0 <= i <= entries@.len(),
            forall|k: int| 0 <= k < entries@.len() ==> override_fits((#[trigger] entries@[k]).0@, entries@[k].1),
            best is None <==> forall|k: int| 0 <= k < i ==> override_score((#[trigger] entries@[k]).0@, entries@[k].1, *descriptor) is None,
            best matches Some(b) ==> ({
                &&& b < i
                &&& override_score(entries@[b as int].0@, entries@[b as int].1, *descriptor) == Some(best_score as int)
                &&& forall|j: int| 0 <= j < i && (#[trigger] override_score(entries@[j].0@, entries@[j].1, *descriptor)) is Some ==> override_score(entries@[j].0@, entries@[j].1, *descriptor)->0 <= best_score
                &&& forall|j: int| b < j < i && (#[trigger] override_score(entries@[j].0@, entries@[j].1, *descriptor)) is Some ==> override_score(entries@[j].0@, entries@[j].1, *descriptor)->0 < best_score
            }),
        decreases entries@.len() - i,
    {
        let entry = &entries[i];
        match match_output_override(entry.0.as_str(), &entry.1, descriptor) {
            Some(sc) => {
                if best.is_none() || sc >= best_score {
                    best = Some(i);
                    best_score = sc;
                }
            },
            None => {},
        }
        i = i + 1;
    }
    best
}

/// What the override table decides for one output.
#[derive(Debug, Clone, Copy, PartialEq, Eq)]
pub enum OutputResolution {
    /// The best matching override disables the output.
    Disabled,
    /// The output runs, with the best matching override (an index into the
    /// table) applied on top of the global settings, if any matched.
    Enabled(Option<usize>),
}

/// Decides how the override table applies to `descriptor`: the best override
/// (see `find_best_output_override`) disables the output when its `enabled` is
/// `Some(false)`, and is applied otherwise.
pub fn resolve_output_override(entries: &[(String, OutputOverrideConfig)], descriptor: &OutputDescriptor) -> (r: OutputResolution)
    requires
        forall|i: int| 0 <= i < entries@.len() ==> override_fits((#[trigger] entries@[i]).0@, entries@[i].1),
    ensures
        (r == OutputResolution::Enabled(None)) <==> forall|i: int| 0 <= i < entries@.len() ==> override_score((#[trigger] entries@[i]).0@, entries@[i].1, *descriptor) is None,
        r matches OutputResolution::Enabled(Some(b)) ==> b < entries@.len() && entries@[b as int].1.enabled != Some(false)
            && override_score(entries@[b as int].0@, entries@[b as int].1, *descriptor) is Some
            && (forall|j: int| 0 <= j < entries@.len() && (#[trigger] override_score(entries@[j].0@, entries@[j].1, *descriptor)) is Some ==> override_score(entries@[j].0@, entries@[j].1, *descriptor)->0 <= override_score(entries@[b as int].0@, entries@[b as int].1, *descriptor)->0)
            && (forall|j: int| b < j < entries@.len() && (#[trigger] override_score(entries@[j].0@, entries@[j].1, *descriptor)) is Some ==> override_score(entries@[j].0@, entries@[j].1, *descriptor)->0 < override_score(entries@[b as int].0@, entries@[b as int].1, *descriptor)->0),
        r == OutputResolution::Disabled ==> exists|b: int| 0 <= b < entries@.len() && entries@[b].1.enabled == Some(false)
            && (#[trigger] override_score(entries@[b].0@, entries@[b].1, *descriptor)) is Some
            && (forall|j: int| 0 <= j < entries@.len() && (#[trigger] override_score(entries@[j].0@, entries@[j].1, *descriptor)) is Some ==> override_score(entries@[j].0@, entries@[j].1, *descriptor)->0 <= override_score(entries@[b].0@, entries@[b].1, *descriptor)->0)
            && (forall|j: int| b < j < entries@.len() && (#[trigger] override_score(entries@[j].0@, entries@[j].1, *descriptor)) is Some ==> override_score(entries@[j].0@, entries@[j].1, *descriptor)->0 < override_score(entries@[b].0@, entries@[b].1, *descriptor)->0),
{
    match find_best_output_override(entries, descriptor) {
        Some(b) => {
            if entries[b].1.enabled == Some(false) {
                assert(override_score(entries@[b as int].0@, entries@[b as int].1, *descriptor) is Some);
                OutputResolution::Disabled
            } else {
                OutputResolution::Enabled(Some(b))
            }
        },
        None => OutputResolution::Enabled(None),
    }
}

} // verus!
