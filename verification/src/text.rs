//! Character-level helpers shared by the parsers of this crate: whitespace,
//! trimming, ASCII case folding and conversions between `str` and `Vec<char>`.

use vstd::prelude::*;

verus! {

broadcast use vstd::string::axiom_spec_iter;

/// The Unicode `White_Space` property, which is what `char::is_whitespace` tests.
pub open spec fn is_ws(c: char) -> bool {
    ||| ('\u{9}' <= c && c <= '\u{d}')
    ||| c == ' '
    ||| c == '\u{85}'
    ||| c == '\u{a0}'
    ||| c == '\u{1680}'
    ||| ('\u{2000}' <= c && c <= '\u{200a}')
    ||| c == '\u{2028}'
    ||| c == '\u{2029}'
    ||| c == '\u{202f}'
    ||| c == '\u{205f}'
    ||| c == '\u{3000}'
}

/// Whether `c` is a Unicode whitespace character.
pub fn is_whitespace_char(c: char) -> (r: bool)
    ensures
        r == is_ws(c),
{
    ('\u{9}' <= c && c <= '\u{d}') || c == ' ' || c == '\u{85}' || c == '\u{a0}' || c
        == '\u{1680}' || ('\u{2000}' <= c && c <= '\u{200a}') || c == '\u{2028}' || c
        == '\u{2029}' || c == '\u{202f}' || c == '\u{205f}' || c == '\u{3000}'
}

/// Character classes that the splitters and trimmers of this crate use.
#[derive(Debug, Clone, Copy)]
pub enum CharClass {
    /// Unicode whitespace.
    Whitespace,
    /// One given character.
    Is(char),
    /// The key/value punctuation `=`, `:`, `,` and `;`.
    Punct,
}

/// Whether `c` belongs to class `k`.
pub open spec fn in_class(k: CharClass, c: char) -> bool {
    match k {
        CharClass::Whitespace => is_ws(c),
        CharClass::Is(x) => c == x,
        CharClass::Punct => c == '=' || c == ':' || c == ',' || c == ';',
    }
}

/// Whether `c` belongs to class `k`.
pub fn char_in_class(k: CharClass, c: char) -> (r: bool)
    ensures
        r == in_class(k, c),
{
    match k {
        CharClass::Whitespace => is_whitespace_char(c),
        CharClass::Is(x) => c == x,
        CharClass::Punct => c == '=' || c == ':' || c == ',' || c == ';',
    }
}

/// `s` without its leading characters of class `k`.
pub open spec fn trim_start_by(s: Seq<char>, k: CharClass) -> Seq<char>
    decreases s.len(),
{
    if s.len() > 0 && in_class(k, s[0]) {
        trim_start_by(s.drop_first(), k)
    } else {
        s
    }
}

/// `s` without its trailing characters of class `k`.
pub open spec fn trim_end_by(s: Seq<char>, k: CharClass) -> Seq<char>
    decreases s.len(),
{
    if s.len() > 0 && in_class(k, s.last()) {
        trim_end_by(s.drop_last(), k)
    } else {
        s
    }
}

/// `s` without leading and trailing characters of class `k`.
pub open spec fn trim_by(s: Seq<char>, k: CharClass) -> Seq<char> {
    trim_end_by(trim_start_by(s, k), k)
}

/// `s` without leading and trailing whitespace, as `str::trim` gives it.
pub open spec fn trim(s: Seq<char>) -> Seq<char> {
    trim_by(s, CharClass::Whitespace)
}

proof fn lemma_trim_start_skip(s: Seq<char>, k: CharClass, i: int)
    requires
        0 <= i <= s.len(),
        forall|j: int| 0 <= j < i ==> in_class(k, #[trigger] s[j]),
    ensures
        trim_start_by(s, k) == trim_start_by(s.subrange(i, s.len() as int), k),
    decreases i,
{
    if i > 0 {
        assert(s.drop_first().subrange(i - 1, s.drop_first().len() as int) =~= s.subrange(
            i,
            s.len() as int,
        ));
        lemma_trim_start_skip(s.drop_first(), k, i - 1);
    } else {
        assert(s.subrange(0, s.len() as int) =~= s);
    }
}

proof fn lemma_trim_end_skip(s: Seq<char>, k: CharClass, j: int)
    requires
        0 <= j <= s.len(),
        forall|i: int| j <= i < s.len() ==> in_class(k, #[trigger] s[i]),
    ensures
        trim_end_by(s, k) == trim_end_by(s.subrange(0, j), k),
    decreases s.len() - j,
{
    if j < s.len() {
        assert(s.drop_last().subrange(0, j) =~= s.subrange(0, j));
        lemma_trim_end_skip(s.drop_last(), k, j);
    } else {
        assert(s.subrange(0, j) =~= s);
    }
}

/// ASCII lower-casing of one character; every other character is kept.
pub open spec fn ascii_lower(c: char) -> char {
    if 'A' <= c && c <= 'Z' {
        ((c as u32) + 32) as char
    } else {
        c
    }
}

/// ASCII lower-casing of one byte; every other byte is kept.
pub open spec fn byte_lower(b: u8) -> u8 {
    if 65 <= b && b <= 90 {
        (b + 32) as u8
    } else {
        b
    }
}

/// ASCII lower-casing of a whole sequence, as `str::to_ascii_lowercase` does it.
pub open spec fn ascii_lower_seq(s: Seq<char>) -> Seq<char> {
    s.map_values(|c: char| ascii_lower(c))
}

/// Lower-cases the ASCII letters of `c`, leaving all other characters alone.
pub fn to_ascii_lower_char(c: char) -> (r: char)
    ensures
        r == ascii_lower(c),
{
    if 'A' <= c && c <= 'Z' {
        ((c as u8) + 32) as char
    } else {
        c
    }
}

/// Lower-cases the ASCII letters of `b`.
pub fn to_ascii_lower_byte(b: u8) -> (r: u8)
    ensures
        r == byte_lower(b),
{
    if 65 <= b && b <= 90 {
        b + 32
    } else {
        b
    }
}

/// The characters of `s`, in order.
pub fn chars_of(s: &str) -> (v: Vec<char>)
    ensures
        v@ == s@,
{
    let mut v: Vec<char> = Vec::new();
    for c in it: s.chars()
        invariant
            v@ == it.seq().take(it.index() as int),
            it.seq() == s@,
    {
        v.push(c);
    }
    v
}

/// Builds a `String` holding exactly the characters of `v` (one `collect` of std).
#[verifier::external_body]
pub(crate) fn string_from_chars(v: &[char]) -> (s: String)
    ensures
        s@ == v@,
{
    v.iter().collect()
}

/// The characters `v[i..j]` as a new vector.
pub fn sub_chars(v: &[char], i: usize, j: usize) -> (r: Vec<char>)
    requires
        i <= j <= v@.len(),
    ensures
        r@ == v@.subrange(i as int, j as int),
{
    let mut r: Vec<char> = Vec::new();
    let mut k = i;
    while k < j
        invariant
            i <= k <= j <= v@.len(),
            r@ == v@.subrange(i as int, k as int),
        decreases j - k,
    {
        r.push(v[k]);
        k = k + 1;
        assert(r@ =~= v@.subrange(i as int, k as int));
    }
    r
}

/// The characters of `v` without leading and trailing characters of class `k`.
pub fn trim_chars_by(v: &[char], k: CharClass) -> (r: Vec<char>)
    ensures
        r@ == trim_by(v@, k),
{
    let n = v.len();
    let mut i: usize = 0;
    while i < n && char_in_class(k, v[i])
        invariant
            0 <= i <= n == v@.len(),
            forall|j: int| 0 <= j < i ==> in_class(k, #[trigger] v@[j]),
        decreases n - i,
    {
        i = i + 1;
    }
    proof {
        lemma_trim_start_skip(v@, k, i as int);
    }
    let ghost rest = v@.subrange(i as int, n as int);
    assert(trim_start_by(rest, k) == rest);
    let mut j: usize = n;
    while j > i && char_in_class(k, v[j - 1])
        invariant
            i <= j <= n == v@.len(),
            forall|q: int| j <= q < n ==> in_class(k, #[trigger] v@[q]),
        decreases j,
    {
        j = j - 1;
    }
    proof {
        let rel_j = j - i;
        assert forall|q: int| rel_j <= q < rest.len() implies in_class(k, #[trigger] rest[q]) by {
            assert(rest[q] == v@[q + i]);
        }
        lemma_trim_end_skip(rest, k, rel_j as int);
        assert(rest.subrange(0, rel_j as int) =~= v@.subrange(i as int, j as int));
        let kept = v@.subrange(i as int, j as int);
        if kept.len() > 0 {
            assert(kept.last() == v@[j - 1]);
        }
    }
    sub_chars(v, i, j)
}

/// Trimmed characters of `v`: what `str::trim` keeps.
pub fn trim_chars(v: &[char]) -> (r: Vec<char>)
    ensures
        r@ == trim(v@),
{
    trim_chars_by(v, CharClass::Whitespace)
}

/// `s.trim()` as an owned string.
pub fn trim_str(s: &str) -> (r: String)
    ensures
        r@ == trim(s@),
{
    let v = chars_of(s);
    let t = trim_chars(v.as_slice());
    string_from_chars(t.as_slice())
}

/// The views of a sequence of strings.
pub open spec fn views(v: Seq<String>) -> Seq<Seq<char>> {
    v.map_values(|x: String| x@)
}

/// The state of a left-to-right split of `s` at characters of class `k`:
/// the finished pieces and the piece being collected. Empty pieces are kept
/// when `keep_empty` holds (as `str::split` does) and dropped otherwise (as
/// `str::split_whitespace` does).
pub open spec fn split_state(s: Seq<char>, k: CharClass, keep_empty: bool) -> (Seq<Seq<char>>, Seq<char>)
    decreases s.len(),
{
    if s.len() == 0 {
        (Seq::empty(), Seq::empty())
    } else {
        let (d, c) = split_state(s.drop_last(), k, keep_empty);
        if in_class(k, s.last()) {
            (
                if keep_empty || c.len() > 0 {
                    d.push(c)
                } else {
                    d
                },
                Seq::empty(),
            )
        } else {
            (d, c.push(s.last()))
        }
    }
}

/// The pieces of `s` between characters of class `k`.
pub open spec fn split_pieces(s: Seq<char>, k: CharClass, keep_empty: bool) -> Seq<Seq<char>> {
    let (d, c) = split_state(s, k, keep_empty);
    if keep_empty || c.len() > 0 {
        d.push(c)
    } else {
        d
    }
}

/// The pieces of `s` between characters of class `k` (see `split_pieces`).
pub fn split_by(s: &str, k: CharClass, keep_empty: bool) -> (r: Vec<String>)
    ensures
        views(r@) == split_pieces(s@, k, keep_empty),
{
    let v = chars_of(s);
    let n = v.len();
    let mut done: Vec<String> = Vec::new();
    let mut cur: Vec<char> = Vec::new();
    let mut i: usize = 0;
    while i < n
        invariant
            0 <= i <= n == v@.len(),
            v@ == s@,
            (views(done@), cur@) == split_state(v@.take(i as int), k, keep_empty),
        decreases n - i,
    {
        let c = v[i];
        proof {
            assert(v@.take(i + 1).drop_last() =~= v@.take(i as int));
            assert(v@.take(i + 1).last() == c);
        }
        if char_in_class(k, c) {
            if keep_empty || cur.len() > 0 {
                let piece = string_from_chars(cur.as_slice());
                done.push(piece);
                assert(views(done@) =~= split_state(v@.take(i as int), k, keep_empty).0.push(
                    piece@,
                ));
            }
            cur = Vec::new();
        } else {
            cur.push(c);
        }
        i = i + 1;
    }
    assert(v@.take(n as int) =~= v@);
    if keep_empty || cur.len() > 0 {
        let piece = string_from_chars(cur.as_slice());
        done.push(piece);
        assert(views(done@) =~= split_state(v@, k, keep_empty).0.push(piece@));
    }
    done
}

/// `s` without one trailing carriage return.
pub open spec fn strip_cr(p: Seq<char>) -> Seq<char> {
    if p.len() > 0 && p.last() == '\r' {
        p.drop_last()
    } else {
        p
    }
}

/// The lines of `s` as `str::lines` yields them: split at `\n`, a `\r` before
/// the `\n` removed, and no final empty line after a trailing `\n`.
pub open spec fn lines_spec(s: Seq<char>) -> Seq<Seq<char>> {
    let parts = split_pieces(s, CharClass::Is('\n'), true);
    let body = parts.drop_last().map_values(|p: Seq<char>| strip_cr(p));
    if parts.last().len() > 0 {
        body.push(parts.last())
    } else {
        body
    }
}

/// The lines of `s` (see `lines_spec`).
pub fn lines_of(s: &str) -> (r: Vec<String>)
    ensures
        views(r@) == lines_spec(s@),
{
    let parts = split_by(s, CharClass::Is('\n'), true);
    let ghost pv = views(parts@);
    assert(pv.len() > 0);
    let n = parts.len();
    let mut out: Vec<String> = Vec::new();
    let mut i: usize = 0;
    while i + 1 < n
        invariant
            n == parts@.len(),
            n > 0,
            pv == views(parts@),
            0 <= i < n,
            views(out@) =~= pv.take(i as int).map_values(|p: Seq<char>| strip_cr(p)),
        decreases n - i,
    {
        let v = chars_of(parts[i].as_str());
        assert(pv[i as int] == v@);
        let m = v.len();
        let line = if m > 0 && v[m - 1] == '\r' {
            string_from_chars(sub_chars(v.as_slice(), 0, m - 1).as_slice())
        } else {
            string_from_chars(v.as_slice())
        };
        proof {
            if m > 0 && v@[m - 1] == '\r' {
                assert(v@.subrange(0, m - 1) =~= v@.drop_last());
            }
        }
        assert(line@ == strip_cr(pv[i as int]));
        let ghost old_out = views(out@);
        out.push(line);
        assert(views(out@) =~= old_out.push(line@));
        i = i + 1;
        assert(pv.take(i as int) =~= pv.take(i - 1).push(pv[i - 1]));
        assert(views(out@) =~= pv.take(i as int).map_values(|p: Seq<char>| strip_cr(p)));
    }
    assert(pv.take((n - 1) as int) =~= pv.drop_last());
    let last = &parts[n - 1];
    if !last.as_str().is_empty() {
        let copy = string_from_chars(chars_of(last.as_str()).as_slice());
        out.push(copy);
        assert(views(out@) =~= lines_spec(s@));
    } else {
        assert(views(out@) =~= lines_spec(s@));
    }
    out
}

/// `pat` occurs in `s` at position `i`.
pub open spec fn occurs_at(s: Seq<char>, pat: Seq<char>, i: int) -> bool {
    0 <= i && i + pat.len() <= s.len() && s.subrange(i, i + pat.len()) == pat
}

/// `pat` occurs somewhere in `s` (`str::contains`).
pub open spec fn contains_seq(s: Seq<char>, pat: Seq<char>) -> bool {
    exists|i: int| #[trigger] occurs_at(s, pat, i)
}

/// `s` begins with `pat` (`str::starts_with`).
pub open spec fn starts_with_seq(s: Seq<char>, pat: Seq<char>) -> bool {
    occurs_at(s, pat, 0)
}

/// `s` ends with `pat` (`str::ends_with`).
pub open spec fn ends_with_seq(s: Seq<char>, pat: Seq<char>) -> bool {
    occurs_at(s, pat, s.len() - pat.len())
}

/// Whether `pat` occurs in `s` at position `i`.
pub fn occurs_at_exec(s: &[char], pat: &[char], i: usize) -> (r: bool)
    ensures
        r == occurs_at(s@, pat@, i as int),
{
    if pat.len() > s.len() || i > s.len() - pat.len() {
        return false;
    }
    let mut j: usize = 0;
    while j < pat.len()
        invariant
            i + pat@.len() <= s@.len(),
            0 <= j <= pat@.len(),
            forall|q: int| 0 <= q < j ==> s@[i + q] == pat@[q],
        decreases pat@.len() - j,
    {
        assert(i + j < s.len());
        if s[i + j] != pat[j] {
            assert(s@.subrange(i as int, i + pat@.len())[j as int] != pat@[j as int]);
            return false;
        }
        j = j + 1;
    }
    assert(s@.subrange(i as int, i + pat@.len()) =~= pat@);
    true
}

/// Whether `pat` occurs in `s`.
pub fn contains_chars(s: &[char], pat: &[char]) -> (r: bool)
    ensures
        r == contains_seq(s@, pat@),
{
    if pat.len() > s.len() {
        return false;
    }
    let last = s.len() - pat.len();
    let mut i: usize = 0;
    loop
        invariant
            last == s@.len() - pat@.len(),
            0 <= i <= last,
            forall|q: int| 0 <= q < i ==> !#[trigger] occurs_at(s@, pat@, q),
        ensures
            forall|q: int| 0 <= q <= last ==> !#[trigger] occurs_at(s@, pat@, q),
        decreases last - i,
    {
        if occurs_at_exec(s, pat, i) {
            return true;
        }
        if i == last {
            break;
        }
        i = i + 1;
    }
    false
}

/// `s.contains(pat)`.
pub fn str_contains(s: &str, pat: &str) -> (r: bool)
    ensures
        r == contains_seq(s@, pat@),
{
    contains_chars(chars_of(s).as_slice(), chars_of(pat).as_slice())
}

/// `s.starts_with(pat)`.
pub fn str_starts_with(s: &str, pat: &str) -> (r: bool)
    ensures
        r == starts_with_seq(s@, pat@),
{
    occurs_at_exec(chars_of(s).as_slice(), chars_of(pat).as_slice(), 0)
}

/// `s.ends_with(pat)`.
pub fn str_ends_with(s: &str, pat: &str) -> (r: bool)
    ensures
        r == ends_with_seq(s@, pat@),
{
    let sv = chars_of(s);
    let pv = chars_of(pat);
    if pv.len() > sv.len() {
        return false;
    }
    occurs_at_exec(sv.as_slice(), pv.as_slice(), sv.len() - pv.len())
}

/// `a == b` on strings.
pub fn str_eq(a: &str, b: &str) -> (r: bool)
    ensures
        r == (a@ == b@),
{
    let av = chars_of(a);
    let bv = chars_of(b);
    if av.len() != bv.len() {
        return false;
    }
    let r = occurs_at_exec(av.as_slice(), bv.as_slice(), 0);
    assert(av@.subrange(0, bv@.len() as int) =~= av@);
    r
}

/// `s` with every leading copy of `pat` removed (`str::trim_start_matches`).
pub open spec fn strip_all_prefix(s: Seq<char>, pat: Seq<char>) -> Seq<char>
    decreases s.len(),
{
    if pat.len() > 0 && starts_with_seq(s, pat) {
        strip_all_prefix(s.skip(pat.len() as int), pat)
    } else {
        s
    }
}

/// `s.trim_start_matches(pat)`.
pub fn trim_start_matches_str(s: &str, pat: &str) -> (r: String)
    ensures
        r@ == strip_all_prefix(s@, pat@),
{
    let sv = chars_of(s);
    let pv = chars_of(pat);
    let n = sv.len();
    let m = pv.len();
    if m == 0 {
        return string_from_chars(sv.as_slice());
    }
    let mut i: usize = 0;
    assert(sv@.skip(0) =~= sv@);
    while m <= n - i && occurs_at_exec(sv.as_slice(), pv.as_slice(), i)
        invariant
            n == sv@.len(),
            m == pv@.len(),
            m > 0,
            i <= n,
            strip_all_prefix(sv@, pv@) == strip_all_prefix(sv@.skip(i as int), pv@),
        decreases n - i,
    {
        proof {
            let rest = sv@.skip(i as int);
            assert(rest.subrange(0, m as int) =~= sv@.subrange(i as int, i + m));
            assert(rest.skip(m as int) =~= sv@.skip(i + m));
        }
        i = i + m;
    }
    proof {
        let rest = sv@.skip(i as int);
        if m <= n - i {
            assert(rest.subrange(0, m as int) =~= sv@.subrange(i as int, i + m));
        }
        assert(sv@.subrange(i as int, n as int) =~= rest);
    }
    string_from_chars(sub_chars(sv.as_slice(), i, n).as_slice())
}

/// `s.strip_prefix(pat)`.
pub fn strip_prefix_str(s: &str, pat: &str) -> (r: Option<String>)
    ensures
        r matches Some(x) ==> starts_with_seq(s@, pat@) && x@ == s@.skip(pat@.len() as int),
        r is None ==> !starts_with_seq(s@, pat@),
{
    let sv = chars_of(s);
    let pv = chars_of(pat);
    if occurs_at_exec(sv.as_slice(), pv.as_slice(), 0) {
        let rest = sub_chars(sv.as_slice(), pv.len(), sv.len());
        assert(rest@ =~= sv@.skip(pv@.len() as int));
        Some(string_from_chars(rest.as_slice()))
    } else {
        None
    }
}

/// `s` up to (not including) its first character `c`, or all of `s`.
pub open spec fn before_first(s: Seq<char>, c: char) -> Seq<char>
    decreases s.len(),
{
    if s.len() == 0 {
        s
    } else if s[0] == c {
        Seq::empty()
    } else {
        seq![s[0]] + before_first(s.drop_first(), c)
    }
}

/// The text of `line` before its first `#` (what `line.split('#').next()` gives).
pub fn strip_comment(line: &str) -> (r: String)
    ensures
        r@ == before_first(line@, '#'),
{
    let v = chars_of(line);
    let n = v.len();
    let mut i: usize = 0;
    assert(v@.skip(0) =~= v@);
    assert(v@.take(0) + v@ =~= v@);
    while i < n && v[i] != '#'
        invariant
            0 <= i <= n == v@.len(),
            forall|q: int| 0 <= q < i ==> v@[q] != '#',
            before_first(v@, '#') == v@.take(i as int) + before_first(v@.skip(i as int), '#'),
        decreases n - i,
    {
        proof {
            let rest = v@.skip(i as int);
            assert(rest.drop_first() =~= v@.skip(i + 1));
            assert(v@.take(i + 1) =~= v@.take(i as int) + seq![rest[0]]);
        }
        i = i + 1;
    }
    proof {
        if i < n {
            assert(v@.skip(i as int)[0] == '#');
        } else {
            assert(v@.skip(i as int) =~= Seq::<char>::empty());
        }
        assert(v@.take(i as int) + Seq::<char>::empty() =~= v@.take(i as int));
    }
    string_from_chars(sub_chars(v.as_slice(), 0, i).as_slice())
}

/// The pieces of `v` joined with single spaces (`[String]::join(" ")`).
pub open spec fn join_space(v: Seq<Seq<char>>) -> Seq<char>
    decreases v.len(),
{
    if v.len() == 0 {
        Seq::empty()
    } else if v.len() == 1 {
        v[0]
    } else {
        join_space(v.drop_last()) + seq![' '] + v.last()
    }
}

/// `args.join(" ")`.
pub fn join_with_space(args: &[String]) -> (r: String)
    ensures
        r@ == join_space(views(args@)),
{
    let mut acc: Vec<char> = Vec::new();
    let mut i: usize = 0;
    while i < args.len()
        invariant
            0 <= i <= args@.len(),
            acc@ == join_space(views(args@.take(i as int))),
        decreases args@.len() - i,
    {
        let part = chars_of(args[i].as_str());
        proof {
            assert(views(args@.take(i + 1)).drop_last() =~= views(args@.take(i as int)));
            assert(views(args@.take(i + 1)).last() == args@[i as int]@);
        }
        if i > 0 {
            acc.push(' ');
        }
        let mut j: usize = 0;
        let ghost before = acc@;
        while j < part.len()
            invariant
                0 <= j <= part@.len(),
                acc@ == before + part@.take(j as int),
            decreases part@.len() - j,
        {
            acc.push(part[j]);
            j = j + 1;
            assert(acc@ =~= before + part@.take(j as int));
        }
        assert(part@.take(part@.len() as int) =~= part@);
        i = i + 1;
        proof {
            if i == 1 {
                assert(acc@ =~= join_space(views(args@.take(i as int))));
            } else {
                assert(acc@ =~= join_space(views(args@.take(i as int))));
            }
        }
    }
    assert(args@.take(args@.len() as int) =~= args@);
    string_from_chars(acc.as_slice())
}

/// What `str::to_lowercase` gives for `s`: its Unicode lower-case form.
pub uninterp spec fn spec_lowercase(s: Seq<char>) -> Seq<char>;

/// `s.to_lowercase()` (std); its result is named by `spec_lowercase`.
#[verifier::external_body]
pub(crate) fn to_lowercase(s: &str) -> (r: String)
    ensures
        r@ == spec_lowercase(s@),
{
    s.to_lowercase()
}

/// `s` with every trailing copy of `pat` removed (`str::trim_end_matches`).
pub open spec fn strip_all_suffix(s: Seq<char>, pat: Seq<char>) -> Seq<char>
    decreases s.len(),
{
    if pat.len() > 0 && ends_with_seq(s, pat) && pat.len() <= s.len() {
        strip_all_suffix(s.take(s.len() - pat.len()), pat)
    } else {
        s
    }
}

/// `s.trim_end_matches(pat)`.
pub fn trim_end_matches_str(s: &str, pat: &str) -> (r: String)
    ensures
        r@ == strip_all_suffix(s@, pat@),
{
    let sv = chars_of(s);
    let pv = chars_of(pat);
    let m = pv.len();
    let mut j: usize = sv.len();
    if m == 0 {
        return string_from_chars(sv.as_slice());
    }
    assert(sv@.take(j as int) =~= sv@);
    while m <= j && occurs_at_exec(sv.as_slice(), pv.as_slice(), j - m)
        invariant
            m == pv@.len(),
            m > 0,
            j <= sv@.len(),
            strip_all_suffix(sv@, pv@) == strip_all_suffix(sv@.take(j as int), pv@),
        decreases j,
    {
        proof {
            let t = sv@.take(j as int);
            assert(t.subrange(j - m, j as int) =~= sv@.subrange(j - m, j as int));
            assert(t.take(j - m) =~= sv@.take(j - m));
        }
        j = j - m;
    }
    proof {
        let t = sv@.take(j as int);
        if m <= j {
            assert(t.subrange(j - m, j as int) =~= sv@.subrange(j - m, j as int));
        }
        assert(sv@.subrange(0, j as int) =~= t);
    }
    string_from_chars(sub_chars(sv.as_slice(), 0, j).as_slice())
}

/// The literal `"--source="` has nine characters.
pub(crate) proof fn lemma_strlit_source_eq_len()
    ensures
        "--source="@.len() == 9,
{
    reveal_strlit("--source=");
}

/// The decimal digits of `n` (`n.to_string()`).
pub open spec fn decimal(n: nat) -> Seq<char>
    decreases n,
{
    if n < 10 {
        seq![((n + 48) as u32) as char]
    } else {
        decimal(n / 10).push((((n % 10) + 48) as u32) as char)
    }
}

/// Appends the decimal digits of `n`.
pub fn push_decimal(n: u32, out: &mut Vec<char>)
    ensures
        final(out)@ == old(out)@ + decimal(n as nat),
    decreases n,
{
    if n >= 10 {
        push_decimal(n / 10, out);
    }
    let d: u8 = (n % 10) as u8;
    let c = (d + 48) as char;
    assert(c == (((n % 10) + 48) as u32) as char);
    out.push(c);
}

/// An owned copy of `s`.
pub fn owned(s: &str) -> (r: String)
    ensures
        r@ == s@,
{
    string_from_chars(chars_of(s).as_slice())
}

/// The view of an optional string slice.
pub open spec fn opt_view(o: Option<&str>) -> Option<Seq<char>> {
    match o {
        Some(s) => Some(s@),
        None => None,
    }
}

/// The view of an optional string.
pub open spec fn opt_string_view(o: Option<String>) -> Option<Seq<char>> {
    match o {
        Some(s) => Some(s@),
        None => None,
    }
}

} // verus!
