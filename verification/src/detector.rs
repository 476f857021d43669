//! Wallpaper discovery: which media file the running wallpaper daemon shows,
//! read from process arguments, open files, IPC replies and config text, and
//! which compositor runs. The reading of `/proc`, of files and of commands is
//! done by the caller; this module decides from what was read.

use vstd::prelude::*;
use crate::paths::{
    candidate_spec, home_view, media_path_candidate, normalize_path, normalize_path_spec, path_exists,
    path_extension, spec_path_extension,
};
use crate::text::{
    CharClass, before_first, contains_seq, lines_of, lines_spec, split_by, split_pieces,
    spec_lowercase, starts_with_seq, str_contains, str_eq, str_starts_with, strip_comment,
    to_lowercase, trim, trim_start_by, trim_str, views, chars_of,
    string_from_chars, owned,
};

verus! {

/// Whether `e` is one of the media file extensions the detector knows.
pub open spec fn is_media_ext_spec(e: Seq<char>) -> bool {
    ||| e == "png"@
    ||| e == "jpg"@
    ||| e == "jpeg"@
    ||| e == "bmp"@
    ||| e == "webp"@
    ||| e == "gif"@
    ||| e == "mp4"@
    ||| e == "webm"@
    ||| e == "mkv"@
    ||| e == "mov"@
    ||| e == "avi"@
    ||| e == "avif"@
    ||| e == "heif"@
    ||| e == "heic"@
}

/// Whether `e` (already lower-cased) is a known media file extension.
pub fn is_media_extension(e: &str) -> (r: bool)
    ensures
        r == is_media_ext_spec(e@),
{
    str_eq(e, "png") || str_eq(e, "jpg") || str_eq(e, "jpeg") || str_eq(e, "bmp") || str_eq(
        e,
        "webp",
    ) || str_eq(e, "gif") || str_eq(e, "mp4") || str_eq(e, "webm") || str_eq(e, "mkv")
        || str_eq(e, "mov") || str_eq(e, "avi") || str_eq(e, "avif") || str_eq(e, "heif")
        || str_eq(e, "heic")
}

/// A path names a media file: its extension, lower-cased, is a known one.
pub open spec fn is_media_path(p: Seq<char>) -> bool {
    match spec_path_extension(p) {
        Some(e) => is_media_ext_spec(spec_lowercase(e)),
        None => false,
    }
}

/// Whether `path` has a media file extension (any letter case).
pub fn is_media_file_path(path: &str) -> (r: bool)
    ensures
        r == is_media_path(path@),
{
    match path_extension(path) {
        Some(e) => {
            let lower = to_lowercase(e.as_str());
            is_media_extension(lower.as_str())
        },
        None => false,
    }
}

/// Raw text names a media path (before any look at the disk).
pub open spec fn admissible(raw: Seq<char>, home: Option<Seq<char>>) -> bool {
    candidate_spec(raw, home) matches Some(c) && is_media_path(c)
}

/// The index that `pick_first_existing` chooses for the answers `ex`: the
/// least one whose answer is `true`.
pub open spec fn is_first_true(ex: Seq<bool>, i: int) -> bool {
    0 <= i < ex.len() && ex[i] && forall|j: int| 0 <= j < i ==> !ex[j]
}

/// Given the disk's answers `exists[i]` for the candidates `cands[i]`, the
/// index of the first candidate that exists; `None` when none does.
pub fn pick_first_existing(cands: &Vec<String>, exists: &Vec<bool>) -> (r: Option<usize>)
    requires
        cands@.len() == exists@.len(),
    ensures
        r matches Some(i) ==> is_first_true(exists@, i as int),
        r is None ==> forall|j: int| 0 <= j < exists@.len() ==> !exists@[j],
{
    let mut i: usize = 0;
    while i < exists.len()
        invariant
            0 <= i <= exists@.len(),
            forall|j: int| 0 <= j < i ==> !exists@[j],
        decreases exists@.len() - i,
    {
        if exists[i] {
            return Some(i);
        }
        i = i + 1;
    }
    None
}

/// Asks the disk whether each of `cands` exists, in order, until one does;
/// the candidates after that one are not asked and are answered `false`.
fn existence_answers(cands: &Vec<String>) -> (r: Vec<bool>)
    ensures
        r@.len() == cands@.len(),
        forall|i: int, j: int| 0 <= i < j < r@.len() && r@[i] ==> !r@[j],
{
    let mut out: Vec<bool> = Vec::new();
    let mut found = false;
    let mut i: usize = 0;
    while i < cands.len()
        invariant
            0 <= i <= cands@.len(),
            out@.len() == i,
            !found ==> forall|k: int| 0 <= k < i ==> !out@[k],
            forall|a: int, b: int| 0 <= a < b < i && out@[a] ==> !out@[b],
        decreases cands@.len() - i,
    {
        let e = if found {
            false
        } else {
            path_exists(cands[i].as_str())
        };
        out.push(e);
        if e {
            found = true;
        }
        i = i + 1;
    }
    out
}

/// Asks the disk whether each of `cands` exists.
fn all_existence_answers(cands: &Vec<String>) -> (r: Vec<bool>)
    ensures
        r@.len() == cands@.len(),
{
    let mut out: Vec<bool> = Vec::new();
    let mut i: usize = 0;
    while i < cands.len()
        invariant
            0 <= i <= cands@.len(),
            out@.len() == i,
        decreases cands@.len() - i,
    {
        out.push(path_exists(cands[i].as_str()));
        i = i + 1;
    }
    out
}

/// The first of `cands`, in order, that exists on disk: the disk is asked in
/// order and `pick_first_existing` chooses from its answers.
pub fn first_existing_path(cands: &Vec<String>) -> (r: Option<String>)
    ensures
        r matches Some(p) ==> views(cands@).contains(p@),
        cands@.len() == 0 ==> r is None,
{
    let ex = existence_answers(cands);
    match pick_first_existing(cands, &ex) {
        Some(i) => {
            let p = owned(cands[i].as_str());
            assert(views(cands@)[i as int] == p@);
            Some(p)
        },
        None => None,
    }
}

/// The entries of `cands` whose answer in `ex` is `true`, in order.
pub open spec fn keep_true(cands: Seq<Seq<char>>, ex: Seq<bool>) -> Seq<Seq<char>>
    decreases cands.len(),
{
    if cands.len() == 0 {
        Seq::empty()
    } else {
        let rest = keep_true(cands.drop_last(), ex.take(cands.len() - 1));
        if ex[cands.len() - 1] {
            rest.push(cands.last())
        } else {
            rest
        }
    }
}

/// The candidates whose answer is `true`, in order.
pub fn keep_existing(cands: &Vec<String>, exists: &Vec<bool>) -> (r: Vec<String>)
    requires
        cands@.len() == exists@.len(),
    ensures
        views(r@) == keep_true(views(cands@), exists@),
{
    let ghost cv = views(cands@);
    let mut out: Vec<String> = Vec::new();
    let mut i: usize = 0;
    while i < cands.len()
        invariant
            cv == views(cands@),
            cands@.len() == exists@.len(),
            0 <= i <= cands@.len(),
            views(out@) == keep_true(cv.take(i as int), exists@.take(i as int)),
        decreases cands@.len() - i,
    {
        let ghost before = views(out@);
        assert(cv.take(i + 1).drop_last() =~= cv.take(i as int));
        assert(exists@.take(i + 1).take(i as int) =~= exists@.take(i as int));
        assert(cv.take(i + 1).last() == cands@[i as int]@);
        if exists[i] {
            let p = owned(cands[i].as_str());
            out.push(p);
            assert(views(out@) =~= before.push(cands@[i as int]@));
        }
        i = i + 1;
    }
    assert(cv.take(cands@.len() as int) =~= cv);
    assert(exists@.take(cands@.len() as int) =~= exists@);
    out
}

/// The media paths that `raws` name, in order (see `candidate_spec`).
pub open spec fn media_cands(raws: Seq<Seq<char>>, home: Option<Seq<char>>) -> Seq<Seq<char>>
    decreases raws.len(),
{
    if raws.len() == 0 {
        Seq::empty()
    } else {
        let prev = media_cands(raws.drop_last(), home);
        if admissible(raws.last(), home) {
            prev.push(candidate_spec(raws.last(), home)->0)
        } else {
            prev
        }
    }
}

/// The media paths that `raws` name, in order (see `media_cands`).
pub fn media_candidates(raws: &[String], home: Option<&str>) -> (r: Vec<String>)
    ensures
        views(r@) == media_cands(views(raws@), home_view(home)),
{
    let ghost rv = views(raws@);
    let mut out: Vec<String> = Vec::new();
    let mut i: usize = 0;
    while i < raws.len()
        invariant
            rv == views(raws@),
            0 <= i <= raws@.len(),
            views(out@) == media_cands(rv.take(i as int), home_view(home)),
        decreases raws@.len() - i,
    {
        let ghost before = views(out@);
        assert(rv.take(i + 1).drop_last() =~= rv.take(i as int));
        assert(rv.take(i + 1).last() == raws@[i as int]@);
        match media_path_candidate(raws[i].as_str(), home) {
            Some(p) => {
                if is_media_file_path(p.as_str()) {
                    let ghost pv = p@;
                    out.push(p);
                    assert(views(out@) =~= before.push(pv));
                }
            },
            None => {},
        }
        i = i + 1;
    }
    assert(rv.take(raws@.len() as int) =~= rv);
    out
}

/// The media paths among `files`, in order.
pub open spec fn media_file_cands(files: Seq<Seq<char>>) -> Seq<Seq<char>>
    decreases files.len(),
{
    if files.len() == 0 {
        Seq::empty()
    } else {
        let prev = media_file_cands(files.drop_last());
        if is_media_path(files.last()) {
            prev.push(files.last())
        } else {
            prev
        }
    }
}

/// The media paths among `files`, in order (see `media_file_cands`).
pub fn media_file_candidates(files: &[String]) -> (r: Vec<String>)
    ensures
        views(r@) == media_file_cands(views(files@)),
{
    let ghost fv = views(files@);
    let mut out: Vec<String> = Vec::new();
    let mut i: usize = 0;
    while i < files.len()
        invariant
            fv == views(files@),
            0 <= i <= files@.len(),
            views(out@) == media_file_cands(fv.take(i as int)),
        decreases files@.len() - i,
    {
        let ghost before = views(out@);
        assert(fv.take(i + 1).drop_last() =~= fv.take(i as int));
        assert(fv.take(i + 1).last() == files@[i as int]@);
        if is_media_file_path(files[i].as_str()) {
            let p = owned(files[i].as_str());
            out.push(p);
            assert(views(out@) =~= before.push(files@[i as int]@));
        }
        i = i + 1;
    }
    assert(fv.take(files@.len() as int) =~= fv);
    out
}

/// The media file that raw text names, if it exists on disk: the candidate
/// path of `media_path_candidate`, kept when it is a media path and the disk
/// has it (asked through `first_existing_path`).
pub fn normalize_maybe_media_path(raw: &str, home: Option<&str>) -> (r: Option<String>)
    ensures
        r matches Some(p) ==> candidate_spec(raw@, home_view(home)) == Some(p@) && is_media_path(p@),
        !admissible(raw@, home_view(home)) ==> r is None,
{
    match media_path_candidate(raw, home) {
        Some(p) => {
            if is_media_file_path(p.as_str()) {
                let ghost pv = p@;
                let mut v: Vec<String> = Vec::new();
                v.push(p);
                assert(views(v@) =~= seq![pv]);
                first_existing_path(&v)
            } else {
                None
            }
        },
        None => None,
    }
}

/// The substrings of `text` that may be paths, in order: its whitespace-separated
/// words, then its pieces between `=`, `:`, `,` and `;`, then its pieces between
/// double quotes.
pub open spec fn tokens_spec(text: Seq<char>) -> Seq<Seq<char>> {
    split_pieces(text, CharClass::Whitespace, false) + split_pieces(text, CharClass::Punct, true)
        + split_pieces(text, CharClass::Is('"'), true)
}

/// The substrings of `text` that may be paths (see `tokens_spec`).
pub fn tokenize_path_candidates(text: &str) -> (r: Vec<String>)
    ensures
        views(r@) == tokens_spec(text@),
{
    let mut out = split_by(text, CharClass::Whitespace, false);
    let mut b = split_by(text, CharClass::Punct, true);
    let mut c = split_by(text, CharClass::Is('"'), true);
    let ghost va = views(out@);
    let ghost vb = views(b@);
    let ghost vc = views(c@);
    out.append(&mut b);
    assert(views(out@) =~= va + vb);
    out.append(&mut c);
    assert(views(out@) =~= va + vb + vc);
    out
}

/// The first of `raws` that names an existing media file, as that file's path:
/// the first of `media_cands(raws)` that the disk has.
pub fn first_existing_media(raws: &[String], home: Option<&str>) -> (r: Option<String>)
    ensures
        r matches Some(p) ==> media_cands(views(raws@), home_view(home)).contains(p@),
        media_cands(views(raws@), home_view(home)).len() == 0 ==> r is None,
{
    let cands = media_candidates(raws, home);
    first_existing_path(&cands)
}

/// The media paths that the tokens of `text` name, in order.
pub open spec fn text_cands(text: Seq<char>, home: Option<Seq<char>>) -> Seq<Seq<char>> {
    media_cands(tokens_spec(text), home)
}

/// The media paths that the tokens of `text` name, in order (see `text_cands`).
pub fn text_candidates(text: &str, home: Option<&str>) -> (r: Vec<String>)
    ensures
        views(r@) == text_cands(text@, home_view(home)),
{
    let tokens = tokenize_path_candidates(text);
    media_candidates(tokens.as_slice(), home)
}

/// The first existing media file named by a token of `text` (in the order of
/// `tokenize_path_candidates`).
pub fn find_existing_path_in_text(text: &str, home: Option<&str>) -> (r: Option<String>)
    ensures
        r matches Some(p) ==> text_cands(text@, home_view(home)).contains(p@),
        text_cands(text@, home_view(home)).len() == 0 ==> r is None,
{
    let cands = text_candidates(text, home);
    first_existing_path(&cands)
}

/// Which lines of a config or QML text may name the wallpaper.
#[derive(Debug, Clone, Copy)]
pub enum LineFilter {
    /// Every non-empty line (after removing a `#` comment and trimming).
    NonEmpty,
    /// QML lines that set a wallpaper source property.
    QmlSource,
    /// hyprpaper lines that start with `wallpaper` or mention `preload` or `path`.
    Hyprpaper,
    /// wpaperd lines that mention `path`, `wallpaper` or `file`.
    Wpaperd,
    /// Plasma applet lines that start with `Image=` (checked on the raw line).
    PlasmaImage,
}

/// The text of a line that a filter inspects: the raw line for Plasma, and the
/// line without its `#` comment, trimmed, otherwise.
pub open spec fn line_key(f: LineFilter, raw: Seq<char>) -> Seq<char> {
    match f {
        LineFilter::PlasmaImage => raw,
        _ => trim(before_first(raw, '#')),
    }
}

/// The QML properties that may hold the wallpaper source.
pub open spec fn has_source_key(l: Seq<char>) -> bool {
    ||| contains_seq(l, "source:"@)
    ||| contains_seq(l, "currentSource:"@)
    ||| contains_seq(l, "wallpaperSource:"@)
    ||| contains_seq(l, "currentWallpaper:"@)
    ||| contains_seq(l, "effectiveWallpaper:"@)
    ||| contains_seq(l, "currentWall:"@)
    ||| contains_seq(l, "perScreenWallpapers"@)
}

/// Whether a line (as `line_key` gives it) passes filter `f`.
pub open spec fn line_passes(f: LineFilter, l: Seq<char>) -> bool {
    match f {
        LineFilter::NonEmpty => l.len() > 0,
        LineFilter::QmlSource => l.len() > 0 && has_source_key(l),
        LineFilter::Hyprpaper => starts_with_seq(l, "wallpaper"@) || contains_seq(l, "preload"@)
            || contains_seq(l, "path"@),
        LineFilter::Wpaperd => contains_seq(l, "path"@) || contains_seq(l, "wallpaper"@)
            || contains_seq(l, "file"@),
        LineFilter::PlasmaImage => starts_with_seq(
            trim_start_by(l, CharClass::Whitespace),
            "Image="@,
        ),
    }
}

fn line_key_exec(f: LineFilter, raw: &str) -> (r: String)
    ensures
        r@ == line_key(f, raw@),
{
    match f {
        LineFilter::PlasmaImage => string_from_chars(chars_of(raw).as_slice()),
        _ => {
            let c = strip_comment(raw);
            trim_str(c.as_str())
        },
    }
}

fn has_source_key_exec(l: &str) -> (r: bool)
    ensures
        r == has_source_key(l@),
{
    str_contains(l, "source:") || str_contains(l, "currentSource:") || str_contains(
        l,
        "wallpaperSource:",
    ) || str_contains(l, "currentWallpaper:") || str_contains(l, "effectiveWallpaper:")
        || str_contains(l, "currentWall:") || str_contains(l, "perScreenWallpapers")
}

/// Whether line text `l` passes filter `f`.
pub fn line_passes_exec(f: LineFilter, l: &str) -> (r: bool)
    ensures
        r == line_passes(f, l@),
{
    match f {
        LineFilter::NonEmpty => !l.is_empty(),
        LineFilter::QmlSource => !l.is_empty() && has_source_key_exec(l),
        LineFilter::Hyprpaper => str_starts_with(l, "wallpaper") || str_contains(l, "preload")
            || str_contains(l, "path"),
        LineFilter::Wpaperd => str_contains(l, "path") || str_contains(l, "wallpaper")
            || str_contains(l, "file"),
        LineFilter::PlasmaImage => {
            let t = trim_start_only(l);
            str_starts_with(t.as_str(), "Image=")
        },
    }
}

/// `s.trim_start()`.
pub fn trim_start_only(s: &str) -> (r: String)
    ensures
        r@ == trim_start_by(s@, CharClass::Whitespace),
{
    let v = chars_of(s);
    let n = v.len();
    let mut i: usize = 0;
    assert(v@.subrange(0, n as int) =~= v@);
    while i < n && crate::text::is_whitespace_char(v[i])
        invariant
            0 <= i <= n == v@.len(),
            trim_start_by(v@, CharClass::Whitespace) == trim_start_by(v@.subrange(i as int, n as int), CharClass::Whitespace),
        decreases n - i,
    {
        assert(v@.subrange(i as int, n as int).drop_first() =~= v@.subrange(i + 1, n as int));
        i = i + 1;
    }
    string_from_chars(crate::text::sub_chars(v.as_slice(), i, n).as_slice())
}

/// The media paths named on one line of a text under filter `f`: those its
/// tokens name, when the line passes the filter.
pub open spec fn line_cands(f: LineFilter, home: Option<Seq<char>>, raw: Seq<char>) -> Seq<Seq<char>> {
    if line_passes(f, line_key(f, raw)) {
        text_cands(line_key(f, raw), home)
    } else {
        Seq::empty()
    }
}

/// The media paths named on the lines of `lines` under filter `f`, line after line.
pub open spec fn lines_cands(lines: Seq<Seq<char>>, f: LineFilter, home: Option<Seq<char>>) -> Seq<Seq<char>>
    decreases lines.len(),
{
    if lines.len() == 0 {
        Seq::empty()
    } else {
        lines_cands(lines.drop_last(), f, home) + line_cands(f, home, lines.last())
    }
}

/// The media paths named on the lines of `content` that pass `f`, in order
/// (see `lines_cands`).
pub fn line_candidates(content: &str, f: LineFilter, home: Option<&str>) -> (r: Vec<String>)
    ensures
        views(r@) == lines_cands(lines_spec(content@), f, home_view(home)),
{
    let lines = lines_of(content);
    let ghost lv = views(lines@);
    let mut out: Vec<String> = Vec::new();
    let mut j: usize = 0;
    while j < lines.len()
        invariant
            lv == views(lines@),
            lv == lines_spec(content@),
            0 <= j <= lines@.len(),
            views(out@) == lines_cands(lv.take(j as int), f, home_view(home)),
        decreases lines@.len() - j,
    {
        assert(lv.take(j + 1).drop_last() =~= lv.take(j as int));
        assert(lv.take(j + 1).last() == lines@[j as int]@);
        let ghost before = views(out@);
        let key = line_key_exec(f, lines[j].as_str());
        if line_passes_exec(f, key.as_str()) {
            let mut sub = text_candidates(key.as_str(), home);
            let ghost sv = views(sub@);
            out.append(&mut sub);
            assert(views(out@) =~= before + sv);
        } else {
            assert(before + Seq::<Seq<char>>::empty() =~= before);
        }
        j = j + 1;
    }
    assert(lv.take(lines@.len() as int) =~= lv);
    out
}

/// The first existing media file named on a line of `content` that passes
/// `f`: the first of `line_candidates` that the disk has.
pub fn first_path_in_lines(content: &str, f: LineFilter, home: Option<&str>) -> (r: Option<String>)
    ensures
        r matches Some(p) ==> lines_cands(lines_spec(content@), f, home_view(home)).contains(p@),
        lines_cands(lines_spec(content@), f, home_view(home)).len() == 0 ==> r is None,
{
    let cands = line_candidates(content, f, home);
    first_existing_path(&cands)
}

/// The wallpaper source that an Ambxst QML file sets: the first existing media
/// file named on a line that sets one of the source properties.
pub fn parse_qml_source(qml_content: &str, home: Option<&str>) -> (r: Option<String>)
    ensures
        r matches Some(p) ==> lines_cands(lines_spec(qml_content@), LineFilter::QmlSource, home_view(home)).contains(p@),
        lines_cands(lines_spec(qml_content@), LineFilter::QmlSource, home_view(home)).len() == 0 ==> r is None,
{
    first_path_in_lines(qml_content, LineFilter::QmlSource, home)
}

/// The first position at or after `i` that holds `w`.
pub open spec fn index_from(words: Seq<Seq<char>>, w: Seq<char>, i: int) -> Option<int>
    decreases words.len() - i,
{
    if i < 0 || i >= words.len() {
        None
    } else if words[i] == w {
        Some(i)
    } else {
        index_from(words, w, i + 1)
    }
}

/// The wallpaper word of a sway config line: in a line that (without its `#`
/// comment, trimmed) starts with `output` and contains ` bg `, the word after
/// the first `bg` word.
pub open spec fn sway_bg_token(raw: Seq<char>) -> Option<Seq<char>> {
    let l = trim(before_first(raw, '#'));
    let words = split_pieces(l, CharClass::Whitespace, false);
    if starts_with_seq(l, "output"@) && contains_seq(l, " bg "@) {
        match index_from(words, "bg"@, 0) {
            Some(k) => if k + 1 < words.len() {
                Some(words[k + 1])
            } else {
                None
            },
            None => None,
        }
    } else {
        None
    }
}

#[verifier::loop_isolation(false)]
fn sway_bg_token_exec(raw: &str) -> (r: Option<String>)
    ensures
        match sway_bg_token(raw@) {
            Some(t) => r matches Some(x) && x@ == t,
            None => r is None,
        },
{
    let c = strip_comment(raw);
    let l = trim_str(c.as_str());
    if !(str_starts_with(l.as_str(), "output") && str_contains(l.as_str(), " bg ")) {
        return None;
    }
    let words = split_by(l.as_str(), CharClass::Whitespace, false);
    let ghost wv = views(words@);
    let mut k: usize = 0;
    while k < words.len()
        invariant
            wv == views(words@),
            0 <= k <= words@.len(),
            index_from(wv, "bg"@, 0) == index_from(wv, "bg"@, k as int),
        decreases words@.len() - k,
    {
        assert(wv[k as int] == words@[k as int]@);
        if str_eq(words[k].as_str(), "bg") {
            if k + 1 < words.len() {
                assert(wv[k + 1] == words@[k + 1]@);
                return Some(owned(words[k + 1].as_str()));
            }
            return None;
        }
        k = k + 1;
    }
    None
}

/// The paths that the lines of a sway config set with `bg`, in order, normalized.
pub open spec fn sway_cands(lines: Seq<Seq<char>>, home: Option<Seq<char>>) -> Seq<Seq<char>>
    decreases lines.len(),
{
    if lines.len() == 0 {
        Seq::empty()
    } else {
        let prev = sway_cands(lines.drop_last(), home);
        match sway_bg_token(lines.last()) {
            Some(t) => prev.push(normalize_path_spec(t, home)),
            None => prev,
        }
    }
}

/// The paths a sway config sets with `bg`, in order (see `sway_cands`).
pub fn sway_candidates(content: &str, home: Option<&str>) -> (r: Vec<String>)
    ensures
        views(r@) == sway_cands(lines_spec(content@), home_view(home)),
{
    let lines = lines_of(content);
    let ghost lv = views(lines@);
    let mut out: Vec<String> = Vec::new();
    let mut j: usize = 0;
    while j < lines.len()
        invariant
            lv == views(lines@),
            lv == lines_spec(content@),
            0 <= j <= lines@.len(),
            views(out@) == sway_cands(lv.take(j as int), home_view(home)),
        decreases lines@.len() - j,
    {
        assert(lv.take(j + 1).drop_last() =~= lv.take(j as int));
        assert(lv.take(j + 1).last() == lines@[j as int]@);
        let ghost before = views(out@);
        if let Some(t) = sway_bg_token_exec(lines[j].as_str()) {
            let p = normalize_path(t.as_str(), home);
            let ghost pv = p@;
            out.push(p);
            assert(views(out@) =~= before.push(pv));
        }
        j = j + 1;
    }
    assert(lv.take(lines@.len() as int) =~= lv);
    out
}

/// The wallpaper a sway config sets with `output ... bg <path> ...`: the
/// first such path that exists, lines taken in order.
pub fn sway_config_wallpaper(content: &str, home: Option<&str>) -> (r: Option<String>)
    ensures
        r matches Some(p) ==> sway_cands(lines_spec(content@), home_view(home)).contains(p@),
        sway_cands(lines_spec(content@), home_view(home)).len() == 0 ==> r is None,
{
    let cands = sway_candidates(content, home);
    first_existing_path(&cands)
}

/// One running process as read from `/proc`: its id, command name,
/// command-line arguments, the targets of its open file descriptors, its
/// working directory, and whether its memory maps hold a Qt multimedia library.
#[derive(Debug, Clone)]
pub struct ProcSnapshot {
    pub pid: i32,
    pub comm: String,
    pub args: Vec<String>,
    pub open_files: Vec<String>,
    pub cwd: Option<String>,
    pub uses_qt_multimedia: bool,
}

/// The arguments of a process joined with spaces.
pub open spec fn joined_args(p: ProcSnapshot) -> Seq<char> {
    crate::text::join_space(views(p.args@))
}

/// Process `p` mentions one of `names` in its lower-cased command name or
/// lower-cased joined arguments.
pub open spec fn proc_mentions(names: Seq<&str>, p: ProcSnapshot) -> bool {
    exists|k: int|
        0 <= k < names.len() && (contains_seq(spec_lowercase(p.comm@), (#[trigger] names[k])@)
            || contains_seq(spec_lowercase(joined_args(p)), names[k]@))
}

/// Whether process `p` mentions one of `names` (see `proc_mentions`).
pub fn process_mentions(names: &[&str], p: &ProcSnapshot) -> (r: bool)
    ensures
        r == proc_mentions(names@, *p),
{
    let comm_lc = to_lowercase(p.comm.as_str());
    let joined = crate::text::join_with_space(p.args.as_slice());
    let args_lc = to_lowercase(joined.as_str());
    let mut k: usize = 0;
    while k < names.len()
        invariant
            0 <= k <= names@.len(),
            comm_lc@ == spec_lowercase(p.comm@),
            args_lc@ == spec_lowercase(joined_args(*p)),
            forall|q: int| 0 <= q < k ==> !(contains_seq(spec_lowercase(p.comm@), (#[trigger] names@[q])@) || contains_seq(spec_lowercase(joined_args(*p)), names@[q]@)),
        decreases names@.len() - k,
    {
        if str_contains(comm_lc.as_str(), names[k]) || str_contains(args_lc.as_str(), names[k]) {
            return true;
        }
        k = k + 1;
    }
    false
}

/// The first of `files` that is a media path and exists on disk.
pub fn first_existing_media_file(files: &[String]) -> (r: Option<String>)
    ensures
        r matches Some(p) ==> media_file_cands(views(files@)).contains(p@),
        media_file_cands(views(files@)).len() == 0 ==> r is None,
{
    let cands = media_file_candidates(files);
    first_existing_path(&cands)
}

/// The media files among `paths` that exist on disk, in order: the disk is
/// asked about each media path of `paths`, and `keep_existing` keeps those it has.
pub fn extract_media_candidates_from_paths(paths: &[String]) -> (r: Vec<String>)
    ensures
        exists|ex: Seq<bool>|
            ex.len() == media_file_cands(views(paths@)).len() && views(r@) == #[trigger] keep_true(
                media_file_cands(views(paths@)),
                ex,
            ),
{
    let cands = media_file_candidates(paths);
    let ex = all_existence_answers(&cands);
    keep_existing(&cands, &ex)
}

/// The existing media files that `args` name, in order: the disk is asked
/// about each media path the arguments name, and `keep_existing` keeps those it has.
pub fn extract_media_candidates_from_args(args: &[String], home: Option<&str>) -> (r: Vec<String>)
    ensures
        exists|ex: Seq<bool>|
            ex.len() == media_cands(views(args@), home_view(home)).len() && views(r@) == #[trigger] keep_true(
                media_cands(views(args@), home_view(home)),
                ex,
            ),
{
    let cands = media_candidates(args, home);
    let ex = all_existence_answers(&cands);
    keep_existing(&cands, &ex)
}

/// What one process offers when it mentions one of `names`: the media paths
/// its arguments name, then its open media files.
pub open spec fn named_proc_cands(names: Seq<&str>, p: ProcSnapshot, home: Option<Seq<char>>) -> Seq<Seq<char>> {
    if proc_mentions(names, p) {
        media_cands(views(p.args@), home) + media_file_cands(views(p.open_files@))
    } else {
        Seq::empty()
    }
}

/// What the processes that mention one of `names` offer, process after process.
pub open spec fn named_procs_cands(names: Seq<&str>, procs: Seq<ProcSnapshot>, home: Option<Seq<char>>) -> Seq<Seq<char>>
    decreases procs.len(),
{
    if procs.len() == 0 {
        Seq::empty()
    } else {
        named_procs_cands(names, procs.drop_last(), home) + named_proc_cands(names, procs.last(), home)
    }
}

/// The candidates of the processes that mention one of `names`, in order
/// (see `named_procs_cands`).
pub fn named_process_candidates(names: &[&str], procs: &[ProcSnapshot], home: Option<&str>) -> (r: Vec<String>)
    ensures
        views(r@) == named_procs_cands(names@, procs@, home_view(home)),
{
    let mut out: Vec<String> = Vec::new();
    let mut j: usize = 0;
    while j < procs.len()
        invariant
            0 <= j <= procs@.len(),
            views(out@) == named_procs_cands(names@, procs@.take(j as int), home_view(home)),
        decreases procs@.len() - j,
    {
        assert(procs@.take(j + 1).drop_last() =~= procs@.take(j as int));
        assert(procs@.take(j + 1).last() == procs@[j as int]);
        let ghost before = views(out@);
        let snap = &procs[j];
        if process_mentions(names, snap) {
            let mut a = media_candidates(snap.args.as_slice(), home);
            let mut b = media_file_candidates(snap.open_files.as_slice());
            let ghost av = views(a@);
            let ghost bv = views(b@);
            out.append(&mut a);
            out.append(&mut b);
            assert(views(out@) =~= before + (av + bv));
        } else {
            assert(before + Seq::<Seq<char>>::empty() =~= before);
        }
        j = j + 1;
    }
    assert(procs@.take(procs@.len() as int) =~= procs@);
    out
}

/// The wallpaper of the processes that mention one of `names`: the first of
/// `named_process_candidates` that exists on disk (for the first such process,
/// its arguments first, then its open files).
pub fn find_from_processes(names: &[&str], procs: &[ProcSnapshot], home: Option<&str>) -> (r: Option<String>)
    ensures
        r matches Some(p) ==> named_procs_cands(names@, procs@, home_view(home)).contains(p@),
        named_procs_cands(names@, procs@, home_view(home)).len() == 0 ==> r is None,
{
    let cands = named_process_candidates(names, procs, home);
    first_existing_path(&cands)
}

/// The wallpaper shown by `awww` (or its daemon), from its process (see `find_from_processes`).
pub fn from_awww_process(procs: &[ProcSnapshot], home: Option<&str>) -> (r: Option<String>)
    ensures
        r matches Some(p) ==> named_procs_cands(seq!["awww", "awww-daemon"], procs@, home_view(home)).contains(p@),
        named_procs_cands(seq!["awww", "awww-daemon"], procs@, home_view(home)).len() == 0 ==> r is None,
{
    let names: [&str; 2] = ["awww", "awww-daemon"];
    assert(names@ =~= seq!["awww", "awww-daemon"]);
    find_from_processes(names.as_slice(), procs, home)
}

/// The wallpaper shown by `hyprpaper`, from its process (see `find_from_processes`).
pub fn from_hyprpaper_process(procs: &[ProcSnapshot], home: Option<&str>) -> (r: Option<String>)
    ensures
        r matches Some(p) ==> named_procs_cands(seq!["hyprpaper"], procs@, home_view(home)).contains(p@),
        named_procs_cands(seq!["hyprpaper"], procs@, home_view(home)).len() == 0 ==> r is None,
{
    let names: [&str; 1] = ["hyprpaper"];
    assert(names@ =~= seq!["hyprpaper"]);
    find_from_processes(names.as_slice(), procs, home)
}

/// The wallpaper shown by `wpaperd`, from its process (see `find_from_processes`).
pub fn from_wpaperd_process(procs: &[ProcSnapshot], home: Option<&str>) -> (r: Option<String>)
    ensures
        r matches Some(p) ==> named_procs_cands(seq!["wpaperd"], procs@, home_view(home)).contains(p@),
        named_procs_cands(seq!["wpaperd"], procs@, home_view(home)).len() == 0 ==> r is None,
{
    let names: [&str; 1] = ["wpaperd"];
    assert(names@ =~= seq!["wpaperd"]);
    find_from_processes(names.as_slice(), procs, home)
}

/// The wallpaper shown by `waypaper`, from its process (see `find_from_processes`).
pub fn from_waypaper_process(procs: &[ProcSnapshot], home: Option<&str>) -> (r: Option<String>)
    ensures
        r matches Some(p) ==> named_procs_cands(seq!["waypaper"], procs@, home_view(home)).contains(p@),
        named_procs_cands(seq!["waypaper"], procs@, home_view(home)).len() == 0 ==> r is None,
{
    let names: [&str; 1] = ["waypaper"];
    assert(names@ =~= seq!["waypaper"]);
    find_from_processes(names.as_slice(), procs, home)
}

/// The wallpaper shown by `waytrogen`, from its process (see `find_from_processes`).
pub fn from_waytrogen_process(procs: &[ProcSnapshot], home: Option<&str>) -> (r: Option<String>)
    ensures
        r matches Some(p) ==> named_procs_cands(seq!["waytrogen"], procs@, home_view(home)).contains(p@),
        named_procs_cands(seq!["waytrogen"], procs@, home_view(home)).len() == 0 ==> r is None,
{
    let names: [&str; 1] = ["waytrogen"];
    assert(names@ =~= seq!["waytrogen"]);
    find_from_processes(names.as_slice(), procs, home)
}

/// The wallpaper shown by `hpaper`, from its process (see `find_from_processes`).
pub fn from_hpaper_process(procs: &[ProcSnapshot], home: Option<&str>) -> (r: Option<String>)
    ensures
        r matches Some(p) ==> named_procs_cands(seq!["hpaper"], procs@, home_view(home)).contains(p@),
        named_procs_cands(seq!["hpaper"], procs@, home_view(home)).len() == 0 ==> r is None,
{
    let names: [&str; 1] = ["hpaper"];
    assert(names@ =~= seq!["hpaper"]);
    find_from_processes(names.as_slice(), procs, home)
}

/// The wallpaper shown by `walt`, from its process (see `find_from_processes`).
pub fn from_walt_process(procs: &[ProcSnapshot], home: Option<&str>) -> (r: Option<String>)
    ensures
        r matches Some(p) ==> named_procs_cands(seq!["walt"], procs@, home_view(home)).contains(p@),
        named_procs_cands(seq!["walt"], procs@, home_view(home)).len() == 0 ==> r is None,
{
    let names: [&str; 1] = ["walt"];
    assert(names@ =~= seq!["walt"]);
    find_from_processes(names.as_slice(), procs, home)
}

/// The wallpaper shown by `wlsbg`, from its process (see `find_from_processes`).
pub fn from_wlsbg_process(procs: &[ProcSnapshot], home: Option<&str>) -> (r: Option<String>)
    ensures
        r matches Some(p) ==> named_procs_cands(seq!["wlsbg"], procs@, home_view(home)).contains(p@),
        named_procs_cands(seq!["wlsbg"], procs@, home_view(home)).len() == 0 ==> r is None,
{
    let names: [&str; 1] = ["wlsbg"];
    assert(names@ =~= seq!["wlsbg"]);
    find_from_processes(names.as_slice(), procs, home)
}

/// The wallpaper shown by `wallrizz`, from its process (see `find_from_processes`).
pub fn from_wallrizz_process(procs: &[ProcSnapshot], home: Option<&str>) -> (r: Option<String>)
    ensures
        r matches Some(p) ==> named_procs_cands(seq!["wallrizz"], procs@, home_view(home)).contains(p@),
        named_procs_cands(seq!["wallrizz"], procs@, home_view(home)).len() == 0 ==> r is None,
{
    let names: [&str; 1] = ["wallrizz"];
    assert(names@ =~= seq!["wallrizz"]);
    find_from_processes(names.as_slice(), procs, home)
}

/// The last argument that neither mentions `daemon` nor starts with `-`.
pub open spec fn last_plain_arg(args: Seq<Seq<char>>, daemon: Seq<char>) -> Option<Seq<char>>
    decreases args.len(),
{
    if args.len() == 0 {
        None
    } else if !contains_seq(args.last(), daemon) && !starts_with_seq(args.last(), "-"@) {
        Some(args.last())
    } else {
        last_plain_arg(args.drop_last(), daemon)
    }
}

/// The media path a daemon was started with: its last argument that neither
/// mentions the daemon nor is a flag, as a normalized path.
pub fn extract_media_path_from_args(args: &[String], daemon_name: &str, home: Option<&str>) -> (r: Option<String>)
    ensures
        match last_plain_arg(views(args@), daemon_name@) {
            Some(a) => r matches Some(p) && p@ == crate::paths::normalize_path_spec(a, home_view(home)),
            None => r is None,
        },
{
    let ghost av = views(args@);
    let mut last: Option<usize> = None;
    let mut i: usize = 0;
    while i < args.len()
        invariant
            av == views(args@),
            0 <= i <= args@.len(),
            match last_plain_arg(av.take(i as int), daemon_name@) {
                Some(a) => last matches Some(k) && k < i && av[k as int] == a,
                None => last is None,
            },
        decreases args@.len() - i,
    {
        proof {
            assert(av.take(i + 1).drop_last() =~= av.take(i as int));
            assert(av.take(i + 1).last() == args@[i as int]@);
        }
        if !str_contains(args[i].as_str(), daemon_name) && !str_starts_with(args[i].as_str(), "-") {
            last = Some(i);
        }
        i = i + 1;
    }
    assert(av.take(args@.len() as int) =~= av);
    match last {
        Some(k) => Some(crate::paths::normalize_path(args[k].as_str(), home)),
        None => None,
    }
}

/// The raw texts, in order, that Ambxst arguments may name its wallpaper with:
/// for each argument, the one after a `--source`/`-s` flag, or the value of a
/// `--source=` argument, and then the argument itself.
pub open spec fn ambxst_raws(args: Seq<Seq<char>>, n: int) -> Seq<Seq<char>>
    decreases n,
{
    if n <= 0 {
        Seq::empty()
    } else {
        let idx = n - 1;
        let a = args[idx];
        let extra = if a == "--source"@ || a == "-s"@ {
            if idx + 1 < args.len() {
                seq![args[idx + 1]]
            } else {
                Seq::empty()
            }
        } else if starts_with_seq(a, "--source="@) {
            seq![a.skip(9)]
        } else {
            Seq::empty()
        };
        ambxst_raws(args, n - 1) + extra + seq![a]
    }
}

/// The raw texts that Ambxst arguments may name its wallpaper with (see `ambxst_raws`).
pub fn ambxst_raw_texts(args: &[String]) -> (r: Vec<String>)
    ensures
        views(r@) == ambxst_raws(views(args@), args@.len() as int),
{
    let ghost av = views(args@);
    let mut raws: Vec<String> = Vec::new();
    let mut idx: usize = 0;
    while idx < args.len()
        invariant
            av == views(args@),
            0 <= idx <= args@.len(),
            views(raws@) == ambxst_raws(av, idx as int),
        decreases args@.len() - idx,
    {
        let arg = args[idx].as_str();
        assert(av[idx as int] == arg@);
        let ghost before = views(raws@);
        if str_eq(arg, "--source") || str_eq(arg, "-s") {
            if idx + 1 < args.len() {
                let next = string_from_chars(chars_of(args[idx + 1].as_str()).as_slice());
                raws.push(next);
            }
        } else if let Some(value) = crate::text::strip_prefix_str(arg, "--source=") {
            proof {
                crate::text::lemma_strlit_source_eq_len();
            }
            raws.push(value);
        }
        let own = string_from_chars(chars_of(arg).as_slice());
        raws.push(own);
        idx = idx + 1;
        assert(views(raws@) =~= ambxst_raws(av, idx as int));
    }
    raws
}

/// The wallpaper source in Ambxst's arguments: the first of the media paths
/// that the texts of `ambxst_raws` name which exists on disk.
pub fn extract_ambxst_source_from_args(args: &[String], home: Option<&str>) -> (r: Option<String>)
    ensures
        r matches Some(p) ==> media_cands(ambxst_raws(views(args@), args@.len() as int), home_view(home)).contains(p@),
        media_cands(ambxst_raws(views(args@), args@.len() as int), home_view(home)).len() == 0 ==> r is None,
{
    let raws = ambxst_raw_texts(args);
    first_existing_media(raws.as_slice(), home)
}

/// What one process offers when it mentions `ambxst`: the media paths its
/// source texts name (see `ambxst_raws`), then its open media files.
pub open spec fn ambxst_proc_cands(p: ProcSnapshot, home: Option<Seq<char>>) -> Seq<Seq<char>> {
    if proc_mentions(seq!["ambxst"], p) {
        media_cands(ambxst_raws(views(p.args@), p.args@.len() as int), home) + media_file_cands(views(p.open_files@))
    } else {
        Seq::empty()
    }
}

/// What the Ambxst processes offer, process after process.
pub open spec fn ambxst_procs_cands(procs: Seq<ProcSnapshot>, home: Option<Seq<char>>) -> Seq<Seq<char>>
    decreases procs.len(),
{
    if procs.len() == 0 {
        Seq::empty()
    } else {
        ambxst_procs_cands(procs.drop_last(), home) + ambxst_proc_cands(procs.last(), home)
    }
}

/// The candidates of the Ambxst processes, in order (see `ambxst_procs_cands`).
pub fn ambxst_process_candidates(procs: &[ProcSnapshot], home: Option<&str>) -> (r: Vec<String>)
    ensures
        views(r@) == ambxst_procs_cands(procs@, home_view(home)),
{
    let names: [&str; 1] = ["ambxst"];
    assert(names@ =~= seq!["ambxst"]);
    let mut out: Vec<String> = Vec::new();
    let mut j: usize = 0;
    while j < procs.len()
        invariant
            0 <= j <= procs@.len(),
            names@ =~= seq!["ambxst"],
            views(out@) == ambxst_procs_cands(procs@.take(j as int), home_view(home)),
        decreases procs@.len() - j,
    {
        assert(procs@.take(j + 1).drop_last() =~= procs@.take(j as int));
        assert(procs@.take(j + 1).last() == procs@[j as int]);
        let ghost before = views(out@);
        let snap = &procs[j];
        if process_mentions(names.as_slice(), snap) {
            let raws = ambxst_raw_texts(snap.args.as_slice());
            let mut a = media_candidates(raws.as_slice(), home);
            let mut b = media_file_candidates(snap.open_files.as_slice());
            let ghost av = views(a@);
            let ghost bv = views(b@);
            out.append(&mut a);
            out.append(&mut b);
            assert(views(out@) =~= before + (av + bv));
        } else {
            assert(before + Seq::<Seq<char>>::empty() =~= before);
        }
        j = j + 1;
    }
    assert(procs@.take(procs@.len() as int) =~= procs@);
    out
}

/// The wallpaper that a running Ambxst process shows: the first of
/// `ambxst_process_candidates` that exists on disk.
pub fn from_ambxst_process(procs: &[ProcSnapshot], home: Option<&str>) -> (r: Option<String>)
    ensures
        r matches Some(p) ==> ambxst_procs_cands(procs@, home_view(home)).contains(p@),
        ambxst_procs_cands(procs@, home_view(home)).len() == 0 ==> r is None,
{
    let cands = ambxst_process_candidates(procs, home);
    first_existing_path(&cands)
}

/// The normalized paths that follow a `-i` flag among the first `n` arguments, in order.
pub open spec fn dash_i_cands(args: Seq<Seq<char>>, home: Option<Seq<char>>, n: int) -> Seq<Seq<char>>
    decreases n,
{
    if n <= 0 {
        Seq::empty()
    } else {
        let prev = dash_i_cands(args, home, n - 1);
        if args[n - 1] == "-i"@ && n < args.len() {
            prev.push(normalize_path_spec(args[n], home))
        } else {
            prev
        }
    }
}

/// A process mentions `name` in its command name or its joined arguments.
pub open spec fn names_daemon(p: ProcSnapshot, name: Seq<char>) -> bool {
    contains_seq(p.comm@, name) || contains_seq(joined_args(p), name)
}

/// What one process offers when it mentions `swaybg`: the paths after its `-i`
/// flags, then the media paths its arguments name.
pub open spec fn swaybg_proc_cands(p: ProcSnapshot, home: Option<Seq<char>>) -> Seq<Seq<char>> {
    if names_daemon(p, "swaybg"@) {
        dash_i_cands(views(p.args@), home, p.args@.len() as int) + media_cands(views(p.args@), home)
    } else {
        Seq::empty()
    }
}

/// What the swaybg processes offer, process after process.
pub open spec fn swaybg_procs_cands(procs: Seq<ProcSnapshot>, home: Option<Seq<char>>) -> Seq<Seq<char>>
    decreases procs.len(),
{
    if procs.len() == 0 {
        Seq::empty()
    } else {
        swaybg_procs_cands(procs.drop_last(), home) + swaybg_proc_cands(procs.last(), home)
    }
}

/// The paths after the `-i` flags of `args`, in order (see `dash_i_cands`).
fn dash_i_candidates(args: &[String], home: Option<&str>) -> (r: Vec<String>)
    ensures
        views(r@) == dash_i_cands(views(args@), home_view(home), args@.len() as int),
{
    let ghost av = views(args@);
    let mut out: Vec<String> = Vec::new();
    let mut i: usize = 0;
    while i < args.len()
        invariant
            av == views(args@),
            0 <= i <= args@.len(),
            views(out@) == dash_i_cands(av, home_view(home), i as int),
        decreases args@.len() - i,
    {
        let ghost before = views(out@);
        assert(av[i as int] == args@[i as int]@);
        if str_eq(args[i].as_str(), "-i") && i + 1 < args.len() {
            assert(av[i + 1] == args@[i + 1]@);
            let p = normalize_path(args[i + 1].as_str(), home);
            let ghost pv = p@;
            out.push(p);
            assert(views(out@) =~= before.push(pv));
        }
        i = i + 1;
    }
    out
}

/// Whether process `p` mentions `name` (see `names_daemon`).
fn mentions_daemon(p: &ProcSnapshot, name: &str) -> (r: bool)
    ensures
        r == names_daemon(*p, name@),
{
    let joined = crate::text::join_with_space(p.args.as_slice());
    str_contains(p.comm.as_str(), name) || str_contains(joined.as_str(), name)
}

/// The candidates of the swaybg processes, in order (see `swaybg_procs_cands`).
pub fn swaybg_process_candidates(procs: &[ProcSnapshot], home: Option<&str>) -> (r: Vec<String>)
    ensures
        views(r@) == swaybg_procs_cands(procs@, home_view(home)),
{
    let mut out: Vec<String> = Vec::new();
    let mut j: usize = 0;
    while j < procs.len()
        invariant
            0 <= j <= procs@.len(),
            views(out@) == swaybg_procs_cands(procs@.take(j as int), home_view(home)),
        decreases procs@.len() - j,
    {
        assert(procs@.take(j + 1).drop_last() =~= procs@.take(j as int));
        assert(procs@.take(j + 1).last() == procs@[j as int]);
        let ghost before = views(out@);
        let snap = &procs[j];
        if mentions_daemon(snap, "swaybg") {
            let mut a = dash_i_candidates(snap.args.as_slice(), home);
            let mut b = media_candidates(snap.args.as_slice(), home);
            let ghost av = views(a@);
            let ghost bv = views(b@);
            out.append(&mut a);
            out.append(&mut b);
            assert(views(out@) =~= before + (av + bv));
        } else {
            assert(before + Seq::<Seq<char>>::empty() =~= before);
        }
        j = j + 1;
    }
    assert(procs@.take(procs@.len() as int) =~= procs@);
    out
}

/// The wallpaper swaybg shows: the first of `swaybg_process_candidates` that
/// exists on disk (the paths after its `-i` flags before the media paths its
/// arguments name).
pub fn from_swaybg_process(procs: &[ProcSnapshot], home: Option<&str>) -> (r: Option<String>)
    ensures
        r matches Some(p) ==> swaybg_procs_cands(procs@, home_view(home)).contains(p@),
        swaybg_procs_cands(procs@, home_view(home)).len() == 0 ==> r is None,
{
    let cands = swaybg_process_candidates(procs, home);
    first_existing_path(&cands)
}

/// What one process offers when it mentions `mpvpaper`: the path of its last
/// plain argument, then the media paths its arguments name.
pub open spec fn mpvpaper_proc_cands(p: ProcSnapshot, home: Option<Seq<char>>) -> Seq<Seq<char>> {
    if names_daemon(p, "mpvpaper"@) {
        (match last_plain_arg(views(p.args@), "mpvpaper"@) {
            Some(a) => seq![normalize_path_spec(a, home)],
            None => Seq::empty(),
        }) + media_cands(views(p.args@), home)
    } else {
        Seq::empty()
    }
}

/// What the mpvpaper processes offer, process after process.
pub open spec fn mpvpaper_procs_cands(procs: Seq<ProcSnapshot>, home: Option<Seq<char>>) -> Seq<Seq<char>>
    decreases procs.len(),
{
    if procs.len() == 0 {
        Seq::empty()
    } else {
        mpvpaper_procs_cands(procs.drop_last(), home) + mpvpaper_proc_cands(procs.last(), home)
    }
}

/// The candidates of the mpvpaper processes, in order (see `mpvpaper_procs_cands`).
pub fn mpvpaper_process_candidates(procs: &[ProcSnapshot], home: Option<&str>) -> (r: Vec<String>)
    ensures
        views(r@) == mpvpaper_procs_cands(procs@, home_view(home)),
{
    let mut out: Vec<String> = Vec::new();
    let mut j: usize = 0;
    while j < procs.len()
        invariant
            0 <= j <= procs@.len(),
            views(out@) == mpvpaper_procs_cands(procs@.take(j as int), home_view(home)),
        decreases procs@.len() - j,
    {
        assert(procs@.take(j + 1).drop_last() =~= procs@.take(j as int));
        assert(procs@.take(j + 1).last() == procs@[j as int]);
        let ghost before = views(out@);
        let snap = &procs[j];
        if mentions_daemon(snap, "mpvpaper") {
            let mut a: Vec<String> = Vec::new();
            if let Some(path) = extract_media_path_from_args(snap.args.as_slice(), "mpvpaper", home) {
                a.push(path);
            }
            let mut b = media_candidates(snap.args.as_slice(), home);
            let ghost av = views(a@);
            let ghost bv = views(b@);
            assert(av =~= (match last_plain_arg(views(snap.args@), "mpvpaper"@) {
                Some(x) => seq![normalize_path_spec(x, home_view(home))],
                None => Seq::empty(),
            }));
            out.append(&mut a);
            out.append(&mut b);
            assert(views(out@) =~= before + (av + bv));
        } else {
            assert(before + Seq::<Seq<char>>::empty() =~= before);
        }
        j = j + 1;
    }
    assert(procs@.take(procs@.len() as int) =~= procs@);
    out
}

/// The wallpaper mpvpaper plays: the first of `mpvpaper_process_candidates`
/// that exists on disk (the path of its last plain argument before the media
/// paths its arguments name).
pub fn from_mpvpaper_process(procs: &[ProcSnapshot], home: Option<&str>) -> (r: Option<String>)
    ensures
        r matches Some(p) ==> mpvpaper_procs_cands(procs@, home_view(home)).contains(p@),
        mpvpaper_procs_cands(procs@, home_view(home)).len() == 0 ==> r is None,
{
    let cands = mpvpaper_process_candidates(procs, home);
    first_existing_path(&cands)
}

/// The tokens among `toks` whose lower-cased text contains `ext`, in order.
pub open spec fn ext_tokens(toks: Seq<Seq<char>>, ext: Seq<char>) -> Seq<Seq<char>>
    decreases toks.len(),
{
    if toks.len() == 0 {
        Seq::empty()
    } else {
        let prev = ext_tokens(toks.drop_last(), ext);
        if contains_seq(spec_lowercase(toks.last()), ext) {
            prev.push(toks.last())
        } else {
            prev
        }
    }
}

/// The media paths named by the tokens of `input` that mention `ext`, in order.
pub open spec fn ext_cands(input: Seq<char>, ext: Seq<char>, home: Option<Seq<char>>) -> Seq<Seq<char>> {
    media_cands(ext_tokens(tokens_spec(input), ext), home)
}

/// The media paths named by the tokens of `input` that mention `extension`
/// (compared lower-cased), in order (see `ext_cands`).
pub fn ext_candidates(input: &str, extension: &str, home: Option<&str>) -> (r: Vec<String>)
    ensures
        views(r@) == ext_cands(input@, extension@, home_view(home)),
{
    let tokens = tokenize_path_candidates(input);
    let ghost tv = views(tokens@);
    let mut picked: Vec<String> = Vec::new();
    let mut i: usize = 0;
    while i < tokens.len()
        invariant
            tv == views(tokens@),
            tv == tokens_spec(input@),
            0 <= i <= tokens@.len(),
            views(picked@) == ext_tokens(tv.take(i as int), extension@),
        decreases tokens@.len() - i,
    {
        assert(tv.take(i + 1).drop_last() =~= tv.take(i as int));
        assert(tv.take(i + 1).last() == tokens@[i as int]@);
        let ghost before = views(picked@);
        let lower = to_lowercase(tokens[i].as_str());
        if str_contains(lower.as_str(), extension) {
            let t = owned(tokens[i].as_str());
            picked.push(t);
            assert(views(picked@) =~= before.push(tokens@[i as int]@));
        }
        i = i + 1;
    }
    assert(tv.take(tokens@.len() as int) =~= tv);
    media_candidates(picked.as_slice(), home)
}

/// The first existing media file named by a token of `input` that mentions
/// `extension` (compared lower-cased): the first of `ext_candidates` that the disk has.
pub fn extract_path_with_extension(input: &str, extension: &str, home: Option<&str>) -> (r: Option<String>)
    ensures
        r matches Some(p) ==> ext_cands(input@, extension@, home_view(home)).contains(p@),
        ext_cands(input@, extension@, home_view(home)).len() == 0 ==> r is None,
{
    let cands = ext_candidates(input, extension, home);
    first_existing_path(&cands)
}

/// The known media extensions in the order the Qt source search tries them.
pub open spec fn media_ext_list() -> Seq<Seq<char>> {
    seq![
        "png"@, "jpg"@, "jpeg"@, "bmp"@, "webp"@, "gif"@, "mp4"@, "webm"@, "mkv"@, "mov"@,
        "avi"@, "avif"@, "heif"@, "heic"@,
    ]
}

/// The media paths a Qt process line names, for the first `k` known
/// extensions in turn: those named by tokens that mention `.ext`.
pub open spec fn qt_cands(line: Seq<char>, home: Option<Seq<char>>, k: int) -> Seq<Seq<char>>
    decreases k,
{
    if k <= 0 {
        Seq::empty()
    } else {
        qt_cands(line, home, k - 1) + ext_cands(line, seq!['.'] + media_ext_list()[k - 1], home)
    }
}

/// The candidates of a Qt multimedia process line, in order (see `qt_cands`
/// over all 14 extensions).
pub fn qt_candidates(proc_line: &str, home: Option<&str>) -> (r: Vec<String>)
    ensures
        views(r@) == qt_cands(proc_line@, home_view(home), 14),
{
    let exts: [&str; 14] = [
        "png", "jpg", "jpeg", "bmp", "webp", "gif", "mp4", "webm", "mkv", "mov", "avi", "avif",
        "heif", "heic",
    ];
    assert(exts@.map_values(|e: &str| e@) =~= media_ext_list());
    let mut out: Vec<String> = Vec::new();
    let mut k: usize = 0;
    while k < 14
        invariant
            0 <= k <= 14,
            exts@.len() == 14,
            exts@.map_values(|e: &str| e@) =~= media_ext_list(),
            views(out@) == qt_cands(proc_line@, home_view(home), k as int),
        decreases 14 - k,
    {
        let mut dot: Vec<char> = Vec::new();
        dot.push('.');
        crate::paths::extend_chars(&mut dot, chars_of(exts[k]).as_slice());
        let dot_ext = string_from_chars(dot.as_slice());
        assert(exts@[k as int]@ == media_ext_list()[k as int]);
        assert(dot_ext@ =~= seq!['.'] + media_ext_list()[k as int]);
        let ghost before = views(out@);
        let mut sub = ext_candidates(proc_line, dot_ext.as_str(), home);
        let ghost sv = views(sub@);
        out.append(&mut sub);
        assert(views(out@) =~= before + sv);
        k = k + 1;
    }
    out
}

/// The media file a Qt multimedia process line names: for each known extension
/// in turn, the media files named by tokens mentioning `.ext`; the first of
/// these that exists on disk.
pub fn extract_qt_multimedia_source(proc_line: &str, home: Option<&str>) -> (r: Option<String>)
    ensures
        r matches Some(p) ==> qt_cands(proc_line@, home_view(home), 14).contains(p@),
        qt_cands(proc_line@, home_view(home), 14).len() == 0 ==> r is None,
{
    let cands = qt_candidates(proc_line, home);
    first_existing_path(&cands)
}

/// A process that may draw the wallpaper, with the media files it shows.
#[derive(Debug, Clone)]
pub struct BackgroundProcessInfo {
    pub pid: i32,
    pub process_name: String,
    pub args: Vec<String>,
    pub cwd: Option<String>,
    pub media_files: Vec<String>,
    pub open_files: Vec<String>,
    pub uses_qt_multimedia: bool,
}

/// The first media file of the first process that has one.
pub open spec fn first_media_spec(infos: Seq<BackgroundProcessInfo>) -> Option<Seq<char>>
    decreases infos.len(),
{
    if infos.len() == 0 {
        None
    } else if infos[0].media_files@.len() > 0 {
        Some(infos[0].media_files@[0]@)
    } else {
        first_media_spec(infos.drop_first())
    }
}

/// The wallpaper from a scan of background processes: the first media file of
/// the first process that shows one.
pub fn from_layer_background_scan(processes: &[BackgroundProcessInfo]) -> (r: Option<String>)
    ensures
        match first_media_spec(processes@) {
            Some(p) => r matches Some(x) && x@ == p,
            None => r is None,
        },
{
    let mut j: usize = 0;
    assert(processes@.skip(0) =~= processes@);
    while j < processes.len()
        invariant
            0 <= j <= processes@.len(),
            first_media_spec(processes@) == first_media_spec(processes@.skip(j as int)),
        decreases processes@.len() - j,
    {
        proof {
            assert(processes@.skip(j as int).drop_first() =~= processes@.skip(j + 1));
            assert(processes@.skip(j as int)[0] == processes@[j as int]);
        }
        if processes[j].media_files.len() > 0 {
            return Some(string_from_chars(chars_of(processes[j].media_files[0].as_str()).as_slice()));
        }
        j = j + 1;
    }
    assert(processes@.skip(j as int) =~= Seq::<BackgroundProcessInfo>::empty());
    None
}

/// The process names of known wallpaper daemons and shells.
pub open spec fn known_wallpaper_processes() -> Seq<&'static str> {
    seq![
        "mpvpaper", "awww", "awww-daemon", "hyprpaper", "swaybg", "wpaperd", "waypaper",
        "waytrogen", "hpaper", "walt", "wlsbg", "wallrizz", "ambxst", "quickshell", "qmlscene",
        "qml",
    ]
}

/// Names that hint at a Qt multimedia wallpaper.
pub open spec fn qt_multimedia_patterns() -> Seq<&'static str> {
    seq!["ambxst", "qml", "qmlscene", "quickshell", "qtmultimedia", "qt5-multimedia", "qt6-multimedia"]
}

/// A process is kept by the background scan: it mentions a known wallpaper
/// process or a Qt multimedia pattern, or maps Qt multimedia.
pub open spec fn is_background_candidate(p: ProcSnapshot) -> bool {
    proc_mentions(known_wallpaper_processes(), p) || proc_mentions(qt_multimedia_patterns(), p)
        || p.uses_qt_multimedia
}

/// What a background process's own arguments and open files offer: the
/// media paths its arguments name, then its open media files.
pub open spec fn background_cands(snap: ProcSnapshot, home: Option<Seq<char>>) -> Seq<Seq<char>> {
    media_cands(views(snap.args@), home) + media_file_cands(views(snap.open_files@))
}

/// `m` is `direct` in ascending order of path components, each path once
/// (see `sort_unique_paths`).
pub open spec fn sorted_unique_of(m: Seq<Seq<char>>, direct: Seq<Seq<char>>) -> bool {
    &&& crate::order::sorted_names(crate::order::path_keys(m))
    &&& forall|k: int| 0 <= k < m.len() ==> direct.contains(#[trigger] m[k])
    &&& forall|j: int| 0 <= j < direct.len() ==> crate::order::path_keys(m).contains(crate::order::path_key(#[trigger] direct[j]))
}

/// The background-scan entry for one process, or `None` when the process is
/// not a candidate. Its media files are those of `background_cands` that exist
/// on disk (the disk is asked about each), sorted by path with repeats removed;
/// when none exists, the source named in its joined arguments by a media
/// extension (see `extract_qt_multimedia_source`).
pub fn layer_background_entry(snap: &ProcSnapshot, home: Option<&str>) -> (r: Option<BackgroundProcessInfo>)
    ensures
        r is Some <==> is_background_candidate(*snap),
        r matches Some(info) ==> {
            &&& info.pid == snap.pid
            &&& info.process_name@ == snap.comm@
            &&& views(info.args@) == views(snap.args@)
            &&& views(info.open_files@) == views(snap.open_files@)
            &&& info.uses_qt_multimedia == snap.uses_qt_multimedia
            &&& crate::text::opt_string_view(info.cwd) == crate::text::opt_string_view(snap.cwd)
            &&& exists|ex: Seq<bool>| {
                let direct = #[trigger] keep_true(background_cands(*snap, home_view(home)), ex);
                &&& ex.len() == background_cands(*snap, home_view(home)).len()
                &&& direct.len() > 0 ==> sorted_unique_of(views(info.media_files@), direct)
                &&& direct.len() == 0 ==> info.media_files@.len() <= 1 && forall|k: int| 0 <= k < info.media_files@.len()
                    ==> qt_cands(joined_args(*snap), home_view(home), 14).contains((#[trigger] info.media_files@[k])@)
            }
        },
{
    let known: [&str; 16] = [
        "mpvpaper", "awww", "awww-daemon", "hyprpaper", "swaybg", "wpaperd", "waypaper",
        "waytrogen", "hpaper", "walt", "wlsbg", "wallrizz", "ambxst", "quickshell", "qmlscene",
        "qml",
    ];
    let qt: [&str; 7] = ["ambxst", "qml", "qmlscene", "quickshell", "qtmultimedia", "qt5-multimedia", "qt6-multimedia"];
    assert(known@ =~= known_wallpaper_processes());
    assert(qt@ =~= qt_multimedia_patterns());
    let is_known = process_mentions(known.as_slice(), snap);
    let qt_match = process_mentions(qt.as_slice(), snap);
    if !is_known && !qt_match && !snap.uses_qt_multimedia {
        return None;
    }
    let mut cands = media_candidates(snap.args.as_slice(), home);
    let mut open_media = media_file_candidates(snap.open_files.as_slice());
    let ghost c1 = views(cands@);
    let ghost c2 = views(open_media@);
    cands.append(&mut open_media);
    assert(views(cands@) =~= background_cands(*snap, home_view(home))) by {
        assert(views(cands@) =~= c1 + c2);
    }
    let ex = all_existence_answers(&cands);
    let direct = keep_existing(&cands, &ex);
    let mut media: Vec<String>;
    if direct.len() == 0 {
        media = Vec::new();
        let joined = crate::text::join_with_space(snap.args.as_slice());
        if let Some(source) = extract_qt_multimedia_source(joined.as_str(), home) {
            media.push(source);
        }
    } else {
        media = crate::order::sort_unique_paths(direct.as_slice());
    }
    let info = BackgroundProcessInfo {
        pid: snap.pid,
        process_name: string_from_chars(chars_of(snap.comm.as_str()).as_slice()),
        args: copy_strings(snap.args.as_slice()),
        cwd: match &snap.cwd {
            Some(c) => Some(string_from_chars(chars_of(c.as_str()).as_slice())),
            None => None,
        },
        media_files: media,
        open_files: copy_strings(snap.open_files.as_slice()),
        uses_qt_multimedia: snap.uses_qt_multimedia,
    };
    assert(keep_true(background_cands(*snap, home_view(home)), ex@) == views(direct@));
    Some(info)
}

/// A copy of a list of strings.
pub fn copy_strings(v: &[String]) -> (r: Vec<String>)
    ensures
        views(r@) == views(v@),
{
    let mut out: Vec<String> = Vec::new();
    let mut i: usize = 0;
    while i < v.len()
        invariant
            0 <= i <= v@.len(),
            views(out@) =~= views(v@.take(i as int)),
        decreases v@.len() - i,
    {
        let c = string_from_chars(chars_of(v[i].as_str()).as_slice());
        let ghost before = out@;
        out.push(c);
        assert(out@ =~= before.push(c));
        assert(v@.take(i + 1) =~= v@.take(i as int).push(v@[i as int]));
        assert(views(before.push(c)) =~= views(before).push(c@));
        assert(views(v@.take(i as int).push(v@[i as int])) =~= views(v@.take(i as int)).push(v@[i as int]@));
        i = i + 1;
        assert(views(out@) =~= views(v@.take(i as int)));
    }
    assert(v@.take(v@.len() as int) =~= v@);
    out
}

/// Some process of `procs` mentions `needle` in its command name or joined
/// arguments, all compared lower-cased.
pub open spec fn proc_has(procs: Seq<ProcSnapshot>, needle: Seq<char>) -> bool {
    exists|j: int|
        0 <= j < procs.len() && (contains_seq(spec_lowercase((#[trigger] procs[j]).comm@), spec_lowercase(needle))
            || contains_seq(spec_lowercase(joined_args(procs[j])), spec_lowercase(needle)))
}

/// Whether some process mentions `needle` (see `proc_has`).
pub fn process_exists(needle: &str, procs: &[ProcSnapshot]) -> (r: bool)
    ensures
        r == proc_has(procs@, needle@),
{
    let needle_lc = to_lowercase(needle);
    let mut j: usize = 0;
    while j < procs.len()
        invariant
            0 <= j <= procs@.len(),
            needle_lc@ == spec_lowercase(needle@),
            forall|q: int| 0 <= q < j ==> !(contains_seq(spec_lowercase((#[trigger] procs@[q]).comm@), spec_lowercase(needle@))
                || contains_seq(spec_lowercase(joined_args(procs@[q])), spec_lowercase(needle@))),
        decreases procs@.len() - j,
    {
        let comm_lc = to_lowercase(procs[j].comm.as_str());
        let joined = crate::text::join_with_space(procs[j].args.as_slice());
        let args_lc = to_lowercase(joined.as_str());
        if str_contains(comm_lc.as_str(), needle_lc.as_str()) || str_contains(args_lc.as_str(), needle_lc.as_str()) {
            return true;
        }
        j = j + 1;
    }
    false
}

/// The Wayland-related environment variables of the session.
#[derive(Debug, Clone)]
pub struct WaylandEnvironment {
    pub xdg_current_desktop: Option<String>,
    pub wayland_display: Option<String>,
    pub xdg_session_type: Option<String>,
    pub sway_sock: Option<String>,
    pub hyprland_instance_signature: Option<String>,
}

/// The text of an optional variable, empty when unset.
pub open spec fn opt_text(o: Option<String>) -> Seq<char> {
    match o {
        Some(s) => s@,
        None => Seq::empty(),
    }
}

/// The compositor named by a running process, tried in this order, for
/// sessions that have a Wayland display.
pub open spec fn compositor_from_processes(procs: Seq<ProcSnapshot>) -> Option<Seq<char>> {
    if proc_has(procs, "hyprland"@) {
        Some("Hyprland"@)
    } else if proc_has(procs, "sway"@) {
        Some("Sway"@)
    } else if proc_has(procs, "cosmic-comp"@) {
        Some("COSMIC"@)
    } else if proc_has(procs, "kwin_wayland"@) {
        Some("KDE Plasma Wayland"@)
    } else if proc_has(procs, "gnome-shell"@) {
        Some("GNOME Wayland"@)
    } else if proc_has(procs, "labwc"@) {
        Some("Labwc"@)
    } else if proc_has(procs, "river"@) {
        Some("River"@)
    } else if proc_has(procs, "wayfire"@) {
        Some("Wayfire"@)
    } else if proc_has(procs, "niri"@) {
        Some("niri"@)
    } else {
        None
    }
}

/// The compositor that runs, from the session environment and the processes.
pub open spec fn compositor_spec(env: WaylandEnvironment, procs: Seq<ProcSnapshot>) -> Option<Seq<char>> {
    let desktop = spec_lowercase(opt_text(env.xdg_current_desktop));
    let session = spec_lowercase(opt_text(env.xdg_session_type));
    if env.hyprland_instance_signature is Some || contains_seq(desktop, "hypr"@) {
        Some("Hyprland"@)
    } else if env.sway_sock is Some || contains_seq(desktop, "sway"@) {
        Some("Sway"@)
    } else if contains_seq(desktop, "cosmic"@) || proc_has(procs, "cosmic-comp"@) {
        Some("COSMIC"@)
    } else if contains_seq(desktop, "plasma"@) || contains_seq(desktop, "kde"@) || proc_has(procs, "kwin_wayland"@) {
        Some("KDE Plasma Wayland"@)
    } else if (contains_seq(desktop, "gnome"@) && session == "wayland"@) || proc_has(procs, "gnome-shell-wayland"@)
        || (proc_has(procs, "gnome-shell"@) && session == "wayland"@) {
        Some("GNOME Wayland"@)
    } else if contains_seq(desktop, "labwc"@) || proc_has(procs, "labwc"@) {
        Some("Labwc"@)
    } else if contains_seq(desktop, "river"@) || proc_has(procs, "river"@) {
        Some("River"@)
    } else if contains_seq(desktop, "wayfire"@) || proc_has(procs, "wayfire"@) {
        Some("Wayfire"@)
    } else if contains_seq(desktop, "niri"@) || proc_has(procs, "niri"@) {
        Some("niri"@)
    } else if proc_has(procs, "miriway"@) || proc_has(procs, "miral-shell"@) || proc_has(procs, "ubuntu-frame"@)
        || proc_has(procs, "mir-kiosk"@) {
        Some("Mir-based compositor"@)
    } else if env.wayland_display is Some {
        compositor_from_processes(procs)
    } else {
        None
    }
}

/// The session is a Wayland session (`XDG_SESSION_TYPE`, compared lower-cased).
pub open spec fn wayland_session(env: WaylandEnvironment) -> bool {
    spec_lowercase(opt_text(env.xdg_session_type)) == "wayland"@
}

/// GNOME is reported as a Wayland compositor only with evidence of Wayland:
/// the session type is `wayland`, a `gnome-shell-wayland` process runs, or a
/// Wayland display is set and `gnome-shell` runs. A GNOME desktop on an X11
/// session without such a process is not reported. And a GNOME desktop on a
/// Wayland session is reported as GNOME unless Hyprland, Sway, COSMIC or KDE
/// was recognised first.
pub proof fn law_gnome_needs_wayland(env: WaylandEnvironment, procs: Seq<ProcSnapshot>)
    ensures
        compositor_spec(env, procs) == Some("GNOME Wayland"@) ==> wayland_session(env) || proc_has(procs, "gnome-shell-wayland"@)
            || (env.wayland_display is Some && proc_has(procs, "gnome-shell"@)),
        ({
            let desktop = spec_lowercase(opt_text(env.xdg_current_desktop));
            &&& contains_seq(desktop, "gnome"@) && wayland_session(env)
            &&& env.hyprland_instance_signature is None && !contains_seq(desktop, "hypr"@)
            &&& env.sway_sock is None && !contains_seq(desktop, "sway"@)
            &&& !contains_seq(desktop, "cosmic"@) && !proc_has(procs, "cosmic-comp"@)
            &&& !contains_seq(desktop, "plasma"@) && !contains_seq(desktop, "kde"@) && !proc_has(procs, "kwin_wayland"@)
        }) ==> compositor_spec(env, procs) == Some("GNOME Wayland"@),
{
    reveal_strlit("GNOME Wayland");
    reveal_strlit("Hyprland");
    reveal_strlit("Sway");
    reveal_strlit("COSMIC");
    reveal_strlit("KDE Plasma Wayland");
    reveal_strlit("Labwc");
    reveal_strlit("River");
    reveal_strlit("Wayfire");
    reveal_strlit("niri");
    reveal_strlit("Mir-based compositor");
    let g = "GNOME Wayland"@;
    assert(g.len() == 13);
    assert("Hyprland"@ != g && "Sway"@ != g && "COSMIC"@ != g && "KDE Plasma Wayland"@ != g);
    assert("Labwc"@ != g && "River"@ != g && "Wayfire"@ != g && "niri"@ != g && "Mir-based compositor"@ != g);
    if compositor_from_processes(procs) == Some(g) {
        assert(proc_has(procs, "gnome-shell"@));
    }
}

fn label(s: &str) -> (r: Option<String>)
    ensures
        r matches Some(x) && x@ == s@,
{
    Some(owned(s))
}

fn compositor_by_process(procs: &[ProcSnapshot]) -> (r: Option<String>)
    ensures
        match compositor_from_processes(procs@) {
            Some(l) => r matches Some(x) && x@ == l,
            None => r is None,
        },
{
    if process_exists("hyprland", procs) {
        label("Hyprland")
    } else if process_exists("sway", procs) {
        label("Sway")
    } else if process_exists("cosmic-comp", procs) {
        label("COSMIC")
    } else if process_exists("kwin_wayland", procs) {
        label("KDE Plasma Wayland")
    } else if process_exists("gnome-shell", procs) {
        label("GNOME Wayland")
    } else if process_exists("labwc", procs) {
        label("Labwc")
    } else if process_exists("river", procs) {
        label("River")
    } else if process_exists("wayfire", procs) {
        label("Wayfire")
    } else if process_exists("niri", procs) {
        label("niri")
    } else {
        None
    }
}

fn lower_opt(o: &Option<String>) -> (r: String)
    ensures
        r@ == spec_lowercase(opt_text(*o)),
{
    match o {
        Some(s) => to_lowercase(s.as_str()),
        None => {
            proof {
                reveal_strlit("");
            }
            assert(""@ =~= Seq::<char>::empty());
            to_lowercase("")
        },
    }
}

/// The compositor of the session (see `compositor_spec`): Hyprland and Sway by
/// their environment, the others by the desktop name or a running process.
pub fn detect_compositor(env_info: &WaylandEnvironment, procs: &[ProcSnapshot]) -> (r: Option<String>)
    ensures
        match compositor_spec(*env_info, procs@) {
            Some(l) => r matches Some(x) && x@ == l,
            None => r is None,
        },
        r matches Some(x) && x@ == "GNOME Wayland"@ ==> wayland_session(*env_info) || proc_has(procs@, "gnome-shell-wayland"@)
            || (env_info.wayland_display is Some && proc_has(procs@, "gnome-shell"@)),
{
    proof {
        law_gnome_needs_wayland(*env_info, procs@);
    }
    detect_compositor_from(env_info, procs)
}

fn detect_compositor_from(env_info: &WaylandEnvironment, procs: &[ProcSnapshot]) -> (r: Option<String>)
    ensures
        match compositor_spec(*env_info, procs@) {
            Some(l) => r matches Some(x) && x@ == l,
            None => r is None,
        },
{
    let desktop = lower_opt(&env_info.xdg_current_desktop);
    let session = lower_opt(&env_info.xdg_session_type);
    let d = desktop.as_str();
    let is_wayland_session = str_eq(session.as_str(), "wayland");
    if env_info.hyprland_instance_signature.is_some() || str_contains(d, "hypr") {
        return label("Hyprland");
    }
    if env_info.sway_sock.is_some() || str_contains(d, "sway") {
        return label("Sway");
    }
    if str_contains(d, "cosmic") || process_exists("cosmic-comp", procs) {
        return label("COSMIC");
    }
    if str_contains(d, "plasma") || str_contains(d, "kde") || process_exists("kwin_wayland", procs) {
        return label("KDE Plasma Wayland");
    }
    if (str_contains(d, "gnome") && is_wayland_session) || process_exists("gnome-shell-wayland", procs)
        || (process_exists("gnome-shell", procs) && is_wayland_session) {
        return label("GNOME Wayland");
    }
    if str_contains(d, "labwc") || process_exists("labwc", procs) {
        return label("Labwc");
    }
    if str_contains(d, "river") || process_exists("river", procs) {
        return label("River");
    }
    if str_contains(d, "wayfire") || process_exists("wayfire", procs) {
        return label("Wayfire");
    }
    if str_contains(d, "niri") || process_exists("niri", procs) {
        return label("niri");
    }
    if process_exists("miriway", procs) || process_exists("miral-shell", procs) || process_exists("ubuntu-frame", procs)
        || process_exists("mir-kiosk", procs) {
        return label("Mir-based compositor");
    }
    if env_info.wayland_display.is_some() {
        return compositor_by_process(procs);
    }
    None
}

/// Some line of a `/proc/<pid>/maps` text, lower-cased, names a Qt multimedia
/// library (it contains both `libqt` and `multimedia`).
pub open spec fn maps_qt_spec(content: Seq<char>) -> bool {
    exists|j: int|
        0 <= j < lines_spec(content).len() && contains_seq(spec_lowercase(#[trigger] lines_spec(content)[j]), "libqt"@)
            && contains_seq(spec_lowercase(lines_spec(content)[j]), "multimedia"@)
}

/// Whether a process's memory maps show Qt multimedia (see `maps_qt_spec`).
pub fn maps_use_qt_multimedia(content: &str) -> (r: bool)
    ensures
        r == maps_qt_spec(content@),
{
    let lines = lines_of(content);
    let ghost lv = views(lines@);
    let mut j: usize = 0;
    while j < lines.len()
        invariant
            lv == views(lines@),
            lv == lines_spec(content@),
            0 <= j <= lines@.len(),
            forall|q: int| 0 <= q < j ==> !(contains_seq(spec_lowercase(#[trigger] lv[q]), "libqt"@)
                && contains_seq(spec_lowercase(lv[q]), "multimedia"@)),
        decreases lines@.len() - j,
    {
        assert(lv[j as int] == lines@[j as int]@);
        let l = to_lowercase(lines[j].as_str());
        if str_contains(l.as_str(), "libqt") && str_contains(l.as_str(), "multimedia") {
            return true;
        }
        j = j + 1;
    }
    false
}

/// The last of `words[1..]` that does not start with `-`.
pub open spec fn last_plain_word(words: Seq<Seq<char>>) -> Option<Seq<char>>
    decreases words.len(),
{
    if words.len() <= 1 {
        None
    } else if !starts_with_seq(words.last(), "-"@) {
        Some(words.last())
    } else {
        last_plain_word(words.drop_last())
    }
}

/// What one line of `pgrep -a mpvpaper` gives: the process id (its first
/// word) and the media argument (its last later word that is not a flag);
/// `None` when either is missing.
pub open spec fn mpvpaper_line(line: Seq<char>) -> Option<(int, Seq<char>)> {
    let words = split_pieces(line, CharClass::Whitespace, false);
    if words.len() == 0 {
        None
    } else {
        match crate::daemon::parse_i32_spec(words[0]) {
            Some(pid) => match last_plain_word(words) {
                Some(m) => Some((pid, m)),
                None => None,
            },
            None => None,
        }
    }
}

#[verifier::loop_isolation(false)]
fn mpvpaper_line_exec(line: &str) -> (r: Option<(i32, String)>)
    ensures
        match mpvpaper_line(line@) {
            Some((pid, m)) => r matches Some((p, x)) && p == pid && x@ == m,
            None => r is None,
        },
{
    let words = split_by(line, CharClass::Whitespace, false);
    let ghost wv = views(words@);
    if words.len() == 0 {
        return None;
    }
    assert(wv[0] == words@[0]@);
    let pid = match crate::daemon::parse_i32(words[0].as_str()) {
        Some(p) => p,
        None => return None,
    };
    let mut k: usize = words.len();
    assert(wv.take(k as int) =~= wv);
    while k > 1
        invariant
            wv == views(words@),
            1 <= k <= words@.len(),
            last_plain_word(wv) == last_plain_word(wv.take(k as int)),
        decreases k,
    {
        let ghost t = wv.take(k as int);
        assert(t.last() == words@[k - 1]@);
        assert(t.drop_last() =~= wv.take(k - 1));
        if !str_starts_with(words[k - 1].as_str(), "-") {
            return Some((pid, owned(words[k - 1].as_str())));
        }
        k = k - 1;
    }
    None
}

/// The (process id, media argument) pairs of the leading lines of a
/// `pgrep -a mpvpaper` listing, up to the first line that gives none.
pub open spec fn mpv_entries(lines: Seq<Seq<char>>) -> Seq<(int, Seq<char>)>
    decreases lines.len(),
{
    if lines.len() == 0 {
        Seq::empty()
    } else {
        match mpvpaper_line(lines[0]) {
            Some(e) => seq![e] + mpv_entries(lines.skip(1)),
            None => Seq::empty(),
        }
    }
}

proof fn lemma_mpv_entries(lines: Seq<Seq<char>>, j: int)
    requires
        0 <= j <= lines.len(),
        forall|k: int| 0 <= k < j ==> (#[trigger] mpvpaper_line(lines[k])) is Some,
        j == lines.len() || mpvpaper_line(lines[j]) is None,
    ensures
        mpv_entries(lines) =~= Seq::new(j as nat, |k: int| mpvpaper_line(lines[k])->0),
    decreases j,
{
    if j > 0 {
        let rest = lines.skip(1);
        assert forall|k: int| 0 <= k < j - 1 implies (#[trigger] mpvpaper_line(rest[k])) is Some by {
            assert(rest[k] == lines[k + 1]);
            assert(mpvpaper_line(lines[k + 1]) is Some);
        }
        if j < lines.len() {
            assert(rest[j - 1] == lines[j]);
        }
        lemma_mpv_entries(rest, j - 1);
        assert(mpvpaper_line(lines[0]) is Some);
        assert forall|k: int| 0 <= k < j implies mpv_entries(lines)[k] == mpvpaper_line(lines[k])->0 by {
            if k > 0 {
                assert(rest[k - 1] == lines[k]);
            }
        }
    }
}

/// The mpvpaper playback a `pgrep -a mpvpaper` listing shows: of the entries
/// of `mpv_entries` (the leading lines that give a process id and a media
/// argument), the first whose media argument exists on disk.
pub fn mpvpaper_playback(pgrep_stdout: &str) -> (r: Option<(i32, String)>)
    ensures
        r matches Some((p, m)) ==> mpv_entries(lines_spec(pgrep_stdout@)).contains((p as int, m@)),
        mpv_entries(lines_spec(pgrep_stdout@)).len() == 0 ==> r is None,
{
    let lines = lines_of(pgrep_stdout);
    let ghost lv = views(lines@);
    let mut pids: Vec<i32> = Vec::new();
    let mut medias: Vec<String> = Vec::new();
    let mut j: usize = 0;
    while j < lines.len()
        invariant_except_break
            lv == views(lines@),
            lv == lines_spec(pgrep_stdout@),
            0 <= j <= lines@.len(),
            pids@.len() == j,
            medias@.len() == j,
            forall|k: int| 0 <= k < j ==> (#[trigger] mpvpaper_line(lv[k])) is Some,
            forall|k: int| 0 <= k < j ==> mpvpaper_line(lv[k]) == Some((#[trigger] pids@[k] as int, medias@[k]@)),
        ensures
            lv == lines_spec(pgrep_stdout@),
            0 <= j <= lines@.len(),
            pids@.len() == j,
            medias@.len() == j,
            forall|k: int| 0 <= k < j ==> (#[trigger] mpvpaper_line(lv[k])) is Some,
            forall|k: int| 0 <= k < j ==> mpvpaper_line(lv[k]) == Some((#[trigger] pids@[k] as int, medias@[k]@)),
            j == lines@.len() || mpvpaper_line(lv[j as int]) is None,
        decreases lines@.len() - j,
    {
        assert(lv[j as int] == lines@[j as int]@);
        match mpvpaper_line_exec(lines[j].as_str()) {
            Some((pid, media)) => {
                pids.push(pid);
                medias.push(media);
            },
            None => {
                break;
            },
        }
        j = j + 1;
    }
    proof {
        lemma_mpv_entries(lv, j as int);
    }
    let ex = existence_answers(&medias);
    match pick_first_existing(&medias, &ex) {
        Some(i) => {
            let m = owned(medias[i].as_str());
            assert(mpv_entries(lv)[i as int] == (pids@[i as int] as int, m@));
            Some((pids[i], m))
        },
        None => None,
    }
}

} // verus!
