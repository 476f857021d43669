//! Path strings: the calls into `std::path` and `urlencoding` that path handling
//! needs, the joining and tilde expansion of path strings, and the
//! normalisation of raw path text found in arguments and config files.

use vstd::prelude::*;
use crate::text::{
    CharClass, chars_of, string_from_chars, starts_with_seq, strip_all_prefix, trim, trim_by,
    trim_chars_by, trim_start_matches_str, str_starts_with,
};

verus! {

/// Whether something exists at path `p` (`std::path::Path::exists`).
/// It depends on what is on disk, so nothing is stated of it.
#[verifier::external_body]
pub(crate) fn path_exists(p: &str) -> (r: bool) {
    std::path::Path::new(p).exists()
}

/// What `urlencoding::decode` gives for `s`: the percent-decoded text, or
/// `None` when the decoded bytes are not UTF-8.
pub uninterp spec fn spec_url_decode(s: Seq<char>) -> Option<Seq<char>>;

/// `urlencoding::decode(s)`, owned. Its source returns the input unchanged
/// when it holds no `%`.
#[verifier::external_body]
pub(crate) fn url_decode(s: &str) -> (r: Option<String>)
    ensures
        match r {
            Some(x) => spec_url_decode(s@) == Some(x@),
            None => spec_url_decode(s@) is None,
        },
        !s@.contains('%') ==> (r is Some && r->0@ == s@),
{
    urlencoding::decode(s).ok().map(|c| c.into_owned())
}

/// What `Path::extension` gives for path `p` (as UTF-8 text).
pub uninterp spec fn spec_path_extension(p: Seq<char>) -> Option<Seq<char>>;

/// `Path::new(p).extension()` as a string.
#[verifier::external_body]
pub(crate) fn path_extension(p: &str) -> (r: Option<String>)
    ensures
        match r {
            Some(x) => spec_path_extension(p@) == Some(x@),
            None => spec_path_extension(p@) is None,
        },
{
    std::path::Path::new(p).extension().map(|e| e.to_string_lossy().into_owned())
}

/// What `Path::file_stem` gives for path `p` (as UTF-8 text).
pub uninterp spec fn spec_path_file_stem(p: Seq<char>) -> Option<Seq<char>>;

/// `Path::new(p).file_stem()` as a string.
#[verifier::external_body]
pub(crate) fn path_file_stem(p: &str) -> (r: Option<String>)
    ensures
        match r {
            Some(x) => spec_path_file_stem(p@) == Some(x@),
            None => spec_path_file_stem(p@) is None,
        },
{
    std::path::Path::new(p).file_stem().map(|e| e.to_string_lossy().into_owned())
}

/// What `Path::parent` gives for path `p`.
pub uninterp spec fn spec_path_parent(p: Seq<char>) -> Option<Seq<char>>;

/// `Path::new(p).parent()` as a string.
#[verifier::external_body]
pub(crate) fn path_parent(p: &str) -> (r: Option<String>)
    ensures
        match r {
            Some(x) => spec_path_parent(p@) == Some(x@),
            None => spec_path_parent(p@) is None,
        },
{
    std::path::Path::new(p).parent().map(|e| e.to_string_lossy().into_owned())
}

/// `base.join(rest)` on Unix path strings: an absolute `rest` replaces `base`;
/// otherwise `rest` is appended, with a `/` in between unless `base` is empty
/// or already ends with one.
pub open spec fn join_spec(base: Seq<char>, rest: Seq<char>) -> Seq<char> {
    if rest.len() > 0 && rest[0] == '/' {
        rest
    } else if base.len() > 0 && base.last() != '/' {
        base + seq!['/'] + rest
    } else {
        base + rest
    }
}

/// Appends the characters of `src` to `dst`.
pub fn extend_chars(dst: &mut Vec<char>, src: &[char])
    ensures
        final(dst)@ == old(dst)@ + src@,
{
    let ghost start = dst@;
    let mut i: usize = 0;
    while i < src.len()
        invariant
            0 <= i <= src@.len(),
            dst@ == start + src@.take(i as int),
        decreases src@.len() - i,
    {
        dst.push(src[i]);
        i = i + 1;
        assert(dst@ =~= start + src@.take(i as int));
    }
    assert(src@.take(src@.len() as int) =~= src@);
}

/// `PathBuf::from(base).join(rest)` as a string (see `join_spec`).
pub fn join_path(base: &str, rest: &str) -> (r: String)
    ensures
        r@ == join_spec(base@, rest@),
{
    let b = chars_of(base);
    let x = chars_of(rest);
    if x.len() > 0 && x[0] == '/' {
        return string_from_chars(x.as_slice());
    }
    let mut out = b.clone();
    assert(out@ == b@);
    if b.len() > 0 && b[b.len() - 1] != '/' {
        out.push('/');
    }
    extend_chars(&mut out, x.as_slice());
    string_from_chars(out.as_slice())
}

/// Raw path text with surrounding whitespace, then double quotes, then single
/// quotes removed.
pub open spec fn cleaned(raw: Seq<char>) -> Seq<char> {
    trim_by(trim_by(trim(raw), CharClass::Is('"')), CharClass::Is('\''))
}

/// `raw.trim().trim_matches('"').trim_matches('\'')`.
pub fn clean_path_text(raw: &str) -> (r: Vec<char>)
    ensures
        r@ == cleaned(raw@),
{
    let v = chars_of(raw);
    let a = trim_chars_by(v.as_slice(), CharClass::Whitespace);
    let b = trim_chars_by(a.as_slice(), CharClass::Is('"'));
    trim_chars_by(b.as_slice(), CharClass::Is('\''))
}

/// A path written with a leading `~/` resolved against `home` (all leading
/// `~/` removed, the rest joined to `home`); other text as it is.
pub open spec fn tilde_spec(v: Seq<char>, home: Option<Seq<char>>) -> Seq<char> {
    if starts_with_seq(v, "~/"@) && home is Some {
        join_spec(home->0, strip_all_prefix(v, "~/"@))
    } else {
        v
    }
}

fn expand_home(v: &str, home: Option<&str>) -> (r: String)
    ensures
        r@ == tilde_spec(v@, match home { Some(h) => Some(h@), None => None }),
{
    if str_starts_with(v, "~/") {
        if let Some(h) = home {
            let rest = trim_start_matches_str(v, "~/");
            return join_path(h, rest.as_str());
        }
    }
    string_from_chars(chars_of(v).as_slice())
}

/// The views of an optional home directory.
pub open spec fn home_view(home: Option<&str>) -> Option<Seq<char>> {
    match home {
        Some(h) => Some(h@),
        None => None,
    }
}

/// A path from raw text: cleaned of whitespace and quotes and with `~/`
/// resolved against `home`.
pub open spec fn normalize_path_spec(raw: Seq<char>, home: Option<Seq<char>>) -> Seq<char> {
    tilde_spec(cleaned(raw), home)
}

/// The path that raw text names (see `normalize_path_spec`).
pub fn normalize_path(raw: &str, home: Option<&str>) -> (r: String)
    ensures
        r@ == normalize_path_spec(raw@, home_view(home)),
{
    let c = clean_path_text(raw);
    let s = string_from_chars(c.as_slice());
    expand_home(s.as_str(), home)
}

/// `path` with a leading `~/` resolved against `home`, as `expand_tilde` does it.
pub fn expand_tilde(path: &str, home: Option<&str>) -> (r: String)
    ensures
        r@ == tilde_spec(path@, home_view(home)),
{
    expand_home(path, home)
}

/// The candidate path that raw text may name: cleaned of whitespace and
/// quotes; empty text names none; a `file://` prefix is removed and the rest
/// percent-decoded (text that does not decode names none); a leading `~/` is
/// resolved against `home`.
pub open spec fn candidate_spec(raw: Seq<char>, home: Option<Seq<char>>) -> Option<Seq<char>> {
    let v = cleaned(raw);
    if v.len() == 0 {
        None
    } else {
        let decoded = if starts_with_seq(v, "file://"@) {
            spec_url_decode(strip_all_prefix(v, "file://"@))
        } else {
            Some(v)
        };
        match decoded {
            None => None,
            Some(d) => Some(tilde_spec(d, home)),
        }
    }
}

/// The candidate path that raw text names, before any look at the disk.
pub fn media_path_candidate(raw: &str, home: Option<&str>) -> (r: Option<String>)
    ensures
        match r {
            Some(p) => candidate_spec(raw@, home_view(home)) == Some(p@),
            None => candidate_spec(raw@, home_view(home)) is None,
        },
{
    let c = clean_path_text(raw);
    if c.len() == 0 {
        return None;
    }
    let v = string_from_chars(c.as_slice());
    let decoded = if str_starts_with(v.as_str(), "file://") {
        let stripped = trim_start_matches_str(v.as_str(), "file://");
        match url_decode(stripped.as_str()) {
            Some(d) => d,
            None => return None,
        }
    } else {
        v
    };
    Some(expand_home(decoded.as_str(), home))
}

/// A configured directory with a leading `~/` (one, as `strip_prefix`
/// removes it) resolved against `home`; other paths as they are.
pub open spec fn tilde_once_spec(path: Seq<char>, home: Option<Seq<char>>) -> Seq<char> {
    if starts_with_seq(path, "~/"@) && home is Some {
        join_spec(home->0, path.skip(2))
    } else {
        path
    }
}

/// The directory a config option names, or `<home>/<default_rel>` when the
/// option is unset (nothing when there is no home either).
pub open spec fn config_dir_spec(configured: Option<Seq<char>>, home: Option<Seq<char>>, default_rel: Seq<char>) -> Option<Seq<char>> {
    match configured {
        Some(p) => Some(tilde_once_spec(p, home)),
        None => match home {
            Some(h) => Some(join_spec(h, default_rel)),
            None => None,
        },
    }
}

fn config_dir(configured: Option<&str>, home: Option<&str>, default_rel: &str) -> (r: Option<String>)
    ensures
        crate::text::opt_string_view(r) == config_dir_spec(crate::text::opt_view(configured), home_view(home), default_rel@),
{
    proof {
        reveal_strlit("~/");
    }
    match configured {
        Some(p) => {
            if str_starts_with(p, "~/") {
                if let Some(h) = home {
                    let v = chars_of(p);
                    let rest = crate::text::sub_chars(v.as_slice(), 2, v.len());
                    let rest_s = string_from_chars(rest.as_slice());
                    return Some(join_path(h, rest_s.as_str()));
                }
            }
            Some(crate::text::owned(p))
        },
        None => match home {
            Some(h) => Some(join_path(h, default_rel)),
            None => None,
        },
    }
}

/// Where the X-ray layer images are looked for: the configured directory,
/// else `~/.config/cava-bg/Xray`.
pub fn resolve_xray_dir(configured: Option<&str>, home: Option<&str>) -> (r: Option<String>)
    ensures
        crate::text::opt_string_view(r) == config_dir_spec(crate::text::opt_view(configured), home_view(home), ".config/cava-bg/Xray"@),
{
    config_dir(configured, home, ".config/cava-bg/Xray")
}

/// Where wallpapers are looked for: the configured directory, else
/// `~/.config/cava-bg/wallpapers`.
pub fn resolve_wallpapers_dir(configured: Option<&str>, home: Option<&str>) -> (r: Option<String>)
    ensures
        crate::text::opt_string_view(r) == config_dir_spec(crate::text::opt_view(configured), home_view(home), ".config/cava-bg/wallpapers"@),
{
    config_dir(configured, home, ".config/cava-bg/wallpapers")
}

} // verus!
