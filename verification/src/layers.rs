//! Selection of the X-ray layer pair for a wallpaper among the files of the
//! layer directory, and the file-name rules behind it.

use vstd::prelude::*;
use crate::paths::{path_extension, path_file_stem, spec_path_extension, spec_path_file_stem};
use crate::text::{
    chars_of, spec_lowercase, starts_with_seq, str_eq, str_starts_with, string_from_chars,
    strip_all_suffix, to_lowercase, trim, trim_end_matches_str, trim_str, views,
};
use crate::paths::extend_chars;

verus! {

/// The file stem of `path`, trimmed; `None` when there is none or it is blank.
pub open spec fn basename_spec(path: Seq<char>) -> Option<Seq<char>> {
    match spec_path_file_stem(path) {
        Some(s) => if trim(s).len() == 0 {
            None
        } else {
            Some(trim(s))
        },
        None => None,
    }
}

/// The trimmed file stem of `path` (see `basename_spec`).
pub fn extract_basename(path: &str) -> (r: Option<String>)
    ensures
        match basename_spec(path@) {
            Some(b) => r matches Some(x) && x@ == b,
            None => r is None,
        },
{
    match path_file_stem(path) {
        Some(s) => {
            let t = trim_str(s.as_str());
            if t.as_str().is_empty() {
                None
            } else {
                Some(t)
            }
        },
        None => None,
    }
}

/// Whether a lower-cased extension is one of the layer file types.
pub open spec fn supported_ext_spec(e: Seq<char>) -> bool {
    ||| e == "png"@ || e == "jpg"@ || e == "jpeg"@ || e == "bmp"@ || e == "webp"@ || e == "gif"@
    ||| e == "apng"@ || e == "tiff"@ || e == "mp4"@ || e == "webm"@ || e == "mkv"@ || e == "avi"@
    ||| e == "mov"@ || e == "m4v"@ || e == "flv"@ || e == "wmv"@
}

/// A path is a layer file: its extension, lower-cased, is a supported one
/// (a path without extension is not).
pub open spec fn supported_layer_spec(path: Seq<char>) -> bool {
    match spec_path_extension(path) {
        Some(e) => supported_ext_spec(spec_lowercase(e)),
        None => supported_ext_spec(spec_lowercase(Seq::empty())),
    }
}

/// Whether `path` is a layer file (see `supported_layer_spec`).
pub fn is_supported_layer_file(path: &str) -> (r: bool)
    ensures
        r == supported_layer_spec(path@),
{
    let ext = match path_extension(path) {
        Some(e) => e,
        None => {
            let e = string_from_chars(Vec::<char>::new().as_slice());
            assert(e@ =~= Seq::<char>::empty());
            e
        },
    };
    let e = to_lowercase(ext.as_str());
    let s = e.as_str();
    str_eq(s, "png") || str_eq(s, "jpg") || str_eq(s, "jpeg") || str_eq(s, "bmp") || str_eq(s, "webp")
        || str_eq(s, "gif") || str_eq(s, "apng") || str_eq(s, "tiff") || str_eq(s, "mp4") || str_eq(s, "webm")
        || str_eq(s, "mkv") || str_eq(s, "avi") || str_eq(s, "mov") || str_eq(s, "m4v") || str_eq(s, "flv")
        || str_eq(s, "wmv")
}

/// How well a lower-cased file stem fits a lower-cased layer pattern such as
/// `sunset_base`: 0 for the pattern itself, 1 for the pattern followed by `_`
/// and more, 2 for the legacy name `<wallpaper>_<legacy_suffix>` (the pattern
/// without its trailing `_base`/`_reveal`), and no score otherwise.
pub open spec fn candidate_score_spec(stem: Seq<char>, pattern: Seq<char>, legacy: Seq<char>) -> Option<u8> {
    if stem == pattern {
        Some(0)
    } else if starts_with_seq(stem, pattern + seq!['_']) {
        Some(1)
    } else if stem == strip_all_suffix(strip_all_suffix(pattern, "_base"@), "_reveal"@) + seq!['_'] + legacy {
        Some(2)
    } else {
        None
    }
}

/// The score of a file stem for a layer pattern (see `candidate_score_spec`).
pub fn candidate_score(stem_lc: &str, pattern_lc: &str, legacy_suffix: &str) -> (r: Option<u8>)
    ensures
        r == candidate_score_spec(stem_lc@, pattern_lc@, legacy_suffix@),
{
    if str_eq(stem_lc, pattern_lc) {
        return Some(0);
    }
    let mut with_sep = chars_of(pattern_lc);
    with_sep.push('_');
    assert(with_sep@ =~= pattern_lc@ + seq!['_']);
    let with_sep = string_from_chars(with_sep.as_slice());
    if str_starts_with(stem_lc, with_sep.as_str()) {
        return Some(1);
    }
    let a = trim_end_matches_str(pattern_lc, "_base");
    let prefix = trim_end_matches_str(a.as_str(), "_reveal");
    let mut legacy = chars_of(prefix.as_str());
    legacy.push('_');
    extend_chars(&mut legacy, chars_of(legacy_suffix).as_slice());
    assert(legacy@ =~= prefix@ + seq!['_'] + legacy_suffix@);
    let legacy = string_from_chars(legacy.as_slice());
    if str_eq(stem_lc, legacy.as_str()) {
        return Some(2);
    }
    None
}

/// The lower-cased stem of a layer file, when it is a supported file with a stem.
pub open spec fn file_stem_lc(f: Seq<char>) -> Option<Seq<char>> {
    if supported_layer_spec(f) {
        match spec_path_file_stem(f) {
            Some(st) => Some(spec_lowercase(st)),
            None => None,
        }
    } else {
        None
    }
}

/// The score of layer file `f` for a pattern.
pub open spec fn file_score(f: Seq<char>, pattern: Seq<char>, legacy: Seq<char>) -> Option<u8> {
    match file_stem_lc(f) {
        Some(st) => candidate_score_spec(st, pattern, legacy),
        None => None,
    }
}

/// Index `b` holds the best-scoring file for a pattern: the lowest score, and
/// the first file with it.
pub open spec fn is_best(files: Seq<Seq<char>>, pattern: Seq<char>, legacy: Seq<char>, b: int) -> bool {
    &&& 0 <= b < files.len()
    &&& file_score(files[b], pattern, legacy) is Some
    &&& forall|j: int| 0 <= j < files.len() && (#[trigger] file_score(files[j], pattern, legacy)) is Some
        ==> file_score(files[b], pattern, legacy)->0 <= file_score(files[j], pattern, legacy)->0
    &&& forall|j: int| 0 <= j < b && (#[trigger] file_score(files[j], pattern, legacy)) is Some
        ==> file_score(files[b], pattern, legacy)->0 < file_score(files[j], pattern, legacy)->0
}

/// No file scores for the pattern.
pub open spec fn none_scores(files: Seq<Seq<char>>, pattern: Seq<char>, legacy: Seq<char>) -> bool {
    forall|j: int| 0 <= j < files.len() ==> (#[trigger] file_score(files[j], pattern, legacy)) is None
}

/// Index `e` is the first layer file whose lower-cased stem is `name`.
pub open spec fn is_first_exact(files: Seq<Seq<char>>, name: Seq<char>, e: int) -> bool {
    &&& 0 <= e < files.len()
    &&& file_stem_lc(files[e]) == Some(name)
    &&& forall|j: int| 0 <= j < e ==> (#[trigger] file_stem_lc(files[j])) != Some(name)
}

fn best_for_pattern(files: &[String], pattern: &str, legacy: &str) -> (r: Option<usize>)
    ensures
        r matches Some(b) ==> is_best(views(files@), pattern@, legacy@, b as int),
        r is None ==> none_scores(views(files@), pattern@, legacy@),
{
    let ghost fv = views(files@);
    let mut best: Option<usize> = None;
    let mut best_score: u8 = 0;
    let mut i: usize = 0;
    while i < files.len()
        invariant
            fv == views(files@),
            0 <= i <= files@.len(),
            best is None ==> forall|j: int| 0 <= j < i ==> (#[trigger] file_score(fv[j], pattern@, legacy@)) is None,
            best matches Some(b) ==> ({
                &&& b < i
                &&& file_score(fv[b as int], pattern@, legacy@) == Some(best_score)
                &&& forall|j: int| 0 <= j < i && (#[trigger] file_score(fv[j], pattern@, legacy@)) is Some
                    ==> best_score <= file_score(fv[j], pattern@, legacy@)->0
                &&& forall|j: int| 0 <= j < b && (#[trigger] file_score(fv[j], pattern@, legacy@)) is Some
                    ==> best_score < file_score(fv[j], pattern@, legacy@)->0
            }),
        decreases files@.len() - i,
    {
        let path = files[i].as_str();
        assert(fv[i as int] == path@);
        if is_supported_layer_file(path) {
            if let Some(stem) = path_file_stem(path) {
                let stem_lc = to_lowercase(stem.as_str());
                if let Some(score) = candidate_score(stem_lc.as_str(), pattern, legacy) {
                    if best.is_none() || score < best_score {
                        best = Some(i);
                        best_score = score;
                    }
                }
            }
        }
        i = i + 1;
    }
    best
}

fn first_exact(files: &[String], name_lc: &str) -> (r: Option<usize>)
    ensures
        r matches Some(e) ==> is_first_exact(views(files@), name_lc@, e as int),
        r is None ==> forall|j: int| 0 <= j < files@.len() ==> (#[trigger] file_stem_lc(views(files@)[j])) != Some(name_lc@),
{
    let ghost fv = views(files@);
    let mut i: usize = 0;
    while i < files.len()
        invariant
            fv == views(files@),
            0 <= i <= files@.len(),
            forall|j: int| 0 <= j < i ==> (#[trigger] file_stem_lc(fv[j])) != Some(name_lc@),
        decreases files@.len() - i,
    {
        let path = files[i].as_str();
        assert(fv[i as int] == path@);
        if is_supported_layer_file(path) {
            if let Some(stem) = path_file_stem(path) {
                let stem_lc = to_lowercase(stem.as_str());
                if str_eq(stem_lc.as_str(), name_lc) {
                    return Some(i);
                }
            }
        }
        i = i + 1;
    }
    None
}

/// The trimmed file stem of a wallpaper path, when it has a non-blank one.
pub open spec fn wallpaper_name_spec(wallpaper_path: Seq<char>) -> Option<Seq<char>> {
    match spec_path_file_stem(wallpaper_path) {
        Some(s) => if trim(s).len() > 0 {
            Some(trim(s))
        } else {
            None
        },
        None => None,
    }
}

/// The pattern of the base layer for wallpaper name `n`.
pub open spec fn base_pattern_spec(n: Seq<char>) -> Seq<char> {
    spec_lowercase(n + "_base"@)
}

/// The pattern of the reveal layer for wallpaper name `n`.
pub open spec fn reveal_pattern_spec(n: Seq<char>) -> Seq<char> {
    spec_lowercase(n + "_reveal"@)
}

/// A base layer exists for wallpaper name `n` among `fv`.
pub open spec fn base_found(fv: Seq<Seq<char>>, n: Seq<char>) -> bool {
    (exists|b: int| is_best(fv, base_pattern_spec(n), "layer1"@, b)) || (exists|e: int|
        is_first_exact(fv, spec_lowercase(n), e))
}

/// A reveal layer exists for wallpaper name `n` among `fv`.
pub open spec fn reveal_found(fv: Seq<Seq<char>>, n: Seq<char>) -> bool {
    exists|b: int| is_best(fv, reveal_pattern_spec(n), "layer2"@, b)
}

/// `p` is the chosen base layer: the best file for the base pattern, or, when
/// no file scores for it, the first file whose stem is the wallpaper name.
pub open spec fn base_choice(fv: Seq<Seq<char>>, n: Seq<char>, p: Seq<char>) -> bool {
    (exists|b: int| is_best(fv, base_pattern_spec(n), "layer1"@, b) && fv[b] == p) || (none_scores(
        fv,
        base_pattern_spec(n),
        "layer1"@,
    ) && exists|e: int| is_first_exact(fv, spec_lowercase(n), e) && fv[e] == p)
}

/// `p` is the chosen reveal layer: the best file for the reveal pattern.
pub open spec fn reveal_choice(fv: Seq<Seq<char>>, n: Seq<char>, p: Seq<char>) -> bool {
    exists|b: int| is_best(fv, reveal_pattern_spec(n), "layer2"@, b) && fv[b] == p
}

/// Some file of `fv` scores for the base pattern of wallpaper name `n`.
pub open spec fn some_base_scores(fv: Seq<Seq<char>>, n: Seq<char>) -> bool {
    exists|j: int| 0 <= j < fv.len() && (#[trigger] file_score(fv[j], base_pattern_spec(n), "layer1"@)) is Some
}

/// `p` is a file of `fv` that scores for the base pattern of `n`, and no file
/// scores lower.
pub open spec fn lowest_scoring_base(fv: Seq<Seq<char>>, n: Seq<char>, p: Seq<char>) -> bool {
    exists|k: int|
        0 <= k < fv.len() && fv[k] == p && (#[trigger] file_score(fv[k], base_pattern_spec(n), "layer1"@)) is Some
            && forall|j: int|
            0 <= j < fv.len() && (#[trigger] file_score(fv[j], base_pattern_spec(n), "layer1"@)) is Some
                ==> file_score(fv[k], base_pattern_spec(n), "layer1"@)->0 <= file_score(fv[j], base_pattern_spec(n), "layer1"@)->0
}

/// A file named for the base pattern always wins over a file that only
/// carries the wallpaper's own name: whenever some file scores for
/// `<name>_base` (or the legacy `<name>_layer1`), the chosen base layer is a
/// lowest-scoring such file; the exact-name file is only the fallback.
pub proof fn law_pattern_base_wins(fv: Seq<Seq<char>>, n: Seq<char>, p: Seq<char>)
    requires
        base_choice(fv, n, p),
        some_base_scores(fv, n),
    ensures
        lowest_scoring_base(fv, n, p),
{
    let j = choose|j: int| 0 <= j < fv.len() && (#[trigger] file_score(fv[j], base_pattern_spec(n), "layer1"@)) is Some;
    if none_scores(fv, base_pattern_spec(n), "layer1"@) {
        assert(file_score(fv[j], base_pattern_spec(n), "layer1"@) is None);
    }
    let b = choose|b: int| is_best(fv, base_pattern_spec(n), "layer1"@, b) && fv[b] == p;
    assert(0 <= b < fv.len() && fv[b] == p && file_score(fv[b], base_pattern_spec(n), "layer1"@) is Some);
}

/// The X-ray layer pair for wallpaper `wallpaper_path` among the layer files
/// `files` (in directory-walk order). For wallpaper name `n` (its trimmed file
/// stem), the base layer is the best file for `n_base` (legacy name
/// `n_layer1`) or else the first file whose stem is `n`; the reveal layer is
/// the best file for `n_reveal` (legacy name `n_layer2`); "best" is the lowest
/// `candidate_score`, the first file among equals, names compared lower-cased.
/// `None` unless both layers are found.
pub fn find_matching_layers(wallpaper_path: &str, files: &[String]) -> (r: Option<(String, String)>)
    ensures
        match wallpaper_name_spec(wallpaper_path@) {
            None => r is None,
            Some(n) => {
                &&& (r is Some <==> (base_found(views(files@), n) && reveal_found(views(files@), n)))
                &&& (r is Some ==> base_choice(views(files@), n, (r->0).0@) && reveal_choice(views(files@), n, (r->0).1@))
                &&& (r is Some && some_base_scores(views(files@), n) ==> lowest_scoring_base(views(files@), n, (r->0).0@))
            },
        },
{
    let stem = match path_file_stem(wallpaper_path) {
        Some(s) => s,
        None => return None,
    };
    let name = trim_str(stem.as_str());
    if name.as_str().is_empty() {
        return None;
    }
    let name_lc = to_lowercase(name.as_str());
    let mut base_raw = chars_of(name.as_str());
    extend_chars(&mut base_raw, chars_of("_base").as_slice());
    let base_pattern = string_from_chars(base_raw.as_slice());
    let mut reveal_raw = chars_of(name.as_str());
    extend_chars(&mut reveal_raw, chars_of("_reveal").as_slice());
    let reveal_pattern = string_from_chars(reveal_raw.as_slice());
    assert(base_pattern@ =~= name@ + "_base"@);
    assert(reveal_pattern@ =~= name@ + "_reveal"@);
    let base_lc = to_lowercase(base_pattern.as_str());
    let reveal_lc = to_lowercase(reveal_pattern.as_str());
    let ghost fv = views(files@);
    let best_base = best_for_pattern(files, base_lc.as_str(), "layer1");
    let best_reveal = best_for_pattern(files, reveal_lc.as_str(), "layer2");
    let exact = first_exact(files, name_lc.as_str());
    proof {
        if best_base is None {
            assert forall|b: int| !is_best(fv, base_lc@, "layer1"@, b) by {
                if is_best(fv, base_lc@, "layer1"@, b) {
                    assert(file_score(fv[b], base_lc@, "layer1"@) is Some);
                }
            }
        }
        if best_reveal is None {
            assert forall|b: int| !is_best(fv, reveal_lc@, "layer2"@, b) by {
                if is_best(fv, reveal_lc@, "layer2"@, b) {
                    assert(file_score(fv[b], reveal_lc@, "layer2"@) is Some);
                }
            }
            assert(!reveal_found(fv, name@));
        }
        if exact is None {
            assert forall|e: int| !is_first_exact(fv, name_lc@, e) by {
                if is_first_exact(fv, name_lc@, e) {
                    assert(file_stem_lc(fv[e]) == Some(name_lc@));
                }
            }
        }
        if best_base is None && exact is None {
            assert(!base_found(fv, name@));
        }
    }
    let base = match best_base {
        Some(b) => b,
        None => match exact {
            Some(e) => e,
            None => return None,
        },
    };
    let reveal = match best_reveal {
        Some(b) => b,
        None => return None,
    };
    let base_path = string_from_chars(chars_of(files[base].as_str()).as_slice());
    let reveal_path = string_from_chars(chars_of(files[reveal].as_str()).as_slice());
    assert(fv[base as int] == base_path@);
    assert(fv[reveal as int] == reveal_path@);
    proof {
        assert(base_lc@ == base_pattern_spec(name@));
        assert(reveal_lc@ == reveal_pattern_spec(name@));
        if best_base is Some {
            assert(is_best(fv, base_pattern_spec(name@), "layer1"@, base as int));
            assert(base_found(fv, name@));
        } else {
            assert(is_first_exact(fv, spec_lowercase(name@), base as int));
            assert(base_found(fv, name@));
        }
        assert(is_best(fv, reveal_pattern_spec(name@), "layer2"@, reveal as int));
        assert(reveal_found(fv, name@));
        assert(base_choice(fv, name@, base_path@));
        assert(reveal_choice(fv, name@, reveal_path@));
        if some_base_scores(fv, name@) {
            law_pattern_base_wins(fv, name@, base_path@);
        }
    }
    Some((base_path, reveal_path))
}

/// The key of a parallax profile's settings for one layer file: the file's
/// stem, or the whole name when it has none.
pub open spec fn profile_layer_key_spec(layer_file: Seq<char>) -> Seq<char> {
    match spec_path_file_stem(layer_file) {
        Some(s) => s,
        None => layer_file,
    }
}

/// The settings key of a profile layer file (see `profile_layer_key_spec`).
pub fn profile_layer_key(layer_file: &str) -> (r: String)
    ensures
        r@ == profile_layer_key_spec(layer_file@),
{
    match path_file_stem(layer_file) {
        Some(s) => s,
        None => crate::text::owned(layer_file),
    }
}


/// The settings a parallax profile keeps for a layer file, looked up by the
/// file's key (see `profile_layer_key`); `None` when the profile has none
/// (the caller then uses the defaults).
pub fn profile_layer_settings<'a, V>(layers: &'a crate::namemap::NameMap<V>, layer_file: &str) -> (r: Option<&'a V>)
    requires
        layers.wf(),
    ensures
        match r {
            Some(v) => layers.view().dom().contains(profile_layer_key_spec(layer_file@)) && layers.view()[profile_layer_key_spec(layer_file@)] == *v,
            None => !layers.view().dom().contains(profile_layer_key_spec(layer_file@)),
        },
{
    let key = profile_layer_key(layer_file);
    layers.get(key.as_str())
}

/// The names of the entries of a profiles directory that are profiles, in
/// order: those whose `is_profile` answer is `true` (the disk's answer: a
/// directory that holds `parallax.toml`).
pub open spec fn profile_entries(names: Seq<Seq<char>>, is_profile: Seq<bool>) -> Set<Seq<char>> {
    Set::new(|k: Seq<char>| exists|i: int| 0 <= i < names.len() && is_profile[i] && names[i] == k)
}

/// The profiles of a profiles directory, sorted by name. `names` are the
/// entry names of the directory (distinct, as in any directory) and
/// `is_profile[i]` says whether entry `i` is a profile directory.
pub fn profile_names(names: &[String], is_profile: &[bool]) -> (r: Vec<String>)
    requires
        names@.len() == is_profile@.len(),
        forall|i: int, j: int| 0 <= i < j < names@.len() ==> (#[trigger] names@[i])@ != (#[trigger] names@[j])@,
    ensures
        crate::order::sorted_names(views(r@)),
        forall|k: Seq<char>| views(r@).contains(k) <==> profile_entries(views(names@), is_profile@).contains(k),
{
    let ghost nv = views(names@);
    let ghost pe = profile_entries(nv, is_profile@);
    let mut kept: Vec<String> = Vec::new();
    let mut i: usize = 0;
    while i < names.len()
        invariant
            nv == views(names@),
            pe == profile_entries(nv, is_profile@),
            names@.len() == is_profile@.len(),
            0 <= i <= names@.len(),
            forall|a: int, b: int| 0 <= a < b < names@.len() ==> (#[trigger] names@[a])@ != (#[trigger] names@[b])@,
            forall|a: int, b: int| 0 <= a < b < kept@.len() ==> (#[trigger] kept@[a])@ != (#[trigger] kept@[b])@,
            forall|a: int| 0 <= a < kept@.len() ==> nv.take(i as int).contains(#[trigger] views(kept@)[a]) && pe.contains(views(kept@)[a]),
            forall|t: int| 0 <= t < i && is_profile@[t] ==> views(kept@).contains(#[trigger] nv[t]),
        decreases names@.len() - i,
    {
        assert(nv[i as int] == names@[i as int]@);
        let ghost before = kept@;
        let ghost bv = views(kept@);
        if is_profile[i] {
            assert forall|a: int| 0 <= a < before.len() implies before[a]@ != names@[i as int]@ by {
                assert(bv[a] == before[a]@);
                assert(nv.take(i as int).contains(bv[a]));
                let u = choose|u: int| 0 <= u < i && nv.take(i as int)[u] == bv[a];
                assert(names@[u]@ == nv[u]);
            }
            kept.push(crate::text::owned(names[i].as_str()));
            assert(views(kept@) =~= bv.push(nv[i as int]));
            assert(pe.contains(nv[i as int]));
        }
        proof {
            let kv = views(kept@);
            assert forall|a: int| 0 <= a < kept@.len() implies nv.take(i + 1).contains(#[trigger] views(kept@)[a]) && pe.contains(views(kept@)[a]) by {
                if a < bv.len() {
                    assert(kv[a] == bv[a]);
                    let u = choose|u: int| 0 <= u < i && nv.take(i as int)[u] == bv[a];
                    assert(nv.take(i + 1)[u] == bv[a]);
                } else {
                    assert(kv[a] == nv[i as int]);
                    assert(nv.take(i + 1)[i as int] == nv[i as int]);
                }
            }
            assert forall|t: int| 0 <= t < i + 1 && is_profile@[t] implies views(kept@).contains(#[trigger] nv[t]) by {
                if t < i {
                    let u = choose|u: int| 0 <= u < bv.len() && bv[u] == nv[t];
                    assert(kv[u] == nv[t]);
                } else {
                    assert(kv[bv.len() as int] == nv[t]);
                }
            }
        }
        i = i + 1;
    }
    let r = crate::order::sort_names(kept.as_slice());
    assert forall|k: Seq<char>| views(r@).contains(k) <==> pe.contains(k) by {
        if views(kept@).contains(k) {
            let a = choose|a: int| 0 <= a < views(kept@).len() && views(kept@)[a] == k;
            assert(pe.contains(views(kept@)[a]));
        }
        if pe.contains(k) {
            let t = choose|t: int| 0 <= t < nv.len() && is_profile@[t] && nv[t] == k;
            assert(views(kept@).contains(nv[t]));
        }
    }
    r
}

} // verus!
