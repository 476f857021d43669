//! Wallpaper paths inside JSON documents (Ambxst's state files, `hyprctl -j`
//! output). The document is parsed by the caller into a `JsonValue`.
use crate::detector::{
    first_existing_media, first_existing_path, media_candidates, media_cands, text_candidates, text_cands,
};
use crate::paths::home_view;
use crate::text::views;
use vstd::prelude::*;

verus! {

/// A JSON value; numbers are kept only as a kind, since no path hides in one.
/// Object members keep the order in which the parser hands them out.
pub enum JsonValue {
    Null,
    Bool(bool),
    Number,
    Str(String),
    Array(Vec<JsonValue>),
    Object(Vec<(String, JsonValue)>),
}

/// The string leaves of a JSON value, depth first, in document order.
pub open spec fn json_strings(v: JsonValue) -> Seq<Seq<char>>
    decreases v,
{
    match v {
        JsonValue::Str(s) => seq![s@],
        JsonValue::Array(items) => json_items_strings(items@),
        JsonValue::Object(members) => json_members_strings(members@),
        _ => Seq::empty(),
    }
}

/// The string leaves of a sequence of values, in order.
pub open spec fn json_items_strings(items: Seq<JsonValue>) -> Seq<Seq<char>>
    decreases items,
{
    if items.len() == 0 {
        Seq::empty()
    } else {
        json_items_strings(items.subrange(0, items.len() - 1)) + json_strings(items[items.len() - 1])
    }
}

/// The string leaves of the member values of an object, in order.
pub open spec fn json_members_strings(members: Seq<(String, JsonValue)>) -> Seq<Seq<char>>
    decreases members,
{
    if members.len() == 0 {
        Seq::empty()
    } else {
        json_members_strings(members.subrange(0, members.len() - 1)) + json_strings(
            members[members.len() - 1].1,
        )
    }
}

#[verifier::loop_isolation(false)]
fn collect_strings(v: &JsonValue, out: &mut Vec<String>)
    ensures
        views(final(out)@) == views(old(out)@) + json_strings(*v),
    decreases v,
{
    match v {
        JsonValue::Str(s) => {
            let ghost before = views(out@);
            out.push(crate::text::owned(s.as_str()));
            assert(views(out@) =~= before + json_strings(*v));
        },
        JsonValue::Array(items) => {
            let ghost start = views(out@);
            let mut i: usize = 0;
            while i < items.len()
                invariant
                    0 <= i <= items@.len(),
                    views(out@) == start + json_items_strings(items@.subrange(0, i as int)),
                decreases items@.len() - i,
            {
                assert(items@.subrange(0, i + 1).subrange(0, i as int) =~= items@.subrange(0, i as int));
                assert(items@.subrange(0, i + 1)[i as int] == items@[i as int]);
                assert((*v)->Array_0 == *items);
                assert(decreases_to!(*v => (*v)->Array_0));
                assert(decreases_to!(*items => items@));
                assert(decreases_to!(items@ => items@[i as int]));
                collect_strings(&items[i], out);
                i = i + 1;
            }
            assert(items@.subrange(0, items@.len() as int) =~= items@);
        },
        JsonValue::Object(members) => {
            let ghost start = views(out@);
            let mut i: usize = 0;
            while i < members.len()
                invariant
                    0 <= i <= members@.len(),
                    views(out@) == start + json_members_strings(members@.subrange(0, i as int)),
                decreases members@.len() - i,
            {
                assert(members@.subrange(0, i + 1).subrange(0, i as int) =~= members@.subrange(0, i as int));
                assert(members@.subrange(0, i + 1)[i as int] == members@[i as int]);
                assert((*v)->Object_0 == *members);
                assert(decreases_to!(*v => (*v)->Object_0));
                assert(decreases_to!(*members => members@));
                assert(decreases_to!(members@ => members@[i as int]));
                assert(decreases_to!(members@[i as int] => members@[i as int].1));
                collect_strings(&members[i].1, out);
                i = i + 1;
            }
            assert(members@.subrange(0, members@.len() as int) =~= members@);
        },
        _ => {
            assert(views(out@) =~= views(out@) + json_strings(*v));
        },
    }
}

/// The string leaves of `v` (see `json_strings`).
pub fn json_string_leaves(v: &JsonValue) -> (r: Vec<String>)
    ensures
        views(r@) == json_strings(*v),
{
    let mut out: Vec<String> = Vec::new();
    collect_strings(v, &mut out);
    assert(views(out@) =~= json_strings(*v));
    out
}

/// The first existing media file named by a string leaf of `v`, depth first:
/// the first of the media paths the leaves name that the disk has.
pub fn find_path_in_json_value(v: &JsonValue, home: Option<&str>) -> (r: Option<String>)
    ensures
        r matches Some(p) ==> media_cands(json_strings(*v), home_view(home)).contains(p@),
        media_cands(json_strings(*v), home_view(home)).len() == 0 ==> r is None,
{
    let leaves = json_string_leaves(v);
    first_existing_media(leaves.as_slice(), home)
}

/// The value of the first member named `key`.
pub open spec fn member_spec(members: Seq<(String, JsonValue)>, key: Seq<char>) -> Option<JsonValue>
    decreases members.len(),
{
    if members.len() == 0 {
        None
    } else if members[0].0@ == key {
        Some(members[0].1)
    } else {
        member_spec(members.subrange(1, members.len() as int), key)
    }
}

/// `v[key]` for an object, nothing for any other value.
pub open spec fn get_spec(v: JsonValue, key: Seq<char>) -> Option<JsonValue> {
    match v {
        JsonValue::Object(members) => member_spec(members@, key),
        _ => None,
    }
}

/// The value stored under `key`, when `v` is an object that has it.
#[verifier::loop_isolation(false)]
pub fn json_get<'a>(v: &'a JsonValue, key: &str) -> (r: Option<&'a JsonValue>)
    ensures
        match get_spec(*v, key@) {
            Some(x) => r == Some(&x),
            None => r is None,
        },
{
    match v {
        JsonValue::Object(members) => {
            let mut i: usize = 0;
            assert(members@.subrange(0, members@.len() as int) =~= members@);
            while i < members.len()
                invariant
                    0 <= i <= members@.len(),
                    member_spec(members@, key@) == member_spec(members@.subrange(i as int, members@.len() as int), key@),
                decreases members@.len() - i,
            {
                let ghost rest = members@.subrange(i as int, members@.len() as int);
                assert(rest[0] == members@[i as int]);
                assert(rest.subrange(1, rest.len() as int) =~= members@.subrange(i + 1, members@.len() as int));
                if crate::text::str_eq(members[i].0.as_str(), key) {
                    assert(rest.len() > 0 && rest[0].0@ == key@);
                    assert(member_spec(rest, key@) == Some(members@[i as int].1));
                    return Some(&members[i].1);
                }
                i = i + 1;
            }
            None
        },
        _ => None,
    }
}

/// The candidates of a JSON-or-text reply, in order: the media paths the
/// string leaves of the parsed document name, then those the tokens of the
/// raw text name.
pub open spec fn json_or_text_cands(parsed: Option<JsonValue>, text: Seq<char>, home: Option<Seq<char>>) -> Seq<Seq<char>> {
    (match parsed {
        Some(j) => media_cands(json_strings(j), home),
        None => Seq::empty(),
    }) + text_cands(text, home)
}

/// The candidates of a JSON-or-text reply (see `json_or_text_cands`).
pub fn json_or_text_candidates(parsed: Option<&JsonValue>, input: &str, home: Option<&str>) -> (r: Vec<String>)
    ensures
        views(r@) == json_or_text_cands(opt_json(parsed), input@, home_view(home)),
{
    let mut out: Vec<String> = Vec::new();
    if let Some(json) = parsed {
        let leaves = json_string_leaves(json);
        out = media_candidates(leaves.as_slice(), home);
    }
    let ghost a = views(out@);
    assert(a =~= (match opt_json(parsed) {
        Some(j) => media_cands(json_strings(j), home_view(home)),
        None => Seq::empty(),
    }));
    let mut t = text_candidates(input, home);
    let ghost b = views(t@);
    out.append(&mut t);
    assert(views(out@) =~= a + b);
    out
}

/// A media file named in `input`: the first of `json_or_text_candidates`
/// that exists on disk. `parsed` is `input` parsed as JSON, when it is JSON.
pub fn parse_path_from_json_or_text(parsed: Option<&JsonValue>, input: &str, home: Option<&str>) -> (r: Option<String>)
    ensures
        r matches Some(p) ==> json_or_text_cands(opt_json(parsed), input@, home_view(home)).contains(p@),
        json_or_text_cands(opt_json(parsed), input@, home_view(home)).len() == 0 ==> r is None,
{
    let cands = json_or_text_candidates(parsed, input, home);
    first_existing_path(&cands)
}

pub open spec fn opt_json(o: Option<&JsonValue>) -> Option<JsonValue> {
    match o {
        Some(j) => Some(*j),
        None => None,
    }
}

/// The `currentWall` string of an Ambxst state document.
pub open spec fn current_wall(j: JsonValue) -> Option<Seq<char>> {
    match get_spec(j, "currentWall"@) {
        Some(JsonValue::Str(s)) => Some(s@),
        _ => None,
    }
}

/// The string leaves under `perScreenWallpapers`, if the document has that member.
pub open spec fn per_screen_strings(j: JsonValue) -> Seq<Seq<char>> {
    match get_spec(j, "perScreenWallpapers"@) {
        Some(x) => json_strings(x),
        None => Seq::empty(),
    }
}

/// The candidates of an Ambxst config or state file, in order: the media path
/// of its `currentWall`, those under `perScreenWallpapers`, those of any string
/// of the document, then those of `json_or_text_cands`.
pub open spec fn ambxst_config_cands(parsed: Option<JsonValue>, text: Seq<char>, home: Option<Seq<char>>) -> Seq<Seq<char>> {
    (match parsed {
        Some(j) => (match current_wall(j) {
            Some(c) => media_cands(seq![c], home),
            None => Seq::empty(),
        }) + media_cands(per_screen_strings(j), home) + media_cands(json_strings(j), home),
        None => Seq::empty(),
    }) + json_or_text_cands(parsed, text, home)
}

/// The candidates of an Ambxst config or state file (see `ambxst_config_cands`).
pub fn ambxst_config_candidates(parsed: Option<&JsonValue>, content: &str, home: Option<&str>) -> (r: Vec<String>)
    ensures
        views(r@) == ambxst_config_cands(opt_json(parsed), content@, home_view(home)),
{
    let mut out: Vec<String> = Vec::new();
    if let Some(json) = parsed {
        if let Some(JsonValue::Str(s)) = json_get(json, "currentWall") {
            let mut one: Vec<String> = Vec::new();
            one.push(crate::text::owned(s.as_str()));
            assert(views(one@) =~= seq![s@]);
            out = media_candidates(one.as_slice(), home);
        }
        let ghost a = views(out@);
        let mut b: Vec<String> = Vec::new();
        if let Some(per_screen) = json_get(json, "perScreenWallpapers") {
            let leaves = json_string_leaves(per_screen);
            b = media_candidates(leaves.as_slice(), home);
        }
        let ghost bv = views(b@);
        assert(bv =~= media_cands(per_screen_strings(*json), home_view(home)));
        out.append(&mut b);
        let all_leaves = json_string_leaves(json);
        let mut c = media_candidates(all_leaves.as_slice(), home);
        let ghost cv = views(c@);
        out.append(&mut c);
        assert(views(out@) =~= a + bv + cv);
    }
    let ghost head = views(out@);
    let mut rest = json_or_text_candidates(parsed, content, home);
    let ghost rv = views(rest@);
    out.append(&mut rest);
    assert(views(out@) =~= head + rv);
    out
}

/// The wallpaper an Ambxst config or state file names: the first of
/// `ambxst_config_candidates` that exists on disk. `parsed` is `content`
/// parsed as JSON, when it is JSON.
pub fn parse_ambxst_config(parsed: Option<&JsonValue>, content: &str, home: Option<&str>) -> (r: Option<String>)
    ensures
        r matches Some(p) ==> ambxst_config_cands(opt_json(parsed), content@, home_view(home)).contains(p@),
        ambxst_config_cands(opt_json(parsed), content@, home_view(home)).len() == 0 ==> r is None,
{
    let cands = ambxst_config_candidates(parsed, content, home);
    first_existing_path(&cands)
}

} // verus!
