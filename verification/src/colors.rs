//! The byte values of `#rrggbb` colors: reading them from config text and
//! writing them back.
use crate::text::{chars_of, string_from_chars, strip_all_prefix, trim, trim_start_matches_str, trim_str};
use vstd::prelude::*;

verus! {

/// The value of one hexadecimal digit byte (either letter case).
pub open spec fn hex_digit(b: u8) -> Option<int> {
    if 48 <= b <= 57 {
        Some(b - 48)
    } else if 97 <= b <= 102 {
        Some(b - 87)
    } else if 65 <= b <= 70 {
        Some(b - 55)
    } else {
        None
    }
}

/// All bytes of `d` are hexadecimal digits.
pub open spec fn all_hex(d: Seq<u8>) -> bool {
    forall|i: int| 0 <= i < d.len() ==> (#[trigger] hex_digit(d[i])) is Some
}

/// The value of a string of hexadecimal digits.
pub open spec fn hex_value(d: Seq<u8>) -> int
    decreases d.len(),
{
    if d.len() == 0 {
        0
    } else {
        hex_value(d.drop_last()) * 16 + hex_digit(d.last())->0
    }
}

/// What `u8::from_str_radix(s, 16)` accepts: an optional `+`, then one or
/// more hexadecimal digits whose value is at most 255.
pub open spec fn parse_u8_hex(s: Seq<u8>) -> Option<u8> {
    let d = if s.len() > 0 && s[0] == 43 {
        s.drop_first()
    } else {
        s
    };
    if d.len() == 0 || !all_hex(d) || hex_value(d) > 255 {
        None
    } else {
        Some(hex_value(d) as u8)
    }
}

fn hex_digit_exec(b: u8) -> (r: Option<u8>)
    ensures
        match hex_digit(b) {
            Some(v) => r == Some(v as u8),
            None => r is None,
        },
{
    if 48 <= b && b <= 57 {
        Some(b - 48)
    } else if 97 <= b && b <= 102 {
        Some(b - 87)
    } else if 65 <= b && b <= 70 {
        Some(b - 55)
    } else {
        None
    }
}

proof fn lemma_hex_value_bounds(d: Seq<u8>)
    requires
        all_hex(d),
    ensures
        0 <= hex_value(d),
        d.len() > 0 ==> hex_value(d.drop_last()) * 16 <= hex_value(d),
    decreases d.len(),
{
    if d.len() > 0 {
        assert(all_hex(d.drop_last()));
        lemma_hex_value_bounds(d.drop_last());
        assert(hex_digit(d[d.len() - 1]) is Some);
    }
}

/// `u8::from_str_radix(s, 16).ok()` on the bytes of a string.
#[verifier::loop_isolation(false)]
pub fn parse_u8_hex_exec(s: &[u8]) -> (r: Option<u8>)
    ensures
        r == parse_u8_hex(s@),
{
    let n = s.len();
    let start: usize = if n > 0 && s[0] == 43 {
        1
    } else {
        0
    };
    let ghost d = if start == 1 {
        s@.drop_first()
    } else {
        s@
    };
    assert(d =~= s@.subrange(start as int, n as int));
    if start == n {
        return None;
    }
    let mut acc: u32 = 0;
    let mut i: usize = start;
    while i < n
        invariant
            start <= i <= n == s@.len(),
            d == s@.subrange(start as int, n as int),
            all_hex(s@.subrange(start as int, i as int)),
            acc == hex_value(s@.subrange(start as int, i as int)),
            acc <= 255,
        decreases n - i,
    {
        let ghost pre = s@.subrange(start as int, i as int);
        let ghost next = s@.subrange(start as int, i + 1);
        assert(next.drop_last() =~= pre);
        match hex_digit_exec(s[i]) {
            Some(v) => {
                assert(all_hex(next)) by {
                    assert forall|k: int| 0 <= k < next.len() implies (#[trigger] hex_digit(next[k])) is Some by {
                        if k < pre.len() {
                            assert(next[k] == pre[k]);
                        }
                    }
                }
                let nv: u32 = acc * 16 + v as u32;
                if nv > 255 {
                    proof {
                        assert(hex_value(next) == nv);
                        assert(d.take(next.len() as int) =~= next);
                        lemma_prefix_value_grows(d, next.len() as int);
                    }
                    return None;
                }
                acc = nv;
            },
            None => {
                assert(!all_hex(d)) by {
                    assert(d[i - start] == s@[i as int]);
                }
                return None;
            },
        }
        i = i + 1;
    }
    assert(s@.subrange(start as int, n as int) =~= d);
    Some(acc as u8)
}

proof fn lemma_prefix_value_grows(d: Seq<u8>, k: int)
    requires
        0 <= k <= d.len(),
        all_hex(d.take(k)),
    ensures
        all_hex(d) ==> hex_value(d.take(k)) <= hex_value(d),
    decreases d.len() - k,
{
    if k < d.len() && all_hex(d) {
        assert(all_hex(d.take(k + 1))) by {
            assert forall|j: int| 0 <= j < d.take(k + 1).len() implies (#[trigger] hex_digit(d.take(k + 1)[j])) is Some by {
                assert(d.take(k + 1)[j] == d[j]);
            }
        }
        lemma_prefix_value_grows(d, k + 1);
        assert(d.take(k + 1).drop_last() =~= d.take(k));
        lemma_hex_value_bounds(d.take(k + 1));
    } else if k == d.len() {
        assert(d.take(k) =~= d);
    }
}

/// `s[i..j]` can be taken: both ends fall on character boundaries of the
/// UTF-8 bytes `b` (no continuation byte starts there).
pub open spec fn on_boundary(b: Seq<u8>, i: int) -> bool {
    i == b.len() || !(0x80 <= b[i] < 0xC0)
}

/// The red, green and blue bytes of `#rrggbb` color text without its `#`s
/// (`value`, as UTF-8 bytes): six bytes, each pair read with
/// `u8::from_str_radix`; nothing when the length is not six or a pair does not parse.
pub open spec fn rgb_pairs(b: Seq<u8>) -> Option<(u8, u8, u8)> {
    if b.len() != 6 {
        None
    } else {
        match (parse_u8_hex(b.subrange(0, 2)), parse_u8_hex(b.subrange(2, 4)), parse_u8_hex(b.subrange(4, 6))) {
            (Some(r), Some(g), Some(bl)) => Some((r, g, bl)),
            _ => None,
        }
    }
}

/// The text of a legacy color entry with surrounding whitespace and leading `#`s removed.
pub open spec fn legacy_color_text(hex: Seq<char>) -> Seq<char> {
    strip_all_prefix(trim(hex), "#"@)
}

/// A legacy color entry can be read without slicing inside a character: when
/// it is six bytes long, bytes 2 and 4 start characters.
pub open spec fn legacy_color_sliceable(hex: Seq<char>) -> bool {
    let b = vstd::utf8::encode_utf8(legacy_color_text(hex));
    b.len() == 6 ==> on_boundary(b, 2) && on_boundary(b, 4)
}

/// The byte values of a legacy `"#rrggbb"` color entry (see `rgb_pairs`).
pub fn legacy_color_rgb(hex: &str) -> (r: Option<(u8, u8, u8)>)
    requires
        legacy_color_sliceable(hex@),
    ensures
        r == rgb_pairs(vstd::utf8::encode_utf8(legacy_color_text(hex@))),
{
    let t = trim_str(hex);
    let value = trim_start_matches_str(t.as_str(), "#");
    let b = value.as_str().as_bytes();
    if b.len() != 6 {
        return None;
    }
    let r = parse_u8_hex_exec(vstd::slice::slice_subrange(b, 0, 2));
    let g = parse_u8_hex_exec(vstd::slice::slice_subrange(b, 2, 4));
    let bl = parse_u8_hex_exec(vstd::slice::slice_subrange(b, 4, 6));
    match (r, g, bl) {
        (Some(r), Some(g), Some(bl)) => Some((r, g, bl)),
        _ => None,
    }
}

/// A two-digit pair, reading 0 where it does not parse.
pub open spec fn pair_or_zero(b: Seq<u8>) -> u8 {
    match parse_u8_hex(b) {
        Some(v) => v,
        None => 0,
    }
}

/// The byte values of `#rrggbb` or `#rgb` color text: the six-digit form
/// read in pairs, the three-digit form with each digit doubled, a part that
/// does not parse as 0, and black for any other length. `b` is the text
/// without its leading `#`s, as UTF-8 bytes.
pub open spec fn hex_rgb_spec(b: Seq<u8>) -> (u8, u8, u8) {
    if b.len() == 6 {
        (pair_or_zero(b.subrange(0, 2)), pair_or_zero(b.subrange(2, 4)), pair_or_zero(b.subrange(4, 6)))
    } else if b.len() == 3 {
        (pair_or_zero(seq![b[0], b[0]]), pair_or_zero(seq![b[1], b[1]]), pair_or_zero(seq![b[2], b[2]]))
    } else {
        (0, 0, 0)
    }
}

/// The color text can be sliced: the six-byte form at bytes 2 and 4, the
/// three-byte form at bytes 1 and 2.
pub open spec fn hex_color_sliceable(hex: Seq<char>) -> bool {
    let b = vstd::utf8::encode_utf8(strip_all_prefix(hex, "#"@));
    &&& b.len() == 6 ==> on_boundary(b, 2) && on_boundary(b, 4)
    &&& b.len() == 3 ==> on_boundary(b, 1) && on_boundary(b, 2)
}

fn or_zero(v: Option<u8>) -> (r: u8)
    ensures
        r == match v {
            Some(x) => x,
            None => 0u8,
        },
{
    match v {
        Some(x) => x,
        None => 0,
    }
}

/// The byte values of `#rrggbb` or `#rgb` color text (see `hex_rgb_spec`).
pub fn hex_color_rgb(hex: &str) -> (r: (u8, u8, u8))
    requires
        hex_color_sliceable(hex@),
    ensures
        r == hex_rgb_spec(vstd::utf8::encode_utf8(strip_all_prefix(hex@, "#"@))),
{
    let value = trim_start_matches_str(hex, "#");
    let b = value.as_str().as_bytes();
    if b.len() == 6 {
        let r = or_zero(parse_u8_hex_exec(vstd::slice::slice_subrange(b, 0, 2)));
        let g = or_zero(parse_u8_hex_exec(vstd::slice::slice_subrange(b, 2, 4)));
        let bl = or_zero(parse_u8_hex_exec(vstd::slice::slice_subrange(b, 4, 6)));
        (r, g, bl)
    } else if b.len() == 3 {
        let r = or_zero(parse_u8_hex_exec([b[0], b[0]].as_slice()));
        let g = or_zero(parse_u8_hex_exec([b[1], b[1]].as_slice()));
        let bl = or_zero(parse_u8_hex_exec([b[2], b[2]].as_slice()));
        proof {
            assert([b[0], b[0]]@ =~= seq![b@[0], b@[0]]);
        }
        (r, g, bl)
    } else {
        (0, 0, 0)
    }
}

/// The lowercase hexadecimal digit for `v < 16`.
pub open spec fn hex_char(v: int) -> char {
    if v < 10 {
        ((v + 48) as u32) as char
    } else {
        ((v + 87) as u32) as char
    }
}

/// `format!("{:02x}", v)`.
pub open spec fn hex2(v: u8) -> Seq<char> {
    seq![hex_char((v / 16) as int), hex_char((v % 16) as int)]
}

fn hex_char_exec(v: u8) -> (r: char)
    requires
        v < 16,
    ensures
        r == hex_char(v as int),
{
    if v < 10 {
        (v + 48) as char
    } else {
        (v + 87) as char
    }
}

/// `format!("#{:02x}{:02x}{:02x}", r, g, b)`: how a color is written back to the config.
pub fn hex_color_string(r: u8, g: u8, b: u8) -> (s: String)
    ensures
        s@ == seq!['#'] + hex2(r) + hex2(g) + hex2(b),
{
    let mut v: Vec<char> = Vec::new();
    v.push('#');
    v.push(hex_char_exec(r / 16));
    v.push(hex_char_exec(r % 16));
    v.push(hex_char_exec(g / 16));
    v.push(hex_char_exec(g % 16));
    v.push(hex_char_exec(b / 16));
    v.push(hex_char_exec(b % 16));
    assert(v@ =~= seq!['#'] + hex2(r) + hex2(g) + hex2(b));
    string_from_chars(v.as_slice())
}

proof fn lemma_hex_char(v: int)
    requires
        0 <= v < 16,
    ensures
        '\0' <= hex_char(v) <= '\u{7f}',
        hex_char(v) != '#',
        hex_char(v) != '+',
        !crate::text::is_ws(hex_char(v)),
        hex_digit(hex_char(v) as u8) == Some(v),
{
    if v < 10 {
        assert(((v + 48) as u32) as char as u32 == v + 48);
    } else {
        assert(((v + 87) as u32) as char as u32 == v + 87);
    }
}

/// A color written back as `#rrggbb` text.
pub open spec fn written_color(r: u8, g: u8, b: u8) -> Seq<char> {
    seq!['#'] + hex2(r) + hex2(g) + hex2(b)
}

proof fn lemma_pair(v: u8, bytes: Seq<u8>)
    requires
        bytes.len() == 2,
        hex_digit(bytes[0]) == Some((v / 16) as int),
        hex_digit(bytes[1]) == Some((v % 16) as int),
        bytes[0] != 43,
    ensures
        parse_u8_hex(bytes) == Some(v),
{
    assert(all_hex(bytes));
    let first = bytes.drop_last();
    assert(first.drop_last() =~= Seq::<u8>::empty());
    assert(first.last() == bytes[0]);
    assert(hex_value(first.drop_last()) == 0);
    assert(hex_value(first) == (v / 16) as int);
    assert(hex_value(bytes) == (v / 16) * 16 + (v % 16));
}

/// What `hex_color_string` writes, `legacy_color_rgb` reads back: the same
/// three bytes.
pub proof fn law_color_text_round_trip(r: u8, g: u8, b: u8)
    ensures
        legacy_color_sliceable(written_color(r, g, b)),
        rgb_pairs(vstd::utf8::encode_utf8(legacy_color_text(written_color(r, g, b)))) == Some((r, g, b)),
{
    let body = hex2(r) + hex2(g) + hex2(b);
    let w = written_color(r, g, b);
    lemma_hex_char((r / 16) as int);
    lemma_hex_char((r % 16) as int);
    lemma_hex_char((g / 16) as int);
    lemma_hex_char((g % 16) as int);
    lemma_hex_char((b / 16) as int);
    lemma_hex_char((b % 16) as int);
    assert(w =~= seq!['#'] + body);
    assert(body.len() == 6);
    // `trim` keeps the text: it starts with `#` and ends with a digit.
    assert(!crate::text::is_ws(w[0]));
    assert(crate::text::trim_start_by(w, crate::text::CharClass::Whitespace) == w);
    assert(w.last() == body[5]);
    assert(crate::text::trim_end_by(w, crate::text::CharClass::Whitespace) == w);
    assert(crate::text::trim(w) == w);
    // Removing the leading `#`s leaves the six digits.
    reveal_strlit("#");
    assert(crate::text::starts_with_seq(w, "#"@)) by {
        assert(w.subrange(0, 1) =~= "#"@);
    }
    assert(w.skip(1) =~= body);
    assert(!crate::text::starts_with_seq(body, "#"@)) by {
        assert(body[0] != '#');
        assert(body.subrange(0, 1)[0] == body[0]);
    }
    assert(strip_all_prefix(body, "#"@) == body);
    assert(strip_all_prefix(w, "#"@) == body);
    assert(legacy_color_text(w) == body);
    // The digits are ASCII, so their bytes are their codes.
    assert(vstd::utf8::is_ascii_chars(body));
    vstd::utf8::is_ascii_chars_encode_utf8(body);
    let bytes = vstd::utf8::encode_utf8(body);
    assert(bytes.len() == 6);
    lemma_pair(r, bytes.subrange(0, 2));
    lemma_pair(g, bytes.subrange(2, 4));
    lemma_pair(b, bytes.subrange(4, 6));
}


/// The colors of a legacy `[colors]` gradient list, in order: the byte values
/// of each entry that reads as `#rrggbb` (see `legacy_color_rgb`); the others
/// are skipped.
pub open spec fn legacy_palette_spec(values: Seq<Seq<char>>) -> Seq<(u8, u8, u8)>
    decreases values.len(),
{
    if values.len() == 0 {
        Seq::empty()
    } else {
        let prev = legacy_palette_spec(values.drop_last());
        match rgb_pairs(vstd::utf8::encode_utf8(legacy_color_text(values.last()))) {
            Some(c) => prev.push(c),
            None => prev,
        }
    }
}

/// The palette the compatibility pass reads from a legacy gradient list (see
/// `legacy_palette_spec`); the pass uses it when the `palette` is empty and
/// this list is not.
pub fn legacy_palette(values: &[String]) -> (r: Vec<(u8, u8, u8)>)
    requires
        forall|i: int| 0 <= i < values@.len() ==> legacy_color_sliceable(#[trigger] values@[i]@),
    ensures
        r@ == legacy_palette_spec(crate::text::views(values@)),
{
    let ghost vv = crate::text::views(values@);
    let mut out: Vec<(u8, u8, u8)> = Vec::new();
    let mut i: usize = 0;
    while i < values.len()
        invariant
            vv == crate::text::views(values@),
            0 <= i <= values@.len(),
            forall|k: int| 0 <= k < values@.len() ==> legacy_color_sliceable(#[trigger] values@[k]@),
            out@ == legacy_palette_spec(vv.take(i as int)),
        decreases values@.len() - i,
    {
        assert(vv.take(i + 1).drop_last() =~= vv.take(i as int));
        assert(vv.take(i + 1).last() == values@[i as int]@);
        if let Some(c) = legacy_color_rgb(values[i].as_str()) {
            out.push(c);
        }
        i = i + 1;
    }
    assert(vv.take(values@.len() as int) =~= vv);
    out
}

} // verus!
