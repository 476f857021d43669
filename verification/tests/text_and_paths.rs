use cava_bg::detector::{
    find_existing_path_in_text, is_media_extension, is_media_file_path, normalize_maybe_media_path,
    tokenize_path_candidates,
};
use cava_bg::layers::profile_layer_key;
use cava_bg::paths::{
    clean_path_text, expand_tilde, join_path, media_path_candidate, normalize_path, resolve_wallpapers_dir,
    resolve_xray_dir,
};
use cava_bg::text::{
    join_with_space, lines_of, split_by, str_contains, strip_comment, strip_prefix_str, trim_end_matches_str,
    trim_start_matches_str, trim_str, CharClass,
};

#[test]
fn trim_removes_unicode_whitespace() {
    assert_eq!(trim_str("  \t a b \n"), "a b");
    assert_eq!(trim_str("\u{3000}x\u{3000}"), "x");
    assert_eq!(trim_str("   "), "");
}

#[test]
fn split_whitespace_drops_empty_pieces() {
    assert_eq!(split_by("  a  b c ", CharClass::Whitespace, false), vec!["a", "b", "c"]);
    assert_eq!(split_by("", CharClass::Whitespace, false), Vec::<String>::new());
}

#[test]
fn split_on_punctuation_keeps_empty_pieces() {
    assert_eq!(split_by("a=b::c", CharClass::Punct, true), vec!["a", "b", "", "c"]);
    assert_eq!(split_by("", CharClass::Punct, true), vec![""]);
    assert_eq!(split_by("x;y,z", CharClass::Punct, true), vec!["x", "y", "z"]);
}

#[test]
fn lines_split_at_newlines_and_drop_carriage_returns() {
    assert_eq!(lines_of("a\r\nb\n\nc"), vec!["a", "b", "", "c"]);
    assert_eq!(lines_of("a\n"), vec!["a"]);
    assert_eq!(lines_of(""), Vec::<String>::new());
}

#[test]
fn comment_is_cut_at_first_hash() {
    assert_eq!(strip_comment("wallpaper = x # note"), "wallpaper = x ");
    assert_eq!(strip_comment("# all comment"), "");
    assert_eq!(strip_comment("no comment"), "no comment");
}

#[test]
fn prefix_and_suffix_stripping() {
    assert_eq!(trim_start_matches_str("##ff0000", "#"), "ff0000");
    assert_eq!(trim_end_matches_str("a.pid.pid", ".pid"), "a");
    assert_eq!(strip_prefix_str("--source=/x", "--source="), Some("/x".to_string()));
    assert_eq!(strip_prefix_str("-s", "--source="), None);
}

#[test]
fn join_with_single_spaces() {
    let args = vec!["mpvpaper".to_string(), "-o".to_string(), "x y".to_string()];
    assert_eq!(join_with_space(&args), "mpvpaper -o x y");
    assert_eq!(join_with_space(&[]), "");
}

#[test]
fn substring_search() {
    assert!(str_contains("output DP-1 bg /x fill", " bg "));
    assert!(!str_contains("output DP-1", " bg "));
    assert!(str_contains("abc", ""));
}

#[test]
fn tokens_come_from_three_splits_in_order() {
    let toks = tokenize_path_candidates("a=\"b c\"");
    assert_eq!(toks, vec!["a=\"b", "c\"", "a", "\"b c\"", "a=", "b c", ""]);
}

#[test]
fn joining_paths_like_pathbuf() {
    assert_eq!(join_path("/home/u", "x.png"), "/home/u/x.png");
    assert_eq!(join_path("/home/u/", "x.png"), "/home/u/x.png");
    assert_eq!(join_path("/home/u", "/abs/x.png"), "/abs/x.png");
    assert_eq!(join_path("", "rel"), "rel");
}

#[test]
fn cleaning_strips_whitespace_then_quotes() {
    let c: String = clean_path_text("  \"'/a b.png'\"  ").into_iter().collect();
    assert_eq!(c, "/a b.png");
}

#[test]
fn tilde_expansion_uses_home() {
    assert_eq!(expand_tilde("~/Pictures/w.png", Some("/home/u")), "/home/u/Pictures/w.png");
    assert_eq!(expand_tilde("~/Pictures/w.png", None), "~/Pictures/w.png");
    assert_eq!(expand_tilde("/etc/x", Some("/home/u")), "/etc/x");
    assert_eq!(normalize_path(" '~/a.jpg' ", Some("/home/u")), "/home/u/a.jpg");
}

#[test]
fn media_candidate_decodes_file_urls() {
    assert_eq!(
        media_path_candidate("file:///home/u/My%20Wall.png", None),
        Some("/home/u/My Wall.png".to_string())
    );
    assert_eq!(media_path_candidate("\"~/w.mp4\"", Some("/h")), Some("/h/w.mp4".to_string()));
    assert_eq!(media_path_candidate("   ", Some("/h")), None);
}

#[test]
fn media_extensions_ignore_case() {
    assert!(is_media_extension("png"));
    assert!(is_media_extension("heic"));
    assert!(!is_media_extension("PNG"));
    assert!(is_media_file_path("/w/Wall.PNG"));
    assert!(is_media_file_path("/w/clip.WebM"));
    assert!(!is_media_file_path("/w/notes.txt"));
    assert!(!is_media_file_path("/w/noext"));
}

#[test]
fn missing_files_are_not_media_paths() {
    assert_eq!(normalize_maybe_media_path("/nonexistent/dir/w.png", None), None);
    assert_eq!(normalize_maybe_media_path("/", None), None);
    assert_eq!(find_existing_path_in_text("wallpaper = /nonexistent/x.jpg", None), None);
}

#[test]
fn configured_directories() {
    assert_eq!(resolve_xray_dir(None, Some("/home/u")), Some("/home/u/.config/cava-bg/Xray".to_string()));
    assert_eq!(resolve_xray_dir(None, None), None);
    assert_eq!(resolve_xray_dir(Some("~/x"), Some("/home/u")), Some("/home/u/x".to_string()));
    // Only one leading `~/` is resolved.
    assert_eq!(resolve_wallpapers_dir(Some("~/~/w"), Some("/h")), Some("/h/~/w".to_string()));
    assert_eq!(resolve_wallpapers_dir(Some("/abs/w"), Some("/h")), Some("/abs/w".to_string()));
    assert_eq!(resolve_wallpapers_dir(None, Some("/h")), Some("/h/.config/cava-bg/wallpapers".to_string()));
}

#[test]
fn profile_layer_keys() {
    assert_eq!(profile_layer_key("layer1.png"), "layer1");
    assert_eq!(profile_layer_key("sky"), "sky");
    assert_eq!(profile_layer_key(".hidden"), ".hidden");
}
