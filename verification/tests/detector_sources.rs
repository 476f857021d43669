use cava_bg::detector::{
    detect_compositor, extract_ambxst_source_from_args, extract_media_candidates_from_args,
    extract_media_path_from_args, extract_qt_multimedia_source, first_path_in_lines, from_layer_background_scan,
    from_mpvpaper_process, from_swaybg_process, layer_background_entry, line_passes_exec, maps_use_qt_multimedia,
    parse_qml_source, process_exists, process_mentions, sway_config_wallpaper, BackgroundProcessInfo, LineFilter,
    ProcSnapshot, WaylandEnvironment,
};
use cava_bg::layers::{candidate_score, extract_basename, find_matching_layers, is_supported_layer_file};

fn strings(v: &[&str]) -> Vec<String> {
    v.iter().map(|s| s.to_string()).collect()
}

fn snap(comm: &str, args: &[&str]) -> ProcSnapshot {
    ProcSnapshot {
        pid: 10,
        comm: comm.to_string(),
        args: strings(args),
        open_files: vec![],
        cwd: None,
        uses_qt_multimedia: false,
    }
}

fn env(desktop: Option<&str>, display: bool, session: Option<&str>, sway: bool, hypr: bool) -> WaylandEnvironment {
    WaylandEnvironment {
        xdg_current_desktop: desktop.map(|s| s.to_string()),
        wayland_display: if display { Some("wayland-1".to_string()) } else { None },
        xdg_session_type: session.map(|s| s.to_string()),
        sway_sock: if sway { Some("/run/sway.sock".to_string()) } else { None },
        hyprland_instance_signature: if hypr { Some("abc".to_string()) } else { None },
    }
}

#[test]
fn compositor_from_environment() {
    assert_eq!(detect_compositor(&env(None, false, None, false, true), &[]).as_deref(), Some("Hyprland"));
    assert_eq!(detect_compositor(&env(Some("sway"), false, None, false, false), &[]).as_deref(), Some("Sway"));
    assert_eq!(detect_compositor(&env(Some("KDE"), false, None, false, false), &[]).as_deref(), Some("KDE Plasma Wayland"));
    assert_eq!(
        detect_compositor(&env(Some("GNOME"), false, Some("Wayland"), false, false), &[]).as_deref(),
        Some("GNOME Wayland")
    );
    assert_eq!(detect_compositor(&env(None, false, None, false, false), &[]), None);
}

#[test]
fn compositor_from_processes() {
    let procs = vec![snap("niri", &["niri", "--session"])];
    assert_eq!(detect_compositor(&env(None, false, None, false, false), &procs).as_deref(), Some("niri"));
    let procs = vec![snap("miriway-shell", &[])];
    assert_eq!(detect_compositor(&env(None, false, None, false, false), &procs).as_deref(), Some("Mir-based compositor"));
}

#[test]
fn process_mentions_are_case_insensitive() {
    let procs = vec![snap("MpvPaper", &["mpvpaper", "-o", "no-audio", "DP-1", "/w.mp4"])];
    assert!(process_exists("mpvpaper", &procs));
    assert!(process_exists("no-audio", &procs));
    assert!(!process_exists("swaybg", &procs));
    assert!(!process_mentions(&["hyprpaper", "MPVPAPER"], &procs[0]));
    assert!(process_mentions(&["swaybg", "mpvpaper"], &procs[0]));
}

#[test]
fn daemon_media_argument_is_last_plain_argument() {
    let args = strings(&["mpvpaper", "-o", "loop", "DP-1", "~/w.mp4", "--fork"]);
    assert_eq!(extract_media_path_from_args(&args, "mpvpaper", Some("/home/u")), Some("/home/u/w.mp4".to_string()));
    let args = strings(&["mpvpaper", "-v"]);
    assert_eq!(extract_media_path_from_args(&args, "mpvpaper", None), None);
}

#[test]
fn nonexistent_media_gives_nothing() {
    let args = strings(&["swaybg", "-i", "/nonexistent/w.png"]);
    assert_eq!(extract_media_candidates_from_args(&args, None), Vec::<String>::new());
    assert_eq!(extract_ambxst_source_from_args(&strings(&["ambxst", "--source=/nonexistent/a.mp4"]), None), None);
    assert_eq!(extract_qt_multimedia_source("qml /nonexistent/a.webm", None), None);
    assert_eq!(from_swaybg_process(&[snap("swaybg", &["swaybg", "-i", "/nonexistent/w.png"])], None), None);
    assert_eq!(from_mpvpaper_process(&[snap("mpvpaper", &["mpvpaper", "DP-1", "/nonexistent/w.mp4"])], None), None);
}

#[test]
fn line_filters() {
    assert!(line_passes_exec(LineFilter::Hyprpaper, "wallpaper = DP-1,/x.png"));
    assert!(line_passes_exec(LineFilter::Hyprpaper, "ipc = off, preload = /x"));
    assert!(!line_passes_exec(LineFilter::Hyprpaper, "splash = false"));
    assert!(line_passes_exec(LineFilter::QmlSource, "source: \"/x.mp4\""));
    assert!(!line_passes_exec(LineFilter::QmlSource, ""));
    assert!(line_passes_exec(LineFilter::PlasmaImage, "   Image=file:///x.png"));
    assert!(!line_passes_exec(LineFilter::NonEmpty, ""));
    assert!(line_passes_exec(LineFilter::Wpaperd, "path = \"/x\""));
}

#[test]
fn config_texts_without_existing_files() {
    assert_eq!(first_path_in_lines("wallpaper = ,/nonexistent/x.png\n", LineFilter::Hyprpaper, None), None);
    assert_eq!(parse_qml_source("Image { source: \"/nonexistent/x.mp4\" }", None), None);
    assert_eq!(sway_config_wallpaper("output * bg /nonexistent/x.png fill\n", None), None);
    assert_eq!(sway_config_wallpaper("", None), None);
}

#[test]
fn sway_bg_path_may_be_any_existing_path() {
    // `/` exists, and sway takes the word after `bg` as it is.
    assert_eq!(sway_config_wallpaper("output * bg / fill # comment\n", None), Some("/".to_string()));
    assert_eq!(sway_config_wallpaper("output * bg\n", None), None);
    assert_eq!(sway_config_wallpaper("# output * bg / fill\n", None), None);
}

#[test]
fn qt_multimedia_maps() {
    assert!(maps_use_qt_multimedia("7f00 r-xp /usr/lib/libQt6Multimedia.so.6\n"));
    assert!(!maps_use_qt_multimedia("7f00 r-xp /usr/lib/libQt6Core.so.6\n"));
}

#[test]
fn background_scan_entries() {
    assert!(layer_background_entry(&snap("firefox", &["firefox"]), None).is_none());
    let entry = layer_background_entry(&snap("quickshell", &["quickshell", "-c", "ambxst"]), None)
        .expect("quickshell is a candidate");
    assert_eq!(entry.process_name, "quickshell");
    assert_eq!(entry.args, strings(&["quickshell", "-c", "ambxst"]));
    assert!(entry.media_files.is_empty());
}

#[test]
fn background_scan_takes_first_media() {
    let mk = |pid: i32, media: &[&str]| BackgroundProcessInfo {
        pid,
        process_name: "x".to_string(),
        args: vec![],
        cwd: None,
        media_files: strings(media),
        open_files: vec![],
        uses_qt_multimedia: false,
    };
    assert_eq!(from_layer_background_scan(&[mk(1, &[]), mk(2, &["/b.mp4", "/c.mp4"])]), Some("/b.mp4".to_string()));
    assert_eq!(from_layer_background_scan(&[mk(1, &[])]), None);
}

#[test]
fn basenames_are_trimmed_stems() {
    assert_eq!(extract_basename("/w/city night.png"), Some("city night".to_string()));
    assert_eq!(extract_basename("/w/.hidden"), Some(".hidden".to_string()));
    assert_eq!(extract_basename("/"), None);
    assert_eq!(extract_basename("/w/ .png"), None);
}

#[test]
fn supported_layer_files() {
    assert!(is_supported_layer_file("/x/a_base.PNG"));
    assert!(is_supported_layer_file("/x/a.webm"));
    assert!(!is_supported_layer_file("/x/a.txt"));
    assert!(!is_supported_layer_file("/x/a"));
}

#[test]
fn layer_candidate_scores() {
    assert_eq!(candidate_score("city_base", "city_base", "layer1"), Some(0));
    assert_eq!(candidate_score("city_base_v2", "city_base", "layer1"), Some(1));
    assert_eq!(candidate_score("city_layer1", "city_base", "layer1"), Some(2));
    assert_eq!(candidate_score("city", "city_base", "layer1"), None);
}

#[test]
fn matching_layer_pair() {
    let files = strings(&["/x/City_Reveal.png", "/x/city_base_old.png", "/x/city_base.png", "/x/other_base.png"]);
    assert_eq!(
        find_matching_layers("/w/city.jpg", &files),
        Some(("/x/city_base.png".to_string(), "/x/City_Reveal.png".to_string()))
    );
    let legacy = strings(&["/x/city_layer2.png", "/x/city.png"]);
    assert_eq!(
        find_matching_layers("/w/city.jpg", &legacy),
        Some(("/x/city.png".to_string(), "/x/city_layer2.png".to_string()))
    );
    assert_eq!(find_matching_layers("/w/city.jpg", &strings(&["/x/city_base.png"])), None);
}

#[test]
fn mpvpaper_listing() {
    let f = cava_bg::detector::mpvpaper_playback;
    assert_eq!(f(""), None);
    // `/` exists: the last plain argument is taken as it is.
    assert_eq!(f("77 mpvpaper -o no-audio DP-1 /\n"), Some((77, "/".to_string())));
    // A line that does not start with a process id ends the search.
    assert_eq!(f("x mpvpaper DP-1 /\n78 mpvpaper DP-1 /\n"), None);
    // A line whose media does not exist is skipped.
    assert_eq!(f("5 mpvpaper DP-1 /nonexistent/a.mp4\n6 mpvpaper DP-2 /\n"), Some((6, "/".to_string())));
    // A line with flags only ends the search.
    assert_eq!(f("9 -v\n10 mpvpaper /\n"), None);
}

#[test]
fn chooser_takes_the_first_existing() {
    let c = strings(&["/a.png", "/b.png", "/c.png"]);
    assert_eq!(cava_bg::detector::pick_first_existing(&c, &vec![false, true, true]), Some(1));
    assert_eq!(cava_bg::detector::pick_first_existing(&c, &vec![true, false, true]), Some(0));
    assert_eq!(cava_bg::detector::pick_first_existing(&c, &vec![false, false, false]), None);
    assert_eq!(cava_bg::detector::pick_first_existing(&Vec::new(), &Vec::new()), None);
    assert_eq!(cava_bg::detector::keep_existing(&c, &vec![true, false, true]), strings(&["/a.png", "/c.png"]));
}

#[test]
fn candidate_lists_in_source_order() {
    let home = Some("/home/u");
    assert_eq!(
        cava_bg::detector::media_candidates(&strings(&["x", "~/w.jpg", "/tmp/a.txt", "'/v.MP4'"]), home),
        strings(&["/home/u/w.jpg", "/v.MP4"])
    );
    assert_eq!(
        cava_bg::detector::line_candidates("a\nWallpaperImage { source: \"/w/q.webm\" }\n", LineFilter::QmlSource, None),
        strings(&["/w/q.webm", "/w/q.webm"])
    );
    assert_eq!(
        cava_bg::detector::sway_candidates("output * bg ~/s.png fill\n# output x bg /n.png\noutput DP-1 bg /t.png fit\n", home),
        strings(&["/home/u/s.png", "/t.png"])
    );
    assert_eq!(cava_bg::detector::media_file_candidates(&strings(&["/a.so", "/b.gif"])), strings(&["/b.gif"]));
}

#[test]
fn existing_paths_are_picked() {
    // `/` exists on every machine: the first candidate that exists is returned.
    assert_eq!(sway_config_wallpaper("output * bg /nonexistent/x.png fill\noutput * bg / fill\n", None).as_deref(), Some("/"));
    let procs = vec![snap("swaybg", &["swaybg", "-i", "/nonexistent/y.png", "-i", "/"])];
    assert_eq!(from_swaybg_process(&procs, None).as_deref(), Some("/"));
    assert_eq!(cava_bg::detector::swaybg_process_candidates(&procs, None), strings(&["/nonexistent/y.png", "/", "/nonexistent/y.png"]));
}

#[test]
fn background_media_sorted_without_repeats() {
    let v = strings(&["/a-b", "/a/b", "/a/b", "/a"]);
    assert_eq!(cava_bg::order::sort_unique_paths(&v), strings(&["/a", "/a/b", "/a-b"]));
}
