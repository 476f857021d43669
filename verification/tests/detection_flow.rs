use cava_bg::detection::{
    cached_wallpaper, detection_begin, detection_step, detector_at, get_cached_detection_debug, DetectionAction,
    DetectionCache, WallpaperSource,
};
use cava_bg::detector::BackgroundProcessInfo;
use cava_bg::json::{find_path_in_json_value, json_get, json_string_leaves, parse_ambxst_config, parse_path_from_json_or_text, JsonValue};
use std::time::Instant;

#[test]
fn detectors_run_in_priority_order() {
    assert_eq!(detector_at(0), Some(WallpaperSource::AwwwQuery));
    assert_eq!(detector_at(3), Some(WallpaperSource::Gnome));
    assert_eq!(detector_at(5), Some(WallpaperSource::Ambxst));
    assert_eq!(detector_at(14), Some(WallpaperSource::SwayConfig));
    assert_eq!(detector_at(15), Some(WallpaperSource::MpvpaperProcess));
    assert_eq!(detector_at(26), Some(WallpaperSource::LayerBackgroundScan));
    assert_eq!(detector_at(27), None);
}

#[test]
fn detection_starts_with_first_detector() {
    match detection_begin() {
        DetectionAction::Try { source, index } => {
            assert_eq!(source, WallpaperSource::AwwwQuery);
            assert_eq!(index, 0);
        }
        other => panic!("unexpected {:?}", other),
    }
}

#[test]
fn existing_candidate_ends_detection() {
    match detection_step(4, Some("/w.png".to_string()), true) {
        DetectionAction::Detected(p) => assert_eq!(p, "/w.png"),
        other => panic!("unexpected {:?}", other),
    }
}

#[test]
fn missing_candidate_moves_to_next_detector() {
    match detection_step(4, Some("/gone.png".to_string()), false) {
        DetectionAction::Try { source, index } => {
            assert_eq!(source, WallpaperSource::Ambxst);
            assert_eq!(index, 5);
        }
        other => panic!("unexpected {:?}", other),
    }
    assert!(matches!(detection_step(26, None, false), DetectionAction::NotDetected));
}

fn info(pid: i32, media: &[&str]) -> BackgroundProcessInfo {
    BackgroundProcessInfo {
        pid,
        process_name: "mpvpaper".to_string(),
        args: vec!["mpvpaper".to_string(), "-o".to_string()],
        cwd: Some("/home/u".to_string()),
        media_files: media.iter().map(|m| m.to_string()).collect(),
        open_files: vec![],
        uses_qt_multimedia: false,
    }
}

#[test]
fn cache_answers_for_five_seconds() {
    let cache = Some(DetectionCache {
        wallpaper: Some("/w.png".to_string()),
        compositor: Some("Sway".to_string()),
        layer_processes: vec![],
        timestamp: Instant::now(),
    });
    assert_eq!(cached_wallpaper(&cache, 4_999_999_999), Some(Some("/w.png".to_string())));
    assert_eq!(cached_wallpaper(&cache, 5_000_000_000), None);
    assert_eq!(cached_wallpaper(&None, 0), None);
}

#[test]
fn cached_debug_copies_compositor_and_processes() {
    let cache = Some(DetectionCache {
        wallpaper: None,
        compositor: Some("Hyprland".to_string()),
        layer_processes: vec![info(3, &["/a.mp4"]), info(4, &[])],
        timestamp: Instant::now(),
    });
    let (comp, procs) = get_cached_detection_debug(&cache).expect("cache present");
    assert_eq!(comp.as_deref(), Some("Hyprland"));
    assert_eq!(procs.len(), 2);
    assert_eq!(procs[0].pid, 3);
    assert_eq!(procs[0].media_files, vec!["/a.mp4".to_string()]);
    assert_eq!(procs[1].cwd.as_deref(), Some("/home/u"));
    assert!(get_cached_detection_debug(&None).is_none());
}

fn s(x: &str) -> JsonValue {
    JsonValue::Str(x.to_string())
}

#[test]
fn json_string_leaves_depth_first() {
    let doc = JsonValue::Object(vec![
        ("a".to_string(), JsonValue::Array(vec![s("x"), JsonValue::Number, s("y")])),
        ("b".to_string(), JsonValue::Object(vec![("c".to_string(), s("z"))])),
        ("d".to_string(), JsonValue::Bool(true)),
        ("e".to_string(), JsonValue::Null),
    ]);
    assert_eq!(json_string_leaves(&doc), vec!["x", "y", "z"]);
}

#[test]
fn json_member_lookup() {
    let doc = JsonValue::Object(vec![("currentWall".to_string(), s("/w.png")), ("n".to_string(), JsonValue::Number)]);
    assert!(matches!(json_get(&doc, "currentWall"), Some(JsonValue::Str(p)) if p == "/w.png"));
    assert!(json_get(&doc, "missing").is_none());
    assert!(json_get(&s("x"), "currentWall").is_none());
}

#[test]
fn json_paths_must_exist() {
    let doc = JsonValue::Object(vec![("currentWall".to_string(), s("/nonexistent/w.png"))]);
    assert_eq!(find_path_in_json_value(&doc, None), None);
    assert_eq!(parse_ambxst_config(Some(&doc), "{\"currentWall\":\"/nonexistent/w.png\"}", None), None);
    assert_eq!(parse_path_from_json_or_text(None, "no paths here", None), None);
}
