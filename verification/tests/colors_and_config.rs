use cava_bg::config_model::{normalize_legacy_audio, GradientDirection, LegacyAudioCompat};
use cava_bg::colors::{hex_color_rgb, hex_color_string, legacy_color_rgb, parse_u8_hex_exec};
use cava_bg::config_model::{
    auto_wallpaper_enabled, effect_from_source, infer_layer_type, infer_source_type, manual_layers_specified,
    path_buffer_for_hidden, source_type_for_extension, viz_mode_label, BarShape, BlendMode, HiddenImageConfig,
    source_type_from_source, LayerSourceConfig, LayerSourceType, LayerType, NameNote, ParallaxEffectType,
    VisualizationMode, XRayAnimationType,
};
use cava_bg::config_model::{
    default_bar_amount, default_frame_cache_size, default_framerate, default_idle_fps, default_layer_fit,
    default_max_buffered_frames, default_wallpaper_check_interval, default_xray_blend_mode,
};

#[test]
fn radix16_bytes_like_from_str_radix() {
    assert_eq!(parse_u8_hex_exec(b"ff"), Some(255));
    assert_eq!(parse_u8_hex_exec(b"0A"), Some(10));
    assert_eq!(parse_u8_hex_exec(b"+f"), Some(15));
    assert_eq!(parse_u8_hex_exec(b"100"), None);
    assert_eq!(parse_u8_hex_exec(b"g0"), None);
    assert_eq!(parse_u8_hex_exec(b"+"), None);
    assert_eq!(parse_u8_hex_exec(b""), None);
    assert_eq!(parse_u8_hex_exec(b"-1"), None);
}

#[test]
fn legacy_colors_read_in_pairs() {
    assert_eq!(legacy_color_rgb(" #ff8000 "), Some((255, 128, 0)));
    assert_eq!(legacy_color_rgb("##0a0B0c"), Some((10, 11, 12)));
    assert_eq!(legacy_color_rgb("#fff"), None);
    assert_eq!(legacy_color_rgb("#ff80zz"), None);
}

#[test]
fn hex_colors_with_zero_fallback() {
    assert_eq!(hex_color_rgb("#102030"), (16, 32, 48));
    assert_eq!(hex_color_rgb("#abc"), (170, 187, 204));
    assert_eq!(hex_color_rgb("#zz2030"), (0, 32, 48));
    assert_eq!(hex_color_rgb("12345"), (0, 0, 0));
}

#[test]
fn colors_written_as_lowercase_hex() {
    assert_eq!(hex_color_string(255, 128, 0), "#ff8000");
    assert_eq!(hex_color_string(0, 10, 171), "#000aab");
}

#[test]
fn visualization_modes_by_name() {
    assert_eq!(VisualizationMode::from_name("waveform"), (VisualizationMode::Waveform, NameNote::Known));
    assert_eq!(VisualizationMode::from_name("mirror_bars"), (VisualizationMode::MirrorBars, NameNote::Known));
    assert_eq!(VisualizationMode::from_name("Spiral"), (VisualizationMode::Ring, NameNote::Deprecated));
    assert_eq!(VisualizationMode::from_name("line"), (VisualizationMode::Spectrum, NameNote::Known));
    assert_eq!(VisualizationMode::from_name("no-such-mode"), (VisualizationMode::Bars, NameNote::Unknown));
    assert_eq!(viz_mode_label(VisualizationMode::Waveform), viz_mode_label(VisualizationMode::from_name("Waveform").0));
}

#[test]
fn bar_shapes_by_name() {
    assert_eq!(BarShape::from_name("circle").0, BarShape::Circle);
    assert_eq!(BarShape::from_name("Triangle").0, BarShape::Triangle);
    assert_eq!(BarShape::from_name("LINE"), (BarShape::Rectangle, NameNote::Unknown));
}

#[test]
fn layer_types_from_extensions() {
    assert_eq!(source_type_for_extension("mp4"), LayerSourceType::Video);
    assert_eq!(source_type_for_extension("gif"), LayerSourceType::Gif);
    assert_eq!(source_type_for_extension("png"), LayerSourceType::StaticImage);
    assert_eq!(infer_layer_type("/a/B.WEBM"), LayerSourceType::Video);
    assert_eq!(infer_source_type("/a/b.jpg"), LayerSourceType::StaticImage);
    assert_eq!(LayerType::from_source_type(LayerSourceType::Video), LayerType::Video);
}

#[test]
fn effect_layers_from_source_text() {
    assert!(effect_from_source("/a/b.png").is_none());
    assert_eq!(effect_from_source("  effect:Cava-Wave "), Some(ParallaxEffectType::CavaWave));
    assert_eq!(effect_from_source("effect:radial"), Some(ParallaxEffectType::CavaRadial));
    assert_eq!(effect_from_source("effect:sparkles"), Some(ParallaxEffectType::CavaBars));
    assert_eq!(source_type_from_source("dir.v2/clip.MKV"), LayerSourceType::Video);
    assert_eq!(source_type_from_source("noext"), LayerSourceType::StaticImage);
}

#[test]
fn defaults_of_enums() {
    assert_eq!(BlendMode::default(), BlendMode::Reveal);
    assert_eq!(XRayAnimationType::default(), XRayAnimationType::NoAnimation);
}

#[test]
fn hidden_image_path_buffer() {
    let mut cfg = HiddenImageConfig::default();
    assert_eq!(*path_buffer_for_hidden(&mut cfg), "");
    assert_eq!(cfg.path.as_deref(), Some(""));
    cfg.path = Some("/x.png".to_string());
    assert_eq!(*path_buffer_for_hidden(&mut cfg), "/x.png");
    path_buffer_for_hidden(&mut cfg).push_str(".bak");
    assert_eq!(cfg.path.as_deref(), Some("/x.png.bak"));
}

fn source(path: &str) -> LayerSourceConfig {
    LayerSourceConfig { source_type: LayerSourceType::StaticImage, path: path.to_string(), looping: true }
}

#[test]
fn manual_layers_need_a_non_blank_path() {
    assert!(!manual_layers_specified(None));
    assert!(!manual_layers_specified(Some((&source("  "), &source("")))));
    assert!(manual_layers_specified(Some((&source(""), &source("/r.png")))));
    assert!(auto_wallpaper_enabled(true, None));
    assert!(!auto_wallpaper_enabled(true, Some((&source("/b.png"), &source("")))));
    assert!(!auto_wallpaper_enabled(false, None));
}

#[test]
fn written_colors_read_back() {
    for (r, g, b) in [(0u8, 0u8, 0u8), (255, 255, 255), (18, 52, 86), (171, 205, 239)] {
        assert_eq!(legacy_color_rgb(&hex_color_string(r, g, b)), Some((r, g, b)));
    }
}

#[test]
fn cava_config_text() {
    let text = cava_bg::cava::cava_raw_config(30, Some(true), Some(100), 76, Some(2), Some(0), Some("0.98"));
    assert_eq!(
        text,
        "[general]\nframerate = 30\nautosens = 1\nsensitivity = 100\n\n[output]\nbars = 76\nmethod = raw\nraw_target = /dev/stdout\nbit_format = 16bit\n\n[smoothing]\nmonstercat = 2\nwaves = 0\nnoise_reduction = 0.98\n"
    );
    let bare = cava_bg::cava::cava_raw_config(60, Some(false), None, 8, None, None, None);
    assert_eq!(
        bare,
        "[general]\nframerate = 60\nautosens = 0\n\n[output]\nbars = 8\nmethod = raw\nraw_target = /dev/stdout\nbit_format = 16bit\n\n[smoothing]\n"
    );
}

#[test]
fn configuration_defaults() {
    assert_eq!(default_framerate(), 60);
    assert_eq!(default_bar_amount(), 76);
    assert_eq!(default_max_buffered_frames(), 6);
    assert_eq!(default_frame_cache_size(), 120);
    assert_eq!(default_idle_fps(), 10);
    assert_eq!(default_wallpaper_check_interval(), 5);
    assert_eq!(default_layer_fit(), "cover");
    assert!(matches!(default_xray_blend_mode(), BlendMode::Normal));
}

#[test]
fn parallax_layer_compatibility_pass() {
    use_layer_compat();
}

fn use_layer_compat() {
    let mut l = cava_bg::config_model::ParallaxLayerCompat {
        source: " effect:Wave ".to_string(),
        effect: None,
        layer_type: None,
        react_to_audio: true,
        audio_enabled: false,
        react_to_mouse: false,
        mouse_enabled: false,
    };
    cava_bg::config_model::normalize_layer_compat(&mut l);
    assert_eq!(l.effect, Some(ParallaxEffectType::CavaWave));
    assert_eq!(l.layer_type, Some(LayerSourceType::StaticImage));
    assert!(l.audio_enabled);
    assert!(!l.mouse_enabled);
    let mut v = cava_bg::config_model::ParallaxLayerCompat {
        source: "/w/clip.WEBM".to_string(),
        effect: None,
        layer_type: None,
        react_to_audio: false,
        audio_enabled: false,
        react_to_mouse: true,
        mouse_enabled: false,
    };
    cava_bg::config_model::normalize_layer_compat(&mut v);
    assert_eq!(v.effect, None);
    assert_eq!(v.layer_type, Some(LayerSourceType::Video));
    assert!(v.mouse_enabled);
}

#[test]
fn legacy_audio_compatibility_pass() {
    let mut a = LegacyAudioCompat {
        bar_gradient: false,
        gradient_enabled: true,
        gradient_colors: vec![(1u8, 2u8, 3u8)],
        legacy_gradient_colors: Vec::new(),
        gradient_direction: GradientDirection::TopToBottom,
        legacy_direction: GradientDirection::LeftToRight,
        glow_effect: true,
        glow_enabled: false,
    };
    normalize_legacy_audio(&mut a);
    assert!(a.bar_gradient && a.gradient_enabled);
    assert!(a.glow_effect && a.glow_enabled);
    assert_eq!(a.legacy_gradient_colors, vec![(1, 2, 3)]);
    assert_eq!(a.gradient_colors, vec![(1, 2, 3)]);
    assert_eq!(a.gradient_direction, GradientDirection::LeftToRight);
    let mut b = LegacyAudioCompat {
        bar_gradient: false,
        gradient_enabled: false,
        gradient_colors: vec![1u8],
        legacy_gradient_colors: vec![7u8, 8],
        gradient_direction: GradientDirection::TopToBottom,
        legacy_direction: GradientDirection::BottomToTop,
        glow_effect: false,
        glow_enabled: false,
    };
    normalize_legacy_audio(&mut b);
    assert!(!b.bar_gradient && !b.gradient_enabled && !b.glow_effect && !b.glow_enabled);
    assert_eq!(b.gradient_colors, vec![7, 8]);
}

#[test]
fn legacy_palette_skips_unreadable_entries() {
    let v: Vec<String> = ["#ff0000", " 00ff00 ", "#fff", "#gg0000", "##0000ff"].iter().map(|s| s.to_string()).collect();
    assert_eq!(cava_bg::colors::legacy_palette(&v), vec![(255, 0, 0), (0, 255, 0), (0, 0, 255)]);
}

#[test]
fn profiles_sorted_by_name() {
    let names: Vec<String> = ["zeta", "alpha", "notes.txt", "mid"].iter().map(|s| s.to_string()).collect();
    let r = cava_bg::layers::profile_names(&names, &[true, true, false, true]);
    assert_eq!(r, vec!["alpha".to_string(), "mid".to_string(), "zeta".to_string()]);
}

#[test]
fn profile_layer_settings_by_stem() {
    let mut m = cava_bg::namemap::NameMap::new();
    m.insert("layer1", 5u32);
    assert_eq!(cava_bg::layers::profile_layer_settings(&m, "layer1.png"), Some(&5));
    assert_eq!(cava_bg::layers::profile_layer_settings(&m, "layer2.png"), None);
}
