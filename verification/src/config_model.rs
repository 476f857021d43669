//! The plain-valued part of the configuration model: the enumerations of
//! the config file, the integer and flag defaults, the parts of the
//! configuration without fractional values, and the name parsing that the
//! config loader applies to mode and shape names.

use vstd::prelude::*;
use crate::text::{str_eq, chars_of, string_from_chars, trim, trim_str};

verus! {

/// Direction of the legacy bar gradient.
#[derive(Debug, Clone, Copy, PartialEq, Eq, Structural)]
pub enum GradientDirection {
    TopToBottom,
    BottomToTop,
    LeftToRight,
    RightToLeft,
}

impl Default for GradientDirection {
    fn default() -> (r: Self)
        ensures
            r == GradientDirection::BottomToTop,
    {
        GradientDirection::BottomToTop
    }
}

/// How colors are taken from the wallpaper.
#[derive(Debug, Clone, Copy, PartialEq, Eq, Structural)]
pub enum ColorExtractionMode {
    Dominant,
    Vibrant,
    Palette,
}

impl Default for ColorExtractionMode {
    fn default() -> (r: Self)
        ensures
            r == ColorExtractionMode::Dominant,
    {
        ColorExtractionMode::Dominant
    }
}

/// How the audio spectrum is drawn.
#[derive(Debug, Clone, Copy, PartialEq, Eq, Structural)]
pub enum VisualizationMode {
    Bars,
    Waveform,
    Blocks,
    /// Bars mirrored vertically around the horizontal center line.
    MirrorBars,
    /// Bars hanging from the top edge.
    InvertedBars,
    /// A thick line through the tops of the bars.
    Spectrum,
    /// A filled ring whose thickness follows the amplitudes.
    Ring,
}

impl Default for VisualizationMode {
    fn default() -> (r: Self)
        ensures
            r == VisualizationMode::Bars,
    {
        VisualizationMode::Bars
    }
}

/// How a name of the config file was recognised.
#[derive(Debug, Clone, Copy, PartialEq, Eq, Structural)]
pub enum NameNote {
    /// A current name of the value.
    Known,
    /// A name of a mode that no longer exists, mapped to its replacement.
    Deprecated,
    /// An unknown name, mapped to the default.
    Unknown,
}

/// The visualization mode that the config name `s` selects, and how `s` was
/// recognised: `Radial`/`Spiral` (either case of the first letter) are
/// deprecated names of `Ring`; unknown names fall back to `Bars`.
pub open spec fn visualization_mode_spec(s: Seq<char>) -> (VisualizationMode, NameNote) {
    if s == "Bars"@ || s == "bars"@ {
        (VisualizationMode::Bars, NameNote::Known)
    } else if s == "Radial"@ || s == "radial"@ || s == "Spiral"@ || s == "spiral"@ {
        (VisualizationMode::Ring, NameNote::Deprecated)
    } else if s == "Waveform"@ || s == "waveform"@ {
        (VisualizationMode::Waveform, NameNote::Known)
    } else if s == "Blocks"@ || s == "blocks"@ {
        (VisualizationMode::Blocks, NameNote::Known)
    } else if s == "MirrorBars"@ || s == "mirror"@ || s == "Mirror"@ || s == "mirror_bars"@ {
        (VisualizationMode::MirrorBars, NameNote::Known)
    } else if s == "InvertedBars"@ || s == "inverted"@ || s == "Inverted"@ || s == "inverted_bars"@ {
        (VisualizationMode::InvertedBars, NameNote::Known)
    } else if s == "Spectrum"@ || s == "spectrum"@ || s == "Line"@ || s == "line"@ {
        (VisualizationMode::Spectrum, NameNote::Known)
    } else if s == "Ring"@ || s == "ring"@ {
        (VisualizationMode::Ring, NameNote::Known)
    } else {
        (VisualizationMode::Bars, NameNote::Unknown)
    }
}

impl VisualizationMode {
    /// The mode a config name selects (see `visualization_mode_spec`).
    pub fn from_name(s: &str) -> (r: (VisualizationMode, NameNote))
        ensures
            r == visualization_mode_spec(s@),
    {
        if str_eq(s, "Bars") || str_eq(s, "bars") {
            (VisualizationMode::Bars, NameNote::Known)
        } else if str_eq(s, "Radial") || str_eq(s, "radial") || str_eq(s, "Spiral") || str_eq(s, "spiral") {
            (VisualizationMode::Ring, NameNote::Deprecated)
        } else if str_eq(s, "Waveform") || str_eq(s, "waveform") {
            (VisualizationMode::Waveform, NameNote::Known)
        } else if str_eq(s, "Blocks") || str_eq(s, "blocks") {
            (VisualizationMode::Blocks, NameNote::Known)
        } else if str_eq(s, "MirrorBars") || str_eq(s, "mirror") || str_eq(s, "Mirror") || str_eq(s, "mirror_bars") {
            (VisualizationMode::MirrorBars, NameNote::Known)
        } else if str_eq(s, "InvertedBars") || str_eq(s, "inverted") || str_eq(s, "Inverted") || str_eq(s, "inverted_bars") {
            (VisualizationMode::InvertedBars, NameNote::Known)
        } else if str_eq(s, "Spectrum") || str_eq(s, "spectrum") || str_eq(s, "Line") || str_eq(s, "line") {
            (VisualizationMode::Spectrum, NameNote::Known)
        } else if str_eq(s, "Ring") || str_eq(s, "ring") {
            (VisualizationMode::Ring, NameNote::Known)
        } else {
            (VisualizationMode::Bars, NameNote::Unknown)
        }
    }
}

/// The label the configuration editor shows for a mode.
pub open spec fn viz_mode_label_spec(value: VisualizationMode) -> Seq<char> {
    match value {
        VisualizationMode::Bars => "Bars"@,
        VisualizationMode::MirrorBars => "Mirror Bars"@,
        VisualizationMode::InvertedBars => "Inverted Bars"@,
        VisualizationMode::Blocks => "Blocks"@,
        VisualizationMode::Waveform => "Waveform"@,
        VisualizationMode::Spectrum => "Spectrum"@,
        VisualizationMode::Ring => "Ring"@,
    }
}

/// The label the configuration editor shows for a mode.
pub fn viz_mode_label(value: VisualizationMode) -> (r: &'static str)
    ensures
        r@ == viz_mode_label_spec(value),
{
    match value {
        VisualizationMode::Bars => "Bars",
        VisualizationMode::MirrorBars => "Mirror Bars",
        VisualizationMode::InvertedBars => "Inverted Bars",
        VisualizationMode::Blocks => "Blocks",
        VisualizationMode::Waveform => "Waveform",
        VisualizationMode::Spectrum => "Spectrum",
        VisualizationMode::Ring => "Ring",
    }
}

/// The shape of one bar.
#[derive(Debug, Clone, Copy, PartialEq, Eq, Structural)]
pub enum BarShape {
    Rectangle,
    Circle,
    Triangle,
    Line,
}

impl Default for BarShape {
    fn default() -> (r: Self)
        ensures
            r == BarShape::Rectangle,
    {
        BarShape::Rectangle
    }
}

/// The bar shape a config name selects; unknown names fall back to `Rectangle`.
pub open spec fn bar_shape_spec(s: Seq<char>) -> (BarShape, NameNote) {
    if s == "Rectangle"@ || s == "rectangle"@ {
        (BarShape::Rectangle, NameNote::Known)
    } else if s == "Circle"@ || s == "circle"@ {
        (BarShape::Circle, NameNote::Known)
    } else if s == "Triangle"@ || s == "triangle"@ {
        (BarShape::Triangle, NameNote::Known)
    } else if s == "Line"@ || s == "line"@ {
        (BarShape::Line, NameNote::Known)
    } else {
        (BarShape::Rectangle, NameNote::Unknown)
    }
}

impl BarShape {
    /// The bar shape a config name selects (see `bar_shape_spec`).
    pub fn from_name(s: &str) -> (r: (BarShape, NameNote))
        ensures
            r == bar_shape_spec(s@),
    {
        if str_eq(s, "Rectangle") || str_eq(s, "rectangle") {
            (BarShape::Rectangle, NameNote::Known)
        } else if str_eq(s, "Circle") || str_eq(s, "circle") {
            (BarShape::Circle, NameNote::Known)
        } else if str_eq(s, "Triangle") || str_eq(s, "triangle") {
            (BarShape::Triangle, NameNote::Known)
        } else if str_eq(s, "Line") || str_eq(s, "line") {
            (BarShape::Line, NameNote::Known)
        } else {
            (BarShape::Rectangle, NameNote::Unknown)
        }
    }
}

/// Where the visualizer is placed on the output.
#[derive(Debug, Clone, Copy, PartialEq, Eq, Structural)]
pub enum Position {
    Fill,
    Center,
    Top,
    Bottom,
    Left,
    Right,
    Custom,
}

impl Default for Position {
    fn default() -> (r: Self)
        ensures
            r == Position::Fill,
    {
        Position::Fill
    }
}

/// The layer-shell layer of the visualizer surface.
#[derive(Debug, Clone, Copy, PartialEq, Eq, Structural)]
pub enum LayerChoice {
    Background,
    Bottom,
    Top,
    Overlay,
}

impl Default for LayerChoice {
    fn default() -> (r: Self)
        ensures
            r == LayerChoice::Bottom,
    {
        LayerChoice::Bottom
    }
}

/// What kind of media a layer source is.
#[derive(Debug, Clone, Copy, PartialEq, Eq, Structural)]
pub enum LayerSourceType {
    StaticImage,
    Video,
    Gif,
}

/// The layer kind that a lower-cased file extension indicates: `gif` is a GIF,
/// the known video extensions are videos, anything else a static image.
pub open spec fn source_type_for_ext(ext: Seq<char>) -> LayerSourceType {
    if ext == "gif"@ {
        LayerSourceType::Gif
    } else if ext == "mp4"@ || ext == "webm"@ || ext == "mkv"@ || ext == "mov"@ || ext == "avi"@
        || ext == "m4v"@ || ext == "flv"@ || ext == "wmv"@ {
        LayerSourceType::Video
    } else {
        LayerSourceType::StaticImage
    }
}

/// The layer kind that a lower-cased file extension indicates (see `source_type_for_ext`).
pub fn source_type_for_extension(ext: &str) -> (r: LayerSourceType)
    ensures
        r == source_type_for_ext(ext@),
{
    if str_eq(ext, "gif") {
        LayerSourceType::Gif
    } else if str_eq(ext, "mp4") || str_eq(ext, "webm") || str_eq(ext, "mkv") || str_eq(ext, "mov")
        || str_eq(ext, "avi") || str_eq(ext, "m4v") || str_eq(ext, "flv") || str_eq(ext, "wmv") {
        LayerSourceType::Video
    } else {
        LayerSourceType::StaticImage
    }
}

/// The ASCII-lower-cased text of an optional extension, empty when absent.
pub open spec fn lowered_ext(e: Option<Seq<char>>) -> Seq<char> {
    match e {
        Some(x) => crate::text::ascii_lower_seq(x),
        None => Seq::empty(),
    }
}

/// ASCII lower-casing of a string (`str::to_ascii_lowercase`).
pub fn to_ascii_lowercase(s: &str) -> (r: String)
    ensures
        r@ == crate::text::ascii_lower_seq(s@),
{
    let v = chars_of(s);
    let mut out: Vec<char> = Vec::new();
    let mut i: usize = 0;
    while i < v.len()
        invariant
            0 <= i <= v@.len(),
            out@ =~= crate::text::ascii_lower_seq(v@.take(i as int)),
        decreases v@.len() - i,
    {
        out.push(crate::text::to_ascii_lower_char(v[i]));
        i = i + 1;
        assert(out@ =~= crate::text::ascii_lower_seq(v@.take(i as int)));
    }
    assert(v@.take(v@.len() as int) =~= v@);
    string_from_chars(out.as_slice())
}

/// The layer kind of a file by its path: the extension `Path::extension`
/// gives, ASCII lower-cased, classified by `source_type_for_ext`.
pub open spec fn infer_type_spec(path: Seq<char>) -> LayerSourceType {
    source_type_for_ext(lowered_ext(crate::paths::spec_path_extension(path)))
}

/// The layer kind of a file by its path extension (see `infer_type_spec`).
pub fn infer_layer_type(path: &str) -> (r: LayerSourceType)
    ensures
        r == infer_type_spec(path@),
{
    match crate::paths::path_extension(path) {
        Some(e) => {
            let lower = to_ascii_lowercase(e.as_str());
            source_type_for_extension(lower.as_str())
        },
        None => {
            let empty = string_from_chars(Vec::<char>::new().as_slice());
            assert(empty@ =~= Seq::<char>::empty());
            source_type_for_extension(empty.as_str())
        },
    }
}

/// The layer source type the configuration editor infers for a typed-in path
/// (the same rule as `infer_layer_type`).
pub fn infer_source_type(path: &str) -> (r: LayerSourceType)
    ensures
        r == infer_type_spec(path@),
{
    infer_layer_type(path)
}

/// The text after the last `.` of `s`, or nothing when `s` has no `.`
/// (`str::rsplit_once('.')`).
pub open spec fn after_last_dot(s: Seq<char>) -> Option<Seq<char>>
    decreases s.len(),
{
    if s.len() == 0 {
        None
    } else if s.last() == '.' {
        Some(Seq::empty())
    } else {
        match after_last_dot(s.drop_last()) {
            Some(x) => Some(x.push(s.last())),
            None => None,
        }
    }
}

/// The layer kind of a parallax layer source, by the text after its last `.`
/// (lower-cased); no `.` gives a static image.
pub open spec fn source_type_from_source_spec(source: Seq<char>) -> LayerSourceType {
    source_type_for_ext(lowered_ext(after_last_dot(source)))
}

/// The layer kind of a parallax layer source (see `source_type_from_source_spec`).
pub fn source_type_from_source(source: &str) -> (r: LayerSourceType)
    ensures
        r == source_type_from_source_spec(source@),
{
    let v = chars_of(source);
    let n = v.len();
    let mut i: usize = n;
    proof {
        assert(v@.take(n as int) =~= v@);
        match after_last_dot(v@) {
            Some(x) => {
                assert(x + v@.subrange(n as int, n as int) =~= x);
            },
            None => {},
        }
    }
    while i > 0 && v[i - 1] != '.'
        invariant
            0 <= i <= n == v@.len(),
            forall|k: int| i <= k < n ==> v@[k] != '.',
            after_last_dot(v@) == match after_last_dot(v@.take(i as int)) {
                Some(x) => Some(x + v@.subrange(i as int, n as int)),
                None => None,
            },
        decreases i,
    {
        proof {
            let t = v@.take(i as int);
            assert(t.drop_last() =~= v@.take(i - 1));
            assert(t.last() == v@[i - 1]);
            match after_last_dot(v@.take(i - 1)) {
                Some(x) => {
                    assert(x.push(v@[i - 1]) + v@.subrange(i as int, n as int) =~= x + v@.subrange(i - 1, n as int));
                },
                None => {},
            }
        }
        i = i - 1;
    }
    proof {
        if i == 0 {
            assert(v@.take(0) =~= Seq::<char>::empty());
        } else {
            let t = v@.take(i as int);
            assert(t.last() == '.');
            assert(Seq::<char>::empty() + v@.subrange(i as int, n as int) =~= v@.subrange(i as int, n as int));
        }
        assert(v@.take(n as int) =~= v@);
        assert(v@.subrange(n as int, n as int) =~= Seq::<char>::empty());
    }
    let ext = if i == 0 {
        string_from_chars(Vec::<char>::new().as_slice())
    } else {
        string_from_chars(crate::text::sub_chars(v.as_slice(), i, n).as_slice())
    };
    let lower = to_ascii_lowercase(ext.as_str());
    proof {
        if i == 0 {
            assert(ext@ =~= Seq::<char>::empty());
            assert(crate::text::ascii_lower_seq(ext@) =~= Seq::<char>::empty());
        }
    }
    source_type_for_extension(lower.as_str())
}

/// The effect a parallax layer source `effect:<tag>` asks for, by its tag.
#[derive(Debug, Clone, Copy, PartialEq, Eq, Structural)]
pub enum ParallaxEffectType {
    CavaBars,
    CavaWave,
    CavaRadial,
}

impl Default for ParallaxEffectType {
    fn default() -> (r: Self)
        ensures
            r == ParallaxEffectType::CavaBars,
    {
        ParallaxEffectType::CavaBars
    }
}

/// The effect that an `effect:` tag (lower-cased) selects; unknown tags draw bars.
pub open spec fn effect_type_spec(tag: Seq<char>) -> ParallaxEffectType {
    if tag == "cava-wave"@ || tag == "wave"@ {
        ParallaxEffectType::CavaWave
    } else if tag == "cava-radial"@ || tag == "radial"@ {
        ParallaxEffectType::CavaRadial
    } else {
        ParallaxEffectType::CavaBars
    }
}

/// The effect that an `effect:` tag (already lower-cased) selects.
pub fn effect_type_for_tag(tag: &str) -> (r: ParallaxEffectType)
    ensures
        r == effect_type_spec(tag@),
{
    if str_eq(tag, "cava-wave") || str_eq(tag, "wave") {
        ParallaxEffectType::CavaWave
    } else if str_eq(tag, "cava-radial") || str_eq(tag, "radial") {
        ParallaxEffectType::CavaRadial
    } else {
        ParallaxEffectType::CavaBars
    }
}

/// The effect a parallax layer source names: for a trimmed source starting
/// with `effect:`, the effect of its tag (all leading `effect:` removed,
/// ASCII lower-cased); `None` for other sources.
pub fn effect_from_source(source: &str) -> (r: Option<ParallaxEffectType>)
    ensures
        crate::text::starts_with_seq(crate::text::trim(source@), "effect:"@) ==> r == Some(
            effect_type_spec(crate::text::ascii_lower_seq(crate::text::strip_all_prefix(crate::text::trim(source@), "effect:"@))),
        ),
        !crate::text::starts_with_seq(crate::text::trim(source@), "effect:"@) ==> r is None,
{
    let t = crate::text::trim_str(source);
    if crate::text::str_starts_with(t.as_str(), "effect:") {
        let tag = crate::text::trim_start_matches_str(t.as_str(), "effect:");
        let lower = to_ascii_lowercase(tag.as_str());
        Some(effect_type_for_tag(lower.as_str()))
    } else {
        None
    }
}

/// How parallax layers move.
#[derive(Debug, Clone, Copy, PartialEq, Eq, Structural)]
pub enum ParallaxMode {
    AudioReactive,
    MouseReactive,
    Animated,
    Hybrid,
}

impl Default for ParallaxMode {
    fn default() -> (r: Self)
        ensures
            r == ParallaxMode::AudioReactive,
    {
        ParallaxMode::AudioReactive
    }
}

/// Where parallax profiles come from.
#[derive(Debug, Clone, Copy, PartialEq, Eq, Structural)]
pub enum ProfileSource {
    Normal,
    FromWallpaper,
}

impl Default for ProfileSource {
    fn default() -> (r: Self)
        ensures
            r == ProfileSource::FromWallpaper,
    {
        ProfileSource::FromWallpaper
    }
}

/// Named parallax presets.
#[derive(Debug, Clone, Copy, PartialEq, Eq, Structural)]
pub enum ParallaxPreset {
    SoftDepth,
    AudioPulse,
    Cinematic,
}

/// The part of the spectrum a layer reacts to.
#[derive(Debug, Clone, Copy, PartialEq, Eq, Structural)]
pub enum FrequencyZone {
    FullSpectrum,
    Low,
    Mid,
    High,
}

impl Default for FrequencyZone {
    fn default() -> (r: Self)
        ensures
            r == FrequencyZone::FullSpectrum,
    {
        FrequencyZone::FullSpectrum
    }
}

/// How audio amplitude maps to layer motion.
#[derive(Debug, Clone, Copy, PartialEq, Eq, Structural)]
pub enum AudioResponseCurve {
    Linear,
    Smooth,
    Exponential,
    Punchy,
}

impl Default for AudioResponseCurve {
    fn default() -> (r: Self)
        ensures
            r == AudioResponseCurve::Smooth,
    {
        AudioResponseCurve::Smooth
    }
}

/// Layer animations.
#[derive(Debug, Clone, Copy, PartialEq, Eq, Structural)]
pub enum AnimationType {
    Float,
    Rotate,
    Scale,
    Pulse,
    Wiggle,
}

impl Default for AnimationType {
    fn default() -> (r: Self)
        ensures
            r == AnimationType::Float,
    {
        AnimationType::Float
    }
}

/// Where the X-ray mask is computed.
#[derive(Debug, Clone, Copy, PartialEq, Eq, Structural)]
pub enum MaskComputeMode {
    Auto,
    Cpu,
    Gpu,
}

impl Default for MaskComputeMode {
    fn default() -> (r: Self)
        ensures
            r == MaskComputeMode::Auto,
    {
        MaskComputeMode::Auto
    }
}

/// Color palettes for the hidden-image effect.
#[derive(Debug, Clone, Copy, PartialEq, Eq, Structural)]
pub enum PaletteType {
    Catppuccin,
    Nord,
    Gruvbox,
    Solarized,
}

/// Filters applied to the revealed image.
#[derive(Debug, Clone, Copy, PartialEq, Eq, Structural)]
pub enum HiddenImageEffect {
    /// No filter (the config file calls it `None`).
    NoEffect,
    Grayscale,
    Invert,
    Sepia,
    Palette(PaletteType),
}

impl Default for HiddenImageEffect {
    fn default() -> (r: Self)
        ensures
            r == HiddenImageEffect::NoEffect,
    {
        HiddenImageEffect::NoEffect
    }
}

/// How a layer is blended.
#[derive(Debug, Clone, Copy, PartialEq, Eq, Structural)]
pub enum BlendMode {
    Reveal,
    Normal,
    Add,
    Multiply,
    Screen,
    Overlay,
}

impl Default for BlendMode {
    fn default() -> (r: Self)
        ensures
            r == BlendMode::Reveal,
    {
        BlendMode::Reveal
    }
}

/// X-ray reveal animations.
#[derive(Debug, Clone, Copy, PartialEq, Eq, Structural)]
pub enum XRayAnimationType {
    /// No animation (the config file calls it `None`).
    NoAnimation,
    Fade,
    Pulse,
    WaveReveal,
    AudioSync,
    WallpaperSync,
}

impl Default for XRayAnimationType {
    fn default() -> (r: Self)
        ensures
            r == XRayAnimationType::NoAnimation,
    {
        XRayAnimationType::NoAnimation
    }
}

/// The hidden image revealed by the bars.
#[derive(Debug, Clone)]
pub struct HiddenImageConfig {
    pub use_wallpaper: bool,
    pub path: Option<String>,
    pub effect: HiddenImageEffect,
    pub blend_mode: BlendMode,
    pub wallpapers_dir: Option<String>,
}

impl Default for HiddenImageConfig {
    fn default() -> (r: Self)
        ensures
            !r.use_wallpaper,
            r.path is None,
            r.effect == HiddenImageEffect::NoEffect,
            r.blend_mode == BlendMode::Reveal,
            r.wallpapers_dir is None,
    {
        HiddenImageConfig {
            use_wallpaper: false,
            path: None,
            effect: HiddenImageEffect::NoEffect,
            blend_mode: BlendMode::Reveal,
            wallpapers_dir: None,
        }
    }
}

/// The text of the hidden image's path, or the empty text when there is none.
pub open spec fn hidden_path_text(path: Option<String>) -> Seq<char> {
    match path {
        Some(p) => p@,
        None => Seq::empty(),
    }
}

/// The path buffer the configuration editor edits for the hidden image: the
/// configured path itself, set to the empty text first when there is none.
/// What is written through the returned reference becomes the configured path.
pub fn path_buffer_for_hidden(cfg: &mut HiddenImageConfig) -> (r: &mut String)
    ensures
        (*r)@ == hidden_path_text(old(cfg).path),
        final(cfg).path == Some(*final(r)),
        final(cfg).use_wallpaper == old(cfg).use_wallpaper,
        final(cfg).effect == old(cfg).effect,
        final(cfg).blend_mode == old(cfg).blend_mode,
        final(cfg).wallpapers_dir == old(cfg).wallpapers_dir,
{
    let empty = string_from_chars(Vec::<char>::new().as_slice());
    cfg.path.get_or_insert(empty)
}

/// The part of a parallax layer's settings that the compatibility pass
/// reads and fills in, apart from its speeds and sensitivities.
#[derive(Debug, Clone)]
pub struct ParallaxLayerCompat {
    pub source: String,
    /// The effect type of the layer's `effect` table, when it has one. A table
    /// that the pass adds is enabled, with its other settings at their defaults.
    pub effect: Option<ParallaxEffectType>,
    pub layer_type: Option<LayerSourceType>,
    pub react_to_audio: bool,
    pub audio_enabled: bool,
    pub react_to_mouse: bool,
    pub mouse_enabled: bool,
}

/// The compatibility pass over one parallax layer (`ParallaxConfig::
/// normalize_compat_fields`): an `effect:` source without an effect table gets
/// one for its tag; a layer without a type gets the type of its source's
/// extension when the source is not blank; the old `react_to_audio` and
/// `react_to_mouse` switches turn audio and mouse reaction on. (The caller
/// copies the speeds that go with a switch that was turned on.)
pub fn normalize_layer_compat(layer: &mut ParallaxLayerCompat)
    ensures
        final(layer).source == old(layer).source,
        final(layer).effect == if crate::text::starts_with_seq(crate::text::trim(old(layer).source@), "effect:"@)
            && old(layer).effect is None {
            Some(effect_type_spec(crate::text::ascii_lower_seq(crate::text::strip_all_prefix(crate::text::trim(old(layer).source@), "effect:"@))))
        } else {
            old(layer).effect
        },
        final(layer).layer_type == if old(layer).layer_type is None && crate::text::trim(old(layer).source@).len() > 0 {
            Some(source_type_from_source_spec(old(layer).source@))
        } else {
            old(layer).layer_type
        },
        final(layer).react_to_audio == old(layer).react_to_audio,
        final(layer).react_to_mouse == old(layer).react_to_mouse,
        final(layer).audio_enabled == (old(layer).audio_enabled || old(layer).react_to_audio),
        final(layer).mouse_enabled == (old(layer).mouse_enabled || old(layer).react_to_mouse),
{
    if layer.effect.is_none() {
        if let Some(e) = effect_from_source(layer.source.as_str()) {
            layer.effect = Some(e);
        }
    }
    if layer.layer_type.is_none() {
        let t = crate::text::trim_str(layer.source.as_str());
        if !t.as_str().is_empty() {
            layer.layer_type = Some(source_type_from_source(layer.source.as_str()));
        }
    }
    if layer.react_to_audio && !layer.audio_enabled {
        layer.audio_enabled = true;
    }
    if layer.react_to_mouse && !layer.mouse_enabled {
        layer.mouse_enabled = true;
    }
}

/// The legacy gradient and glow settings of an `[audio]` table that the
/// compatibility pass reconciles, the glow intensity (a fraction) aside.
/// `C` is a color.
#[derive(Debug, Clone)]
pub struct LegacyAudioCompat<C> {
    /// `bar_gradient`: the old switch for the bar gradient.
    pub bar_gradient: bool,
    /// `gradient.enabled`: the switch inside the old `gradient` table.
    pub gradient_enabled: bool,
    /// `gradient.colors`.
    pub gradient_colors: Vec<C>,
    /// `gradient_colors`: the old top-level color list.
    pub legacy_gradient_colors: Vec<C>,
    /// `gradient.direction`.
    pub gradient_direction: GradientDirection,
    /// `gradient_direction`: the old top-level direction.
    pub legacy_direction: GradientDirection,
    /// `glow_effect`: the old switch for the glow.
    pub glow_effect: bool,
    /// `glow.enabled`.
    pub glow_enabled: bool,
}

/// A copy of a list of plain values.
fn copy_list<C: Copy>(v: &Vec<C>) -> (r: Vec<C>)
    ensures
        r@ == v@,
{
    let mut out: Vec<C> = Vec::new();
    let mut i: usize = 0;
    while i < v.len()
        invariant
            0 <= i <= v@.len(),
            out@ == v@.take(i as int),
        decreases v@.len() - i,
    {
        out.push(v[i]);
        assert(out@ =~= v@.take(i + 1));
        i = i + 1;
    }
    assert(v@.take(v@.len() as int) =~= v@);
    out
}

/// The compatibility pass over the legacy gradient and glow settings of an
/// `[audio]` table: either switch turns the gradient (or the glow) on in both
/// places; the top-level color list, or else the table's list when the
/// top-level one is empty, becomes both lists; the top-level direction
/// becomes the table's direction.
pub fn normalize_legacy_audio<C: Copy>(a: &mut LegacyAudioCompat<C>)
    ensures
        final(a).bar_gradient == (old(a).bar_gradient || old(a).gradient_enabled),
        final(a).gradient_enabled == final(a).bar_gradient,
        final(a).glow_effect == (old(a).glow_effect || old(a).glow_enabled),
        final(a).glow_enabled == final(a).glow_effect,
        final(a).legacy_gradient_colors@ == if old(a).legacy_gradient_colors@.len() == 0 {
            old(a).gradient_colors@
        } else {
            old(a).legacy_gradient_colors@
        },
        final(a).gradient_colors@ == final(a).legacy_gradient_colors@,
        final(a).legacy_direction == old(a).legacy_direction,
        final(a).gradient_direction == old(a).legacy_direction,
{
    a.bar_gradient = a.bar_gradient || a.gradient_enabled;
    a.glow_effect = a.glow_effect || a.glow_enabled;
    if a.legacy_gradient_colors.len() == 0 {
        a.legacy_gradient_colors = copy_list(&a.gradient_colors);
    }
    if a.gradient_colors.len() == 0 {
        a.gradient_colors = copy_list(&a.legacy_gradient_colors);
    }
    a.gradient_enabled = a.bar_gradient;
    a.gradient_colors = copy_list(&a.legacy_gradient_colors);
    a.gradient_direction = a.legacy_direction;
    a.glow_enabled = a.glow_effect;
}

/// A layer's media source.
#[derive(Debug, Clone)]
pub struct LayerSourceConfig {
    pub source_type: LayerSourceType,
    pub path: String,
    pub looping: bool,
}

/// The layers are set by hand: the base or the reveal source names a path
/// that is not blank. `layers` holds the base and reveal sources of the
/// `[layers]` table, when there is one.
pub open spec fn manual_layers_spec(layers: Option<(LayerSourceConfig, LayerSourceConfig)>) -> bool {
    match layers {
        Some((base, reveal)) => trim(base.path@).len() > 0 || trim(reveal.path@).len() > 0,
        None => false,
    }
}

pub open spec fn source_pair(layers: Option<(&LayerSourceConfig, &LayerSourceConfig)>) -> Option<(LayerSourceConfig, LayerSourceConfig)> {
    match layers {
        Some((b, r)) => Some((*b, *r)),
        None => None,
    }
}

/// Whether the layers are set by hand (see `manual_layers_spec`).
pub fn manual_layers_specified(layers: Option<(&LayerSourceConfig, &LayerSourceConfig)>) -> (r: bool)
    ensures
        r == manual_layers_spec(source_pair(layers)),
{
    match layers {
        Some((base, reveal)) => {
            let b = trim_str(base.path.as_str());
            let v = trim_str(reveal.path.as_str());
            !b.as_str().is_empty() || !v.as_str().is_empty()
        },
        None => false,
    }
}

/// The wallpaper is followed automatically: detection is on and no layers are set by hand.
pub fn auto_wallpaper_enabled(auto_detect_wallpaper: bool, layers: Option<(&LayerSourceConfig, &LayerSourceConfig)>) -> (r: bool)
    ensures
        r == (auto_detect_wallpaper && !manual_layers_spec(source_pair(layers))),
{
    auto_detect_wallpaper && !manual_layers_specified(layers)
}

/// X-ray performance knobs.
#[derive(Debug, Clone, Copy)]
pub struct XrayPerformanceConfig {
    pub prescale_max_dimension: u32,
    pub generate_mipmaps: bool,
    pub mask_compute_mode: MaskComputeMode,
}

impl Default for XrayPerformanceConfig {
    fn default() -> (r: Self)
        ensures
            r.prescale_max_dimension == 2048,
            r.generate_mipmaps,
            r.mask_compute_mode == MaskComputeMode::Auto,
    {
        XrayPerformanceConfig {
            prescale_max_dimension: default_xray_prescale_max_dimension(),
            generate_mipmaps: true,
            mask_compute_mode: MaskComputeMode::Auto,
        }
    }
}

/// Frame-time telemetry settings.
#[derive(Debug, Clone, Copy)]
pub struct PerformanceTelemetryConfig {
    pub enabled: bool,
    pub metrics_window: usize,
    pub log_interval_seconds: u64,
}

impl Default for PerformanceTelemetryConfig {
    fn default() -> (r: Self)
        ensures
            !r.enabled,
            r.metrics_window == 240,
            r.log_interval_seconds == 5,
    {
        PerformanceTelemetryConfig {
            enabled: false,
            metrics_window: default_perf_metrics_window(),
            log_interval_seconds: default_perf_log_interval_seconds(),
        }
    }
}

/// Advanced settings.
#[derive(Debug, Clone, Copy)]
pub struct AdvancedConfig {
    pub verbose_logging: bool,
    pub frame_rate_limit: u32,
    pub layer_cache_size: usize,
}

impl Default for AdvancedConfig {
    fn default() -> (r: Self)
        ensures
            !r.verbose_logging,
            r.frame_rate_limit == 60,
            r.layer_cache_size == 5,
    {
        AdvancedConfig {
            verbose_logging: false,
            frame_rate_limit: default_frame_rate_limit(),
            layer_cache_size: default_layer_cache_size(),
        }
    }
}

/// Default frame rate of the visualizer.
pub fn default_framerate() -> (r: u32) ensures r == 60 { 60 }

/// Default number of segments of a rounded bar top.
pub fn default_corner_segments() -> (r: u32) ensures r == 8 { 8 }

/// Default number of polygon sides.
pub fn default_polygon_sides() -> (r: u32) ensures r == 6 { 6 }

/// Default number of bars.
pub fn default_bar_amount() -> (r: u32) ensures r == 76 { 76 }

/// Anchors default to on.
pub fn default_anchor_true() -> (r: bool) ensures r { true }

/// Layers default to enabled.
pub fn default_layer_enabled() -> (r: bool) ensures r { true }

/// Default number of frames a layer decoder buffers.
pub fn default_max_buffered_frames() -> (r: usize) ensures r == 6 { 6 }

/// Default size of a layer's frame cache.
pub fn default_frame_cache_size() -> (r: usize) ensures r == 120 { 120 }

/// Layer sources loop by default.
pub fn default_looping() -> (r: bool) ensures r { true }

/// Layers follow the wallpaper by default.
pub fn default_sync_with_wallpaper() -> (r: bool) ensures r { true }

/// Default search window of the frame fingerprint, in frames.
pub fn default_fingerprint_search_window() -> (r: usize) ensures r == 90 { 90 }

/// Wallpaper detection is on by default.
pub fn default_auto_detect_wallpaper() -> (r: bool) ensures r { true }

/// Default blend mode of the X-ray mask.
pub fn default_xray_blend_mode() -> (r: BlendMode) ensures r == BlendMode::Normal { BlendMode::Normal }

/// Default frame rate limit.
pub fn default_frame_rate_limit() -> (r: u32) ensures r == 60 { 60 }

/// Default number of cached layers.
pub fn default_layer_cache_size() -> (r: usize) ensures r == 5 { 5 }

/// VSync is on by default.
pub fn default_vsync() -> (r: bool) ensures r { true }

/// Default frame rate while idle.
pub fn default_idle_fps() -> (r: u32) ensures r == 10 { 10 }

/// Default duration of the transition out of idle, in milliseconds.
pub fn default_idle_exit_transition_ms() -> (r: u32) ensures r == 250 { 250 }

/// Default largest dimension X-ray images are scaled to.
pub fn default_xray_prescale_max_dimension() -> (r: u32) ensures r == 2048 { 2048 }

/// Default number of frames the telemetry window holds.
pub fn default_perf_metrics_window() -> (r: usize) ensures r == 240 { 240 }

/// Default interval between telemetry log lines, in seconds.
pub fn default_perf_log_interval_seconds() -> (r: u64) ensures r == 5 { 5 }

/// Default number of bars an effect layer draws.
pub fn default_effect_bars() -> (r: u32) ensures r == 48 { 48 }

/// Flags that default to on.
pub fn default_true() -> (r: bool) ensures r { true }

/// Default fit of a layer image.
pub fn default_layer_fit() -> (r: String)
    ensures
        r@ == "cover"@,
{
    crate::text::owned("cover")
}

/// Wallpaper changes are followed by default (simple config).
pub fn default_auto_detect() -> (r: bool) ensures r { true }

/// Default interval between wallpaper checks, in seconds (simple config).
pub fn default_wallpaper_check_interval() -> (r: u32) ensures r == 5 { 5 }

/// Colors follow the wallpaper by default (simple config).
pub fn default_auto_colors() -> (r: bool) ensures r { true }

/// The kind of media a runtime layer plays.
#[derive(Debug, Clone, Copy, PartialEq, Eq, Structural)]
pub enum LayerType {
    StaticImage,
    Video,
    Gif,
}

impl LayerType {
    /// The runtime layer kind for a configured source type.
    pub fn from_source_type(t: LayerSourceType) -> (r: LayerType)
        ensures
            t == LayerSourceType::StaticImage ==> r == LayerType::StaticImage,
            t == LayerSourceType::Video ==> r == LayerType::Video,
            t == LayerSourceType::Gif ==> r == LayerType::Gif,
    {
        match t {
            LayerSourceType::StaticImage => LayerType::StaticImage,
            LayerSourceType::Video => LayerType::Video,
            LayerSourceType::Gif => LayerType::Gif,
        }
    }
}

/// Settings of a video layer decoder.
#[derive(Debug, Clone, Copy)]
pub struct VideoDecoderConfig {
    pub target_width: u32,
    pub target_height: u32,
    pub looping: bool,
    pub max_buffered_frames: usize,
    pub frame_cache_size: usize,
}

impl Default for VideoDecoderConfig {
    fn default() -> (r: Self)
        ensures
            r.target_width == 1920,
            r.target_height == 1080,
            r.looping,
            r.max_buffered_frames == 6,
            r.frame_cache_size == 120,
    {
        VideoDecoderConfig {
            target_width: 1920,
            target_height: 1080,
            looping: true,
            max_buffered_frames: 6,
            frame_cache_size: 120,
        }
    }
}

} // verus!
