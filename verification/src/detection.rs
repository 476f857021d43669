//! The order in which the wallpaper detectors are tried, and the detection cache.
//!
//! Each detector reads the system (IPC commands, D-Bus, config files, `/proc`),
//! so the caller runs them; this module decides which one comes next and when
//! the search is over.
use crate::detector::{copy_strings, BackgroundProcessInfo};
use crate::text::owned;
use crate::text::views;
use std::time::Instant;
use vstd::prelude::*;

verus! {

/// One way of finding the wallpaper that is shown.
#[derive(Debug, Clone, Copy, PartialEq, Eq, Structural)]
pub enum WallpaperSource {
    AwwwQuery,
    HyprpaperIpc,
    WpaperdIpc,
    Gnome,
    Plasma,
    Ambxst,
    HyprpaperConfig,
    WpaperdConfig,
    WaypaperConfig,
    WaytrogenConfig,
    HpaperConfig,
    WaltConfig,
    WlsbgConfig,
    WallrizzConfig,
    SwayConfig,
    MpvpaperProcess,
    AwwwProcess,
    HyprpaperProcess,
    SwaybgProcess,
    WpaperdProcess,
    WaypaperProcess,
    WaytrogenProcess,
    HpaperProcess,
    WaltProcess,
    WlsbgProcess,
    WallrizzProcess,
    LayerBackgroundScan,
}

/// The detectors in the order they are tried: IPC and direct commands, then
/// D-Bus, then Ambxst, then config files, then running processes, and last a
/// scan of background processes.
pub open spec fn detection_order() -> Seq<WallpaperSource> {
    seq![
        WallpaperSource::AwwwQuery,
        WallpaperSource::HyprpaperIpc,
        WallpaperSource::WpaperdIpc,
        WallpaperSource::Gnome,
        WallpaperSource::Plasma,
        WallpaperSource::Ambxst,
        WallpaperSource::HyprpaperConfig,
        WallpaperSource::WpaperdConfig,
        WallpaperSource::WaypaperConfig,
        WallpaperSource::WaytrogenConfig,
        WallpaperSource::HpaperConfig,
        WallpaperSource::WaltConfig,
        WallpaperSource::WlsbgConfig,
        WallpaperSource::WallrizzConfig,
        WallpaperSource::SwayConfig,
        WallpaperSource::MpvpaperProcess,
        WallpaperSource::AwwwProcess,
        WallpaperSource::HyprpaperProcess,
        WallpaperSource::SwaybgProcess,
        WallpaperSource::WpaperdProcess,
        WallpaperSource::WaypaperProcess,
        WallpaperSource::WaytrogenProcess,
        WallpaperSource::HpaperProcess,
        WallpaperSource::WaltProcess,
        WallpaperSource::WlsbgProcess,
        WallpaperSource::WallrizzProcess,
        WallpaperSource::LayerBackgroundScan,
    ]
}

/// How many detectors there are.
pub const DETECTOR_COUNT: usize = 27;

/// The detector tried at position `index`, if there is one.
pub fn detector_at(index: usize) -> (r: Option<WallpaperSource>)
    ensures
        index < detection_order().len() ==> r == Some(detection_order()[index as int]),
        index >= detection_order().len() ==> r is None,
{
    let order: [WallpaperSource; 27] = [
        WallpaperSource::AwwwQuery,
        WallpaperSource::HyprpaperIpc,
        WallpaperSource::WpaperdIpc,
        WallpaperSource::Gnome,
        WallpaperSource::Plasma,
        WallpaperSource::Ambxst,
        WallpaperSource::HyprpaperConfig,
        WallpaperSource::WpaperdConfig,
        WallpaperSource::WaypaperConfig,
        WallpaperSource::WaytrogenConfig,
        WallpaperSource::HpaperConfig,
        WallpaperSource::WaltConfig,
        WallpaperSource::WlsbgConfig,
        WallpaperSource::WallrizzConfig,
        WallpaperSource::SwayConfig,
        WallpaperSource::MpvpaperProcess,
        WallpaperSource::AwwwProcess,
        WallpaperSource::HyprpaperProcess,
        WallpaperSource::SwaybgProcess,
        WallpaperSource::WpaperdProcess,
        WallpaperSource::WaypaperProcess,
        WallpaperSource::WaytrogenProcess,
        WallpaperSource::HpaperProcess,
        WallpaperSource::WaltProcess,
        WallpaperSource::WlsbgProcess,
        WallpaperSource::WallrizzProcess,
        WallpaperSource::LayerBackgroundScan,
    ];
    assert(order@ =~= detection_order());
    if index < DETECTOR_COUNT {
        Some(order[index])
    } else {
        None
    }
}

/// What the detection does next.
#[derive(Debug)]
pub enum DetectionAction {
    /// Run this detector; it is the one at position `index`.
    Try { source: WallpaperSource, index: usize },
    /// This path is the wallpaper.
    Detected(String),
    /// No detector found a wallpaper that exists.
    NotDetected,
}

/// The first action of a detection: run the first detector.
pub fn detection_begin() -> (r: DetectionAction)
    ensures
        r matches DetectionAction::Try { source, index } && index == 0 && source == detection_order()[0],
{
    let first = detector_at(0);
    DetectionAction::Try { source: first.unwrap(), index: 0 }
}

/// The action after the detector at `index` ran: it gave `candidate`, and
/// `exists` tells whether that path exists. An existing candidate ends the
/// search; otherwise the next detector runs, or the search ends with nothing.
pub fn detection_step(index: usize, candidate: Option<String>, exists: bool) -> (r: DetectionAction)
    requires
        index < detection_order().len(),
    ensures
        candidate is Some && exists ==> (r matches DetectionAction::Detected(p) && p@ == candidate->0@),
        !(candidate is Some && exists) && index + 1 < detection_order().len() ==> (r matches DetectionAction::Try {
            source,
            index: next,
        } && next == index + 1 && source == detection_order()[index + 1]),
        !(candidate is Some && exists) && index + 1 >= detection_order().len() ==> r is NotDetected,
{
    match candidate {
        Some(p) => {
            if exists {
                return DetectionAction::Detected(p);
            }
        },
        None => {},
    }
    match detector_at(index + 1) {
        Some(source) => DetectionAction::Try { source, index: index + 1 },
        None => DetectionAction::NotDetected,
    }
}

/// A cached detection is reused for five seconds.
pub const DETECTION_CACHE_TTL_NANOS: u128 = 5_000_000_000;

/// The result of the last detection, with the compositor and the background
/// processes seen at the time.
pub struct DetectionCache {
    pub wallpaper: Option<String>,
    pub compositor: Option<String>,
    pub layer_processes: Vec<BackgroundProcessInfo>,
    pub timestamp: Instant,
}

/// The cached wallpaper to answer with, when the cache is younger than five
/// seconds (`age_nanos` since it was written); `None` when a new detection is due.
pub fn cached_wallpaper(cache: &Option<DetectionCache>, age_nanos: u128) -> (r: Option<Option<String>>)
    ensures
        (r is Some) == (cache is Some && age_nanos < DETECTION_CACHE_TTL_NANOS),
        r is Some ==> crate::text::opt_string_view(r->0) == crate::text::opt_string_view(cache->0.wallpaper),
{
    match cache {
        Some(c) => {
            if age_nanos < DETECTION_CACHE_TTL_NANOS {
                Some(opt_copy(&c.wallpaper))
            } else {
                None
            }
        },
        None => None,
    }
}

fn opt_copy(o: &Option<String>) -> (r: Option<String>)
    ensures
        crate::text::opt_string_view(r) == crate::text::opt_string_view(*o),
{
    match o {
        Some(s) => Some(owned(s.as_str())),
        None => None,
    }
}

/// `a` and `b` describe the same process.
pub open spec fn same_info(a: BackgroundProcessInfo, b: BackgroundProcessInfo) -> bool {
    &&& a.pid == b.pid
    &&& a.process_name@ == b.process_name@
    &&& views(a.args@) == views(b.args@)
    &&& crate::text::opt_string_view(a.cwd) == crate::text::opt_string_view(b.cwd)
    &&& views(a.media_files@) == views(b.media_files@)
    &&& views(a.open_files@) == views(b.open_files@)
    &&& a.uses_qt_multimedia == b.uses_qt_multimedia
}

fn copy_info(info: &BackgroundProcessInfo) -> (r: BackgroundProcessInfo)
    ensures
        same_info(r, *info),
{
    BackgroundProcessInfo {
        pid: info.pid,
        process_name: owned(info.process_name.as_str()),
        args: copy_strings(info.args.as_slice()),
        cwd: opt_copy(&info.cwd),
        media_files: copy_strings(info.media_files.as_slice()),
        open_files: copy_strings(info.open_files.as_slice()),
        uses_qt_multimedia: info.uses_qt_multimedia,
    }
}

/// The compositor and background processes of the last detection, if one ran.
pub fn get_cached_detection_debug(cache: &Option<DetectionCache>) -> (r: Option<(Option<String>, Vec<BackgroundProcessInfo>)>)
    ensures
        (r is Some) == (cache is Some),
        r is Some ==> {
            let (comp, procs) = r->0;
            let c = cache->0;
            &&& crate::text::opt_string_view(comp) == crate::text::opt_string_view(c.compositor)
            &&& procs@.len() == c.layer_processes@.len()
            &&& forall|i: int| 0 <= i < procs@.len() ==> same_info(#[trigger] procs@[i], c.layer_processes@[i])
        },
{
    match cache {
        Some(c) => {
            let mut procs: Vec<BackgroundProcessInfo> = Vec::new();
            let mut i: usize = 0;
            while i < c.layer_processes.len()
                invariant
                    0 <= i <= c.layer_processes@.len(),
                    procs@.len() == i,
                    forall|k: int| 0 <= k < i ==> same_info(#[trigger] procs@[k], c.layer_processes@[k]),
                decreases c.layer_processes@.len() - i,
            {
                procs.push(copy_info(&c.layer_processes[i]));
                i = i + 1;
            }
            Some((opt_copy(&c.compositor), procs))
        },
        None => None,
    }
}

} // verus!
