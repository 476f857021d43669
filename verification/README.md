# cava_bg

The decision-making core of `cava-bg`, a wallpaper-synchronised audio
visualizer for Wayland, written in Verus: the functions in `src/` carry
contracts that Verus proves, except for the trusted items below.

## Trusted items

These are marked `#[verifier::external_body]` (or declare an outside type);
Verus believes their contracts without proof:

- `text::string_from_chars` (`String: FromIterator<char>`), `text::to_lowercase`
  (`str::to_lowercase`, named by `spec_lowercase`), `daemon::utf8_to_string`
  (`std::str::from_utf8`).
- `paths::path_exists` (`Path::exists`; nothing is stated of its answer),
  `paths::url_decode` (`urlencoding::decode`, named by `spec_url_decode`),
  `paths::path_extension`, `paths::path_file_stem`, `paths::path_parent`
  (`std::path`, named by `spec_path_extension`, `spec_path_file_stem`,
  `spec_path_parent`).
- `perf::clock_now` (`Instant::now`), `perf::nanos_since` (`Instant::elapsed`
  in nanoseconds), and the declaration of `std::time::Instant`.

Where a result depends on the disk, the detectors build their candidate
lists with exact contracts, ask `path_exists` about them in order, and let
`detector::pick_first_existing` choose from the answers.

## Layout

- `src/text.rs`, `src/paths.rs` – string and path-text primitives (trimming,
  splitting, line handling, `PathBuf::join`-style joining, tilde expansion).
- `src/output_match.rs` – wildcard matching of output names and the choice of
  the best `[output.<key>]` override for an output.
- `src/detector.rs`, `src/json.rs` – where the shown wallpaper is read from:
  daemon arguments, open files, IPC replies, JSON state files and config text.
- `src/detection.rs` – the order in which detectors run and the detection cache.
- `src/layers.rs` – matching X-ray base/reveal layer files to a wallpaper.
- `src/daemon.rs` – PID files, command lines, `ps` output, the single-instance
  check, stopping with escalation and the files the daemon keeps.
- `src/supervisor.rs`, `src/namemap.rs`, `src/order.rs` – the per-output
  supervisor's bookkeeping and the sorted list of outputs it publishes.
- `src/perf.rs` – the sliding window of frame times and its summaries.
- `src/cli.rs`, `src/config_model.rs`, `src/colors.rs`, `src/geometry.rs` –
  command line, configuration enums and defaults, color text, buffer sizes.
- `src/cava.rs` – the configuration text handed to the `cava` audio backend.
- `app/` – the `cava-bg` command: it reads the system (environment, `/proc`,
  files, commands) and hands plain values to the library; `app/supervisor.rs`
  drives the library's supervisor model from the compositor's output events.

Verify with Verus on `src/lib.rs`; the tests in `tests/` run the compiled library.
