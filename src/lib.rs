//! Discovery, selection and stage sequencing for a firmware chain-loader.
//!
//! The platform layer probes devices, reads keys, loads and starts images;
//! this library decides what each of those results means.
mod discovery;
mod media;
mod path;
mod selection;
mod sequencer;

pub use path::{
    build_routable_path, can_route, device_node_fits, file_node_fits, nodes_view, route_to,
    DeviceNode, DeviceNodeView, PathNode, PathNodeView, RoutablePath, NODE_HEADER_BYTES, NODE_MAX_BYTES,
};
pub use discovery::{
    discover, discover_spec, find_device_path, lemma_discover_none, lemma_discover_only_clean,
    lemma_discover_single, probe_result, probe_succeeds, probes_view, target_at, targets_view,
    BootTarget, BootTargetView, DeviceProbe, DeviceProbeView, ProbeError,
};
pub use selection::{
    digit_choice, is_confirm, is_ignored_key, lemma_digit_selects, lemma_escape_aborts,
    lemma_single_candidate, lemma_timeout_selects_first, resolve, resolve_spec, run_spec, step_spec,
    KeyEvent, PollEvent, Resolution, SelectAction, Selector, POLL_INTERVAL_US, SELECTION_TIMEOUT_US,
    TIMEOUT_POLLS,
};
pub use sequencer::{
    abort, lemma_abort_is_final, lemma_load_failure_never_starts, lemma_user_abort_never_loads,
    next_spec, run, run_boot, AbortReason, BootAction, BootEvent, BootSequencer, BootState,
    BootStatus, Stage, HANDOFF_DELAY_US,
};
pub use media::{
    capacity_mib, capacity_mib_spec, describe_media, saturate, MediaInfo, MediaSummary, MIB,
};
