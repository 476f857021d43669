use cava_bg::namemap::{IdMap, NameMap};
use cava_bg::order::{sort_names, string_less};
use cava_bg::supervisor::{output_geometry, output_name, OutputUpdate, Reconcile, SupervisorModel};

const SEC: u64 = 1_000_000_000;

#[test]
fn output_names_fall_back_to_protocol_id() {
    assert_eq!(output_name(Some("DP-1"), 7), "DP-1");
    assert_eq!(output_name(None, 42), "unknown-42");
    assert_eq!(output_name(None, 0), "unknown-0");
    assert_eq!(output_name(None, 4294967295), "unknown-4294967295");
}

#[test]
fn geometry_defaults() {
    let g = output_geometry(None, None);
    assert_eq!(g.logical_position, (0, 0));
    assert_eq!(g.logical_size, (1920, 1080));
    let g = output_geometry(Some((10, -5)), Some((2560, 1440)));
    assert_eq!(g.logical_position, (10, -5));
    assert_eq!(g.logical_size, (2560, 1440));
}

#[test]
fn string_order_is_lexicographic() {
    assert!(string_less("DP-1", "DP-2"));
    assert!(string_less("DP", "DP-1"));
    assert!(!string_less("eDP-1", "HDMI-A-1"));
    assert!(!string_less("x", "x"));
    assert_eq!(
        sort_names(&["eDP-1".to_string(), "DP-2".to_string(), "HDMI-A-1".to_string(), "DP-10".to_string()]),
        vec!["DP-10", "DP-2", "HDMI-A-1", "eDP-1"]
    );
}

#[test]
fn name_and_id_maps() {
    let mut m: NameMap<u32> = NameMap::new();
    m.insert("a", 1);
    m.insert("b", 2);
    m.insert("a", 3);
    assert_eq!(m.get("a"), Some(&3));
    assert!(m.remove("b"));
    assert!(!m.remove("b"));
    assert_eq!(m.keys(), vec!["a"]);
    let mut ids = IdMap::new();
    ids.insert(5, "DP-1");
    assert_eq!(ids.get(5).as_deref(), Some("DP-1"));
    assert_eq!(ids.remove(5).as_deref(), Some("DP-1"));
    assert_eq!(ids.get(5), None);
}

#[test]
fn new_output_starts_a_daemon_once() {
    let mut m = SupervisorModel::new();
    assert!(m.new_output(1, "DP-1", Some((0, 0)), Some((1920, 1080)), 100 * SEC));
    m.child_spawned("DP-1");
    assert!(m.is_running("DP-1"));
    // The same output announced again: its daemon already runs.
    assert!(!m.new_output(1, "DP-1", None, None, 200 * SEC));
}

#[test]
fn spawns_are_spaced_five_seconds_apart() {
    let mut m = SupervisorModel::new();
    assert!(m.new_output(1, "DP-1", None, None, 100 * SEC));
    // The spawn failed, so no child is recorded; a retry within 5 s is refused.
    assert!(!m.spawn_child_for_output("DP-1", 104 * SEC));
    assert!(m.spawn_child_for_output("DP-1", 105 * SEC));
}

#[test]
fn exited_child_restarts_only_for_connected_output() {
    let mut m = SupervisorModel::new();
    assert!(m.new_output(1, "DP-1", None, None, 10 * SEC));
    m.child_spawned("DP-1");
    assert!(m.child_exited("DP-1", 20 * SEC));
    assert!(!m.is_running("DP-1"));
    m.child_spawned("DP-1");
    assert_eq!(m.output_destroyed(1), Some(("DP-1".to_string(), true)));
    assert!(!m.is_active("DP-1"));
    assert!(!m.child_exited("DP-1", 40 * SEC));
    assert_eq!(m.output_destroyed(1), None);
}

#[test]
fn renamed_output_moves_its_daemon() {
    let mut m = SupervisorModel::new();
    assert!(m.new_output(9, "unknown-9", None, None, 0));
    m.child_spawned("unknown-9");
    match m.update_output(9, "DP-3", Some((1920, 0)), None, SEC) {
        OutputUpdate::Renamed { old_name, kill_old, spawn_new } => {
            assert_eq!(old_name, "unknown-9");
            assert!(kill_old);
            assert!(spawn_new);
        }
        _ => panic!("expected a rename"),
    }
    assert!(!m.is_running("unknown-9"));
    assert!(!m.is_active("unknown-9"));
    assert!(m.is_active("DP-3"));
    assert!(matches!(m.update_output(9, "DP-3", None, None, SEC), OutputUpdate::Refreshed));
    assert!(matches!(m.update_output(77, "DP-3", None, None, SEC), OutputUpdate::Unknown));
}

#[test]
fn config_changes_start_and_stop_daemons() {
    let mut m = SupervisorModel::new();
    m.new_output(1, "DP-1", None, None, 0);
    assert_eq!(m.reconcile("DP-1", true), Reconcile::Spawn);
    assert_eq!(m.reconcile("DP-1", false), Reconcile::Keep);
    m.child_spawned("DP-1");
    assert_eq!(m.reconcile("DP-1", false), Reconcile::Kill);
    assert_eq!(m.reconcile("DP-1", true), Reconcile::Keep);
    assert!(m.kill_child_for_output("DP-1"));
    assert!(!m.kill_child_for_output("DP-1"));
}

#[test]
fn published_outputs_are_sorted_running_outputs() {
    let mut m = SupervisorModel::new();
    m.new_output(1, "HDMI-A-1", Some((1920, 0)), Some((2560, -1)), 0);
    m.new_output(2, "DP-1", None, None, 0);
    m.new_output(3, "DP-2", None, None, 0);
    m.child_spawned("HDMI-A-1");
    m.child_spawned("DP-1");
    let list = m.take_runtime_outputs().expect("changes pending");
    let names: Vec<&str> = list.iter().map(|s| s.name.as_str()).collect();
    assert_eq!(names, vec!["DP-1", "HDMI-A-1"]);
    assert_eq!(list[0].index, 0);
    assert_eq!((list[0].width, list[0].height), (1920, 1080));
    assert_eq!(list[1].index, 1);
    assert_eq!((list[1].width, list[1].height), (2560, 0));
    assert_eq!(list[1].position, [1920, 0]);
    assert!(list.iter().all(|s| s.configured));
    // Nothing changed since: nothing to publish.
    assert!(m.take_runtime_outputs().is_none());
}
