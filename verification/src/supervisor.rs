//! The supervisor's bookkeeping: which outputs are connected, which have a
//! daemon of their own, when a daemon was last started for each, and what
//! the supervisor publishes about them. The Wayland events and the child
//! processes themselves are handled by the caller, which asks this model
//! what to do.
use crate::text::owned;
use crate::namemap::{IdMap, NameMap};
use crate::order::{sort_names, sorted_names, str_less};
use crate::text::{chars_of, decimal, push_decimal, string_from_chars, views};
use vstd::prelude::*;

verus! {

/// Where an output sits in the compositor's logical space, and its size.
#[derive(Debug, Clone, Copy)]
pub struct OutputGeometry {
    pub logical_position: (i32, i32),
    pub logical_size: (i32, i32),
}

/// The geometry an output reports, with `(0, 0)` for a missing position and
/// 1920x1080 for a missing size.
pub open spec fn geometry_of(position: Option<(i32, i32)>, size: Option<(i32, i32)>) -> OutputGeometry {
    OutputGeometry {
        logical_position: match position {
            Some(p) => p,
            None => (0, 0),
        },
        logical_size: match size {
            Some(s) => s,
            None => (1920, 1080),
        },
    }
}

pub fn output_geometry(position: Option<(i32, i32)>, size: Option<(i32, i32)>) -> (r: OutputGeometry)
    ensures
        r == geometry_of(position, size),
{
    OutputGeometry {
        logical_position: match position {
            Some(p) => p,
            None => (0, 0),
        },
        logical_size: match size {
            Some(s) => s,
            None => (1920, 1080),
        },
    }
}

/// The name an output goes by: the one it reports, or `unknown-<id>`.
pub open spec fn output_name_spec(name: Option<Seq<char>>, protocol_id: u32) -> Seq<char> {
    match name {
        Some(n) => n,
        None => "unknown-"@ + decimal(protocol_id as nat),
    }
}

/// The name of an output (see `output_name_spec`).
pub fn output_name(name: Option<&str>, protocol_id: u32) -> (r: String)
    ensures
        r@ == output_name_spec(crate::text::opt_view(name), protocol_id),
{
    match name {
        Some(n) => owned(n),
        None => {
            let mut v = chars_of("unknown-");
            push_decimal(protocol_id, &mut v);
            string_from_chars(v.as_slice())
        },
    }
}

/// A daemon is started for an output at most once every five seconds.
pub const SPAWN_BACKOFF_NANOS: u64 = 5_000_000_000;

/// A daemon may be started for `name` at `now`: no attempt was made for it,
/// or the last one is at least five seconds old (a clock that went back
/// counts as no time passed).
pub open spec fn spawn_allowed(attempts: Map<Seq<char>, u64>, name: Seq<char>, now: u64) -> bool {
    !attempts.dom().contains(name) || (now >= attempts[name] && now - attempts[name] >= SPAWN_BACKOFF_NANOS)
}

/// What one output is published as in `runtime-outputs.json`.
#[derive(Debug, Clone)]
pub struct RuntimeOutputStatus {
    pub name: String,
    pub index: u32,
    pub width: u32,
    pub height: u32,
    pub position: [i32; 2],
    pub configured: bool,
}

/// A size component as published: negative values become 0.
pub open spec fn clamp_size(v: i32) -> u32 {
    if v < 0 {
        0
    } else {
        v as u32
    }
}

/// `status` publishes output `name` at place `i` with geometry `g`.
pub open spec fn status_is(status: RuntimeOutputStatus, name: Seq<char>, i: int, g: OutputGeometry) -> bool {
    &&& status.name@ == name
    &&& status.index == (i % 4294967296) as u32
    &&& status.width == clamp_size(g.logical_size.0)
    &&& status.height == clamp_size(g.logical_size.1)
    &&& status.position[0] == g.logical_position.0
    &&& status.position[1] == g.logical_position.1
    &&& status.configured
}

/// What changed when an output reported new properties.
pub enum OutputUpdate {
    /// The output is not known by its id.
    Unknown,
    /// Same name: its geometry was refreshed if it is connected.
    Refreshed,
    /// The output was renamed: the daemon of the old name is to be stopped
    /// when `kill_old`, and one started for the new name when `spawn_new`.
    Renamed { old_name: String, kill_old: bool, spawn_new: bool },
}

/// What a configuration change asks for one connected output.
#[derive(Debug, Clone, Copy, PartialEq, Eq, Structural)]
pub enum Reconcile {
    /// Enabled and without a daemon: start one.
    Spawn,
    /// Disabled and with a daemon: stop it.
    Kill,
    Keep,
}

pub struct SupervisorModel {
    active: NameMap<OutputGeometry>,
    children: NameMap<()>,
    last_spawn: NameMap<u64>,
    ids: IdMap,
    dirty: bool,
}

impl SupervisorModel {
    /// Connected outputs and their geometry.
    pub closed spec fn active(&self) -> Map<Seq<char>, OutputGeometry> {
        self.active.view()
    }

    /// Outputs whose daemon runs.
    pub closed spec fn running(&self) -> Set<Seq<char>> {
        self.children.view().dom()
    }

    /// When a daemon was last started for each output (monotonic nanoseconds).
    pub closed spec fn attempts(&self) -> Map<Seq<char>, u64> {
        self.last_spawn.view()
    }

    /// Output names by Wayland object id.
    pub closed spec fn ids(&self) -> Map<u32, Seq<char>> {
        self.ids.view()
    }

    /// The published outputs are out of date.
    pub closed spec fn is_dirty(&self) -> bool {
        self.dirty
    }

    /// The maps are well formed, and a daemon runs only for a connected output.
    pub closed spec fn wf(&self) -> bool {
        &&& self.active.wf()
        &&& self.children.wf()
        &&& self.last_spawn.wf()
        &&& self.ids.wf()
        &&& self.children.view().dom().subset_of(self.active.view().dom())
    }

    pub fn new() -> (r: Self)
        ensures
            r.wf(),
            r.active() == Map::<Seq<char>, OutputGeometry>::empty(),
            r.running() == Set::<Seq<char>>::empty(),
            r.attempts() == Map::<Seq<char>, u64>::empty(),
            r.ids() == Map::<u32, Seq<char>>::empty(),
            !r.is_dirty(),
    {
        SupervisorModel {
            active: NameMap::new(),
            children: NameMap::new(),
            last_spawn: NameMap::new(),
            ids: IdMap::new(),
            dirty: false,
        }
    }

    /// Whether the daemon of `name` runs.
    pub fn is_running(&self, name: &str) -> (r: bool)
        requires
            self.wf(),
        ensures
            r == self.running().contains(name@),
    {
        self.children.contains(name)
    }

    /// Whether `name` is connected.
    pub fn is_active(&self, name: &str) -> (r: bool)
        requires
            self.wf(),
        ensures
            r == self.active().dom().contains(name@),
    {
        self.active.contains(name)
    }

    /// The names of the connected outputs.
    pub fn active_names(&self) -> (r: Vec<String>)
        requires
            self.wf(),
        ensures
            forall|k: Seq<char>| views(r@).contains(k) <==> self.active().dom().contains(k),
    {
        let r = self.active.keys();
        proof {
            self.active.lemma_view();
            assert forall|k: Seq<char>| views(r@).contains(k) <==> self.active().dom().contains(k) by {
                if views(r@).contains(k) {
                    let i = choose|i: int| 0 <= i < views(r@).len() && views(r@)[i] == k;
                    assert(self.active.entry_seq()[i].0@ == k);
                }
                if self.active().dom().contains(k) {
                    let i = choose|i: int| 0 <= i < self.active.entry_seq().len() && (#[trigger] self.active.entry_seq()[i]).0@ == k;
                    assert(views(r@)[i] == k);
                }
            }
        }
        r
    }

    /// Decides whether to start a daemon for `name` now, and records the
    /// attempt when it is made (`spawn_child_for_output` before the spawn).
    pub fn spawn_child_for_output(&mut self, name: &str, now_nanos: u64) -> (r: bool)
        requires
            old(self).wf(),
        ensures
            final(self).wf(),
            r == spawn_allowed(old(self).attempts(), name@, now_nanos),
            final(self).attempts() == if r {
                old(self).attempts().insert(name@, now_nanos)
            } else {
                old(self).attempts()
            },
            final(self).active() == old(self).active(),
            final(self).running() == old(self).running(),
            final(self).ids() == old(self).ids(),
            final(self).is_dirty() == old(self).is_dirty(),
    {
        match self.last_spawn.get(name) {
            Some(last) => {
                let last = *last;
                if !(now_nanos >= last && now_nanos - last >= SPAWN_BACKOFF_NANOS) {
                    return false;
                }
            },
            None => {},
        }
        self.last_spawn.insert(name, now_nanos);
        true
    }

    /// Records that the daemon of a connected output was started.
    pub fn child_spawned(&mut self, name: &str)
        requires
            old(self).wf(),
            old(self).active().dom().contains(name@),
        ensures
            final(self).wf(),
            final(self).running() == old(self).running().insert(name@),
            final(self).is_dirty(),
            final(self).active() == old(self).active(),
            final(self).attempts() == old(self).attempts(),
            final(self).ids() == old(self).ids(),
    {
        self.children.insert(name, ());
        self.dirty = true;
    }

    /// Forgets the attempts for `name` and, if its daemon runs, marks it
    /// stopped; tells whether there was a daemon to stop.
    pub fn kill_child_for_output(&mut self, name: &str) -> (r: bool)
        requires
            old(self).wf(),
        ensures
            final(self).wf(),
            r == old(self).running().contains(name@),
            final(self).running() == old(self).running().remove(name@),
            final(self).attempts() == old(self).attempts().remove(name@),
            final(self).is_dirty() == (old(self).is_dirty() || r),
            final(self).active() == old(self).active(),
            final(self).ids() == old(self).ids(),
    {
        self.last_spawn.remove(name);
        let r = self.children.remove(name);
        if r {
            self.dirty = true;
        }
        r
    }

    /// A new output appeared: it is recorded under its id and name with its
    /// geometry; the result tells whether to start its daemon (none runs and
    /// the last attempt is old enough), the attempt being recorded then.
    pub fn new_output(
        &mut self,
        id: u32,
        name: &str,
        position: Option<(i32, i32)>,
        size: Option<(i32, i32)>,
        now_nanos: u64,
    ) -> (r: bool)
        requires
            old(self).wf(),
        ensures
            final(self).wf(),
            final(self).ids() == old(self).ids().insert(id, name@),
            final(self).active() == old(self).active().insert(name@, geometry_of(position, size)),
            final(self).running() == old(self).running(),
            final(self).is_dirty(),
            r == (!old(self).running().contains(name@) && spawn_allowed(old(self).attempts(), name@, now_nanos)),
            final(self).attempts() == if r {
                old(self).attempts().insert(name@, now_nanos)
            } else {
                old(self).attempts()
            },
    {
        self.ids.insert(id, name);
        self.active.insert(name, output_geometry(position, size));
        self.dirty = true;
        if !self.children.contains(name) {
            self.spawn_child_for_output(name, now_nanos)
        } else {
            false
        }
    }

    /// An output reported new properties. A known output under a new name
    /// takes the new name and geometry, the old name's daemon is stopped and
    /// one may start under the new name; under the same name, a connected
    /// output gets the new geometry.
    pub fn update_output(
        &mut self,
        id: u32,
        name: &str,
        position: Option<(i32, i32)>,
        size: Option<(i32, i32)>,
        now_nanos: u64,
    ) -> (r: OutputUpdate)
        requires
            old(self).wf(),
        ensures
            final(self).wf(),
            !old(self).ids().dom().contains(id) ==> r is Unknown && *final(self) == *old(self),
            old(self).ids().dom().contains(id) && old(self).ids()[id] == name@ ==> {
                &&& r is Refreshed
                &&& final(self).ids() == old(self).ids()
                &&& final(self).running() == old(self).running()
                &&& final(self).attempts() == old(self).attempts()
                &&& if old(self).active().dom().contains(name@) {
                    &&& final(self).active() == old(self).active().insert(name@, geometry_of(position, size))
                    &&& final(self).is_dirty()
                } else {
                    &&& final(self).active() == old(self).active()
                    &&& final(self).is_dirty() == old(self).is_dirty()
                }
            },
            old(self).ids().dom().contains(id) && old(self).ids()[id] != name@ ==> {
                let old_name = old(self).ids()[id];
                let mid = old(self).attempts().remove(old_name);
                &&& r matches OutputUpdate::Renamed { old_name: o, kill_old, spawn_new } && o@ == old_name
                    && kill_old == old(self).running().contains(old_name)
                    && spawn_new == spawn_allowed(mid, name@, now_nanos)
                    && final(self).attempts() == (if spawn_new {
                        mid.insert(name@, now_nanos)
                    } else {
                        mid
                    })
                &&& final(self).ids() == old(self).ids().insert(id, name@)
                &&& final(self).active() == old(self).active().remove(old_name).insert(name@, geometry_of(position, size))
                &&& final(self).running() == old(self).running().remove(old_name)
                &&& final(self).is_dirty()
            },
    {
        let old_name = match self.ids.get(id) {
            Some(n) => n,
            None => return OutputUpdate::Unknown,
        };
        if !crate::text::str_eq(old_name.as_str(), name) {
            let kill_old = self.kill_child_for_output(old_name.as_str());
            self.ids.insert(id, name);
            self.active.remove(old_name.as_str());
            self.active.insert(name, output_geometry(position, size));
            self.dirty = true;
            let spawn_new = self.spawn_child_for_output(name, now_nanos);
            OutputUpdate::Renamed { old_name, kill_old, spawn_new }
        } else {
            if self.active.contains(name) {
                self.active.insert(name, output_geometry(position, size));
                self.dirty = true;
            }
            OutputUpdate::Refreshed
        }
    }

    /// An output went away: its id, name, geometry and attempts are
    /// forgotten and its daemon is to be stopped. Gives the name and whether
    /// a daemon was running.
    pub fn output_destroyed(&mut self, id: u32) -> (r: Option<(String, bool)>)
        requires
            old(self).wf(),
        ensures
            final(self).wf(),
            !old(self).ids().dom().contains(id) ==> r is None && *final(self) == *old(self),
            old(self).ids().dom().contains(id) ==> {
                let name = old(self).ids()[id];
                &&& r matches Some((n, killed)) && n@ == name && killed == old(self).running().contains(name)
                &&& final(self).ids() == old(self).ids().remove(id)
                &&& final(self).active() == old(self).active().remove(name)
                &&& final(self).running() == old(self).running().remove(name)
                &&& final(self).attempts() == old(self).attempts().remove(name)
                &&& final(self).is_dirty()
            },
    {
        let name = match self.ids.get(id) {
            Some(n) => n,
            None => return None,
        };
        self.ids.remove(id);
        let killed = self.kill_child_for_output(name.as_str());
        self.active.remove(name.as_str());
        self.last_spawn.remove(name.as_str());
        self.dirty = true;
        Some((name, killed))
    }

    /// The daemon of `name` exited: it no longer runs, and it is restarted
    /// (the result) when the output is still connected and the last attempt
    /// is old enough.
    pub fn child_exited(&mut self, name: &str, now_nanos: u64) -> (r: bool)
        requires
            old(self).wf(),
        ensures
            final(self).wf(),
            final(self).running() == old(self).running().remove(name@),
            final(self).is_dirty(),
            final(self).active() == old(self).active(),
            final(self).ids() == old(self).ids(),
            r == (old(self).active().dom().contains(name@) && spawn_allowed(old(self).attempts(), name@, now_nanos)),
            final(self).attempts() == if r {
                old(self).attempts().insert(name@, now_nanos)
            } else {
                old(self).attempts()
            },
    {
        self.children.remove(name);
        self.dirty = true;
        if self.active.contains(name) {
            self.spawn_child_for_output(name, now_nanos)
        } else {
            false
        }
    }

    /// What the configuration asks for connected output `name`: start its
    /// daemon when it is enabled and none runs, stop it when it is disabled
    /// and one runs.
    pub fn reconcile(&self, name: &str, enabled: bool) -> (r: Reconcile)
        requires
            self.wf(),
        ensures
            enabled && !self.running().contains(name@) ==> r == Reconcile::Spawn,
            !enabled && self.running().contains(name@) ==> r == Reconcile::Kill,
            enabled == self.running().contains(name@) ==> r == Reconcile::Keep,
    {
        let running = self.children.contains(name);
        if enabled && !running {
            Reconcile::Spawn
        } else if !enabled && running {
            Reconcile::Kill
        } else {
            Reconcile::Keep
        }
    }

    /// The outputs to publish, when they changed since the last time: the
    /// connected outputs whose daemon runs, sorted by name and numbered in
    /// that order. Afterwards the publication is up to date.
    pub fn take_runtime_outputs(&mut self) -> (r: Option<Vec<RuntimeOutputStatus>>)
        requires
            old(self).wf(),
        ensures
            final(self).wf(),
            !final(self).is_dirty(),
            final(self).active() == old(self).active(),
            final(self).running() == old(self).running(),
            final(self).attempts() == old(self).attempts(),
            final(self).ids() == old(self).ids(),
            (r is Some) == old(self).is_dirty(),
            r matches Some(list) ==> {
                let names = Seq::new(list@.len(), |i: int| list@[i].name@);
                &&& sorted_names(names)
                &&& forall|k: Seq<char>| names.contains(k) <==> old(self).running().contains(k)
                &&& forall|i: int| 0 <= i < list@.len() ==> status_is(#[trigger] list@[i], list@[i].name@, i, old(self).active()[list@[i].name@])
            },
    {
        if !self.dirty {
            return None;
        }
        let names = self.children.keys();
        proof {
            self.children.lemma_view();
            assert forall|a: int, b: int| 0 <= a < b < names@.len() implies (#[trigger] names@[a])@ != (#[trigger] names@[b])@ by {
                assert(names@[a]@ == self.children.entry_seq()[a].0@);
                assert(names@[b]@ == self.children.entry_seq()[b].0@);
            }
        }
        let sorted = sort_names(names.as_slice());
        let ghost sv = views(sorted@);
        proof {
            assert forall|k: Seq<char>| sv.contains(k) <==> self.running().contains(k) by {
                if views(names@).contains(k) {
                    let i = choose|i: int| 0 <= i < views(names@).len() && views(names@)[i] == k;
                    assert(self.children.entry_seq()[i].0@ == k);
                }
                if self.running().contains(k) {
                    let i = choose|i: int| 0 <= i < self.children.entry_seq().len() && (#[trigger] self.children.entry_seq()[i]).0@ == k;
                    assert(views(names@)[i] == k);
                }
            }
        }
        let mut out: Vec<RuntimeOutputStatus> = Vec::new();
        let mut i: usize = 0;
        while i < sorted.len()
            invariant
                0 <= i <= sorted@.len(),
                sv == views(sorted@),
                self.wf(),
                forall|k: Seq<char>| sv.contains(k) ==> self.active().dom().contains(k),
                out@.len() == i,
                forall|j: int| 0 <= j < i ==> (#[trigger] out@[j]).name@ == sv[j],
                forall|j: int| 0 <= j < i ==> status_is(#[trigger] out@[j], sv[j], j, self.active()[sv[j]]),
            decreases sorted@.len() - i,
        {
            let name = sorted[i].as_str();
            assert(sv[i as int] == name@);
            assert(sv.contains(name@));
            let g = match self.active.get(name) {
                Some(g) => *g,
                None => OutputGeometry { logical_position: (0, 0), logical_size: (0, 0) },
            };
            let width: u32 = if g.logical_size.0 < 0 {
                0
            } else {
                g.logical_size.0 as u32
            };
            let height: u32 = if g.logical_size.1 < 0 {
                0
            } else {
                g.logical_size.1 as u32
            };
            let index: u32 = ((i as u64) % 4294967296) as u32;
            out.push(
                RuntimeOutputStatus {
                    name: owned(name),
                    index,
                    width,
                    height,
                    position: [g.logical_position.0, g.logical_position.1],
                    configured: true,
                },
            );
            i = i + 1;
        }
        self.dirty = false;
        proof {
            let names_seq = Seq::new(out@.len(), |j: int| out@[j].name@);
            assert(names_seq =~= sv);
        }
        Some(out)
    }
}

/// A daemon runs only for a connected output, in every state the model reaches.
pub proof fn law_daemons_only_for_connected_outputs(m: SupervisorModel)
    requires
        m.wf(),
    ensures
        m.running().subset_of(m.active().dom()),
{
}

/// Right after an attempt to start the daemon of `name` at `t`, no other is
/// allowed for five seconds.
pub proof fn law_spawn_backoff(attempts: Map<Seq<char>, u64>, name: Seq<char>, t: u64, later: u64)
    requires
        t <= later < t + SPAWN_BACKOFF_NANOS,
    ensures
        !spawn_allowed(attempts.insert(name, t), name, later),
{
}

} // verus!
