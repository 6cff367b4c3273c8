//! The bookkeeping of world saving: which chunks changed since the last
//! save, the auto-save timer, and whether a save is running.
//!
//! The timer counts milliseconds. It expires when its elapsed time
//! reaches the auto-save interval; it then keeps running from the
//! remainder, and reports being finished until its next tick or reset.
use vstd::prelude::*;

verus! {

/// What world saving keeps track of.
pub struct WorldSaveManager {
    /// The directory of the world.
    pub world_path: String,
    dirty_chunks: Vec<(i32, i32)>,
    timer_elapsed_ms: u64,
    timer_finished: bool,
    /// Whether the world is saved automatically.
    pub auto_save_enabled: bool,
    /// Seconds between automatic saves.
    pub auto_save_interval_secs: u64,
    saving_in_progress: bool,
    shutdown_saved: bool,
}

/// The length of the auto-save timer for an interval, in milliseconds,
/// at most `u64::MAX`.
pub open spec fn timer_duration_ms(secs: u64) -> u64 {
    if secs * 1000 > u64::MAX {
        u64::MAX
    } else {
        (secs * 1000) as u64
    }
}

impl WorldSaveManager {
    /// The manager's invariant: no chunk is recorded twice.
    pub closed spec fn wf(&self) -> bool {
        self.dirty_chunks@.no_duplicates()
    }

    /// The directory of the world.
    pub closed spec fn path(&self) -> Seq<char> {
        self.world_path@
    }

    /// Whether auto-save is on.
    pub closed spec fn enabled(&self) -> bool {
        self.auto_save_enabled
    }

    /// Seconds between automatic saves.
    pub closed spec fn interval(&self) -> u64 {
        self.auto_save_interval_secs
    }

    /// The chunks changed since the last save.
    pub closed spec fn dirty_set(&self) -> Set<(i32, i32)> {
        self.dirty_chunks@.to_set()
    }

    /// Milliseconds the auto-save timer has run.
    pub closed spec fn timer_elapsed(&self) -> u64 {
        self.timer_elapsed_ms
    }

    /// Whether the auto-save timer expired on its last tick.
    pub closed spec fn timer_finished(&self) -> bool {
        self.timer_finished
    }

    /// Whether a save is running.
    pub closed spec fn saving(&self) -> bool {
        self.saving_in_progress
    }

    /// Whether the shutdown save was made.
    pub closed spec fn shutdown_done(&self) -> bool {
        self.shutdown_saved
    }

    /// A manager for the world at `world_path`: no dirty chunks, auto-save
    /// on every 300 seconds, timer at zero, nothing running.
    pub fn new(world_path: &str) -> (m: WorldSaveManager)
        ensures
            m.wf(),
            m.path() == world_path@,
            m.dirty_set() == Set::<(i32, i32)>::empty(),
            m.enabled(),
            m.interval() == 300,
            m.timer_elapsed() == 0,
            !m.timer_finished(),
            !m.saving(),
            !m.shutdown_done(),
    {
        let m = WorldSaveManager {
            world_path: world_path.to_owned(),
            dirty_chunks: Vec::new(),
            timer_elapsed_ms: 0,
            timer_finished: false,
            auto_save_enabled: true,
            auto_save_interval_secs: 300,
            saving_in_progress: false,
            shutdown_saved: false,
        };
        proof {
            assert(m.dirty_chunks@.to_set() =~= Set::<(i32, i32)>::empty());
        }
        m
    }

    /// A new manager (see [`WorldSaveManager::new`]) saving every
    /// `interval_secs` seconds.
    pub fn with_auto_save_interval(world_path: &str, interval_secs: u64) -> (m: WorldSaveManager)
        ensures
            m.wf(),
            m.path() == world_path@,
            m.dirty_set() == Set::<(i32, i32)>::empty(),
            m.enabled(),
            m.interval() == interval_secs,
            m.timer_elapsed() == 0,
            !m.timer_finished(),
            !m.saving(),
            !m.shutdown_done(),
    {
        let m = WorldSaveManager::new(world_path);
        WorldSaveManager { auto_save_interval_secs: interval_secs, ..m }
    }

    /// Records that chunk (`x`, `z`) changed.
    pub fn mark_dirty(&mut self, x: i32, z: i32)
        requires
            old(self).wf(),
        ensures
            final(self).wf(),
            final(self).dirty_set() == old(self).dirty_set().insert((x, z)),
            final(self).enabled() == old(self).enabled(),
            final(self).interval() == old(self).interval(),
    {
        let ghost c0 = self.dirty_chunks@;
        let found = match self.find_dirty(x, z) {
            Some(_) => true,
            None => false,
        };
        if !found {
            self.dirty_chunks.push((x, z));
            proof {
                let c1 = self.dirty_chunks@;
                assert forall|p: (i32, i32)| #[trigger] c1.to_set().contains(p) == c0.to_set().insert((x, z)).contains(p) by {
                    if c0.contains(p) {
                        let k = choose|k: int| 0 <= k < c0.len() && c0[k] == p;
                        assert(c1[k] == p);
                    }
                    if p == (x, z) {
                        assert(c1[c0.len() as int] == p);
                    }
                    if c1.contains(p) {
                        let k = choose|k: int| 0 <= k < c1.len() && c1[k] == p;
                        if k < c0.len() {
                            assert(c0[k] == p);
                        }
                    }
                }
                assert(c1.to_set() =~= c0.to_set().insert((x, z)));
            }
        } else {
            proof {
                assert(c0.to_set() =~= c0.to_set().insert((x, z)));
            }
        }
    }

    /// Where chunk (`x`, `z`) is recorded, if it is.
    fn find_dirty(&self, x: i32, z: i32) -> (r: Option<usize>)
        ensures
            r matches Some(i) ==> i < self.dirty_chunks@.len() && self.dirty_chunks@[i as int] == (x, z),
            r is None ==> !self.dirty_chunks@.contains((x, z)),
    {
        let mut i: usize = 0;
        while i < self.dirty_chunks.len()
            invariant
                i <= self.dirty_chunks@.len(),
                forall|j: int| 0 <= j < i ==> self.dirty_chunks@[j] != (x, z),
            decreases self.dirty_chunks@.len() - i,
        {
            if self.dirty_chunks[i].0 == x && self.dirty_chunks[i].1 == z {
                return Some(i);
            }
            i = i + 1;
        }
        None
    }

    /// Records that chunk (`x`, `z`) no longer needs saving.
    pub fn mark_clean(&mut self, x: i32, z: i32)
        requires
            old(self).wf(),
        ensures
            final(self).wf(),
            final(self).dirty_set() == old(self).dirty_set().remove((x, z)),
            final(self).enabled() == old(self).enabled(),
            final(self).interval() == old(self).interval(),
    {
        let ghost c0 = self.dirty_chunks@;
        match self.find_dirty(x, z) {
            Some(i) => {
                self.dirty_chunks.remove(i);
                proof {
                    let c1 = self.dirty_chunks@;
                    assert forall|p: (i32, i32)| #[trigger] c1.to_set().contains(p) == c0.to_set().remove((x, z)).contains(p) by {
                        if c0.contains(p) && p != (x, z) {
                            let k = choose|k: int| 0 <= k < c0.len() && c0[k] == p;
                            if k < i {
                                assert(c1[k] == p);
                            } else {
                                assert(c1[k - 1] == p);
                            }
                        }
                        if c1.contains(p) {
                            let k = choose|k: int| 0 <= k < c1.len() && c1[k] == p;
                            if k < i {
                                assert(c0[k] == p);
                            } else {
                                assert(c0[k + 1] == p);
                            }
                        }
                    }
                    assert(c1.to_set() =~= c0.to_set().remove((x, z)));
                }
            },
            None => {
                proof {
                    assert(c0.to_set() =~= c0.to_set().remove((x, z)));
                }
            },
        }
    }

    /// How many chunks changed since the last save.
    pub fn dirty_count(&self) -> (n: usize)
        requires
            self.wf(),
        ensures
            n == self.dirty_set().len(),
    {
        proof {
            self.dirty_chunks@.unique_seq_to_set();
        }
        self.dirty_chunks.len()
    }

    /// The chunks changed since the last save, each once.
    pub fn dirty_chunks(&self) -> (s: &[(i32, i32)])
        requires
            self.wf(),
        ensures
            s@.to_set() == self.dirty_set(),
            s@.no_duplicates(),
    {
        self.dirty_chunks.as_slice()
    }

    /// Forgets every changed chunk.
    pub fn clear_dirty(&mut self)
        requires
            old(self).wf(),
        ensures
            final(self).wf(),
            final(self).dirty_set() == Set::<(i32, i32)>::empty(),
            final(self).enabled() == old(self).enabled(),
            final(self).interval() == old(self).interval(),
            final(self).saving() == old(self).saving(),
    {
        self.dirty_chunks = Vec::new();
        proof {
            assert(self.dirty_chunks@.to_set() =~= Set::<(i32, i32)>::empty());
        }
    }

    /// Sets the auto-save interval; the timer starts over.
    pub fn set_auto_save_interval(&mut self, interval_secs: u64)
        requires
            old(self).wf(),
        ensures
            final(self).wf(),
            final(self).interval() == interval_secs,
            final(self).timer_elapsed() == 0,
            !final(self).timer_finished(),
            final(self).enabled() == old(self).enabled(),
            final(self).dirty_set() == old(self).dirty_set(),
    {
        self.auto_save_interval_secs = interval_secs;
        self.timer_elapsed_ms = 0;
        self.timer_finished = false;
    }

    /// Turns auto-save on or off.
    pub fn set_auto_save_enabled(&mut self, enabled: bool)
        requires
            old(self).wf(),
        ensures
            final(self).wf(),
            final(self).enabled() == enabled,
            final(self).interval() == old(self).interval(),
            final(self).dirty_set() == old(self).dirty_set(),
    {
        self.auto_save_enabled = enabled;
    }

    /// Whether an automatic save is due: auto-save is on and the timer
    /// expired on its last tick.
    pub fn should_auto_save(&self) -> (b: bool)
        ensures
            b == (self.enabled() && self.timer_finished()),
    {
        self.auto_save_enabled && self.timer_finished
    }

    /// Starts the timer over.
    pub fn reset_auto_save_timer(&mut self)
        requires
            old(self).wf(),
        ensures
            final(self).wf(),
            final(self).timer_elapsed() == 0,
            !final(self).timer_finished(),
            final(self).enabled() == old(self).enabled(),
            final(self).interval() == old(self).interval(),
            final(self).dirty_set() == old(self).dirty_set(),
            final(self).saving() == old(self).saving(),
    {
        self.timer_elapsed_ms = 0;
        self.timer_finished = false;
    }

    /// Whether a save is running.
    pub fn is_saving(&self) -> (b: bool)
        ensures
            b == self.saving(),
    {
        self.saving_in_progress
    }

    /// Records that a save started.
    pub fn begin_save(&mut self)
        requires
            old(self).wf(),
        ensures
            final(self).wf(),
            final(self).saving(),
            final(self).dirty_set() == old(self).dirty_set(),
            final(self).enabled() == old(self).enabled(),
            final(self).interval() == old(self).interval(),
    {
        self.saving_in_progress = true;
    }

    /// Records that a save finished.
    pub fn end_save(&mut self)
        requires
            old(self).wf(),
        ensures
            final(self).wf(),
            !final(self).saving(),
            final(self).dirty_set() == old(self).dirty_set(),
            final(self).enabled() == old(self).enabled(),
            final(self).interval() == old(self).interval(),
    {
        self.saving_in_progress = false;
    }

    /// Advances the auto-save timer by `delta_ms` milliseconds while
    /// auto-save is on (see the module documentation).
    pub fn update_save_timer(&mut self, delta_ms: u64)
        requires
            old(self).wf(),
        ensures
            final(self).wf(),
            ({
                let d = timer_duration_ms(old(self).interval());
                let e = if old(self).timer_elapsed() + delta_ms > u64::MAX {
                    u64::MAX as int
                } else {
                    old(self).timer_elapsed() + delta_ms
                };
                &&& !old(self).enabled() ==> final(self).timer_elapsed() == old(self).timer_elapsed()
                    && final(self).timer_finished() == old(self).timer_finished()
                &&& old(self).enabled() && e >= d ==> final(self).timer_finished()
                    && final(self).timer_elapsed() == if d == 0 { 0 } else { e % (d as int) }
                &&& old(self).enabled() && e < d ==> !final(self).timer_finished()
                    && final(self).timer_elapsed() == e
            }),
            final(self).enabled() == old(self).enabled(),
            final(self).interval() == old(self).interval(),
            final(self).dirty_set() == old(self).dirty_set(),
            final(self).saving() == old(self).saving(),
    {
        if !self.auto_save_enabled {
            return;
        }
        let d: u64 = match self.auto_save_interval_secs.checked_mul(1000) {
            Some(v) => v,
            None => u64::MAX,
        };
        let e: u64 = match self.timer_elapsed_ms.checked_add(delta_ms) {
            Some(v) => v,
            None => u64::MAX,
        };
        if e >= d {
            self.timer_finished = true;
            self.timer_elapsed_ms = if d == 0 { 0 } else { e % d };
        } else {
            self.timer_finished = false;
            self.timer_elapsed_ms = e;
        }
    }

    /// The decision of an auto-save tick: when an automatic save is due,
    /// the timer starts over, and a save is to be made when some chunk is
    /// dirty. Whether to save now.
    pub fn auto_save_due(&mut self) -> (save: bool)
        requires
            old(self).wf(),
        ensures
            final(self).wf(),
            save == (old(self).enabled() && old(self).timer_finished() && old(self).dirty_set().len() > 0),
            old(self).enabled() && old(self).timer_finished() ==> final(self).timer_elapsed() == 0
                && !final(self).timer_finished(),
            !(old(self).enabled() && old(self).timer_finished()) ==> final(self).timer_elapsed()
                == old(self).timer_elapsed() && final(self).timer_finished() == old(self).timer_finished(),
            final(self).dirty_set() == old(self).dirty_set(),
            final(self).enabled() == old(self).enabled(),
            final(self).interval() == old(self).interval(),
            final(self).saving() == old(self).saving(),
    {
        if !self.should_auto_save() {
            return false;
        }
        self.reset_auto_save_timer();
        self.dirty_count() > 0
    }

    /// The decision of the shutdown save: the first call says to save and
    /// records that the shutdown save was made; later calls say not to.
    pub fn shutdown_save_due(&mut self) -> (save: bool)
        requires
            old(self).wf(),
        ensures
            final(self).wf(),
            save == !old(self).shutdown_done(),
            final(self).shutdown_done(),
            final(self).dirty_set() == old(self).dirty_set(),
            final(self).saving() == old(self).saving(),
    {
        if self.shutdown_saved {
            return false;
        }
        self.shutdown_saved = true;
        true
    }

    /// Records the end of a save that wrote every chunk: nothing is dirty
    /// and no save is running.
    pub fn finish_save(&mut self)
        requires
            old(self).wf(),
        ensures
            final(self).wf(),
            final(self).dirty_set() == Set::<(i32, i32)>::empty(),
            !final(self).saving(),
            final(self).enabled() == old(self).enabled(),
            final(self).interval() == old(self).interval(),
    {
        self.clear_dirty();
        self.end_save();
    }
}

impl Default for WorldSaveManager {
    fn default() -> (m: WorldSaveManager)
        ensures
            m.wf(),
            m.path() == "world"@,
            m.dirty_set() == Set::<(i32, i32)>::empty(),
            m.enabled(),
            m.interval() == 300,
    {
        WorldSaveManager::new("world")
    }
}

/// A manager for the world at `world_path` (see [`WorldSaveManager::new`]).
pub fn create_save_manager(world_path: &str) -> (m: WorldSaveManager)
    ensures
        m.path() == world_path@,
        m.dirty_set() == Set::<(i32, i32)>::empty(),
        m.enabled(),
        m.interval() == 300,
{
    WorldSaveManager::new(world_path)
}

/// A manager for the world in the directory `world`.
pub fn default_save_manager() -> (m: WorldSaveManager)
    ensures
        m.path() == "world"@,
        m.dirty_set() == Set::<(i32, i32)>::empty(),
        m.enabled(),
        m.interval() == 300,
{
    WorldSaveManager::default()
}

} // verus!
