//! Spawner policies: how many particles an instance asks for on each tick.
use vstd::prelude::*;
use crate::fixed::{add_spec, fx_add, fx_mul, mul_spec, SCALE};

verus! {

/// When and how many particles to emit.
#[derive(Clone, Copy, Debug, PartialEq, Eq, Structural)]
pub enum SpawnerPolicy {
    /// `count` particles on the first tick (or, when not `immediate`, on the
    /// second), then none.
    Once { count: u32, immediate: bool },
    /// `per_second` (fixed-point) particles per second of simulated time.
    Rate { per_second: i64 },
}

/// A spawner's runtime state.
#[derive(Clone, Copy, Debug, PartialEq, Eq, Structural)]
pub struct Spawner {
    pub policy: SpawnerPolicy,
    /// Whether a tick has already been seen.
    pub ticked: bool,
    /// Whether a `Once` burst has been emitted.
    pub fired: bool,
    /// Fractional particles carried between ticks, in `[0, SCALE)`.
    pub counter: i64,
}

pub open spec fn policy_valid(p: SpawnerPolicy) -> bool {
    match p {
        SpawnerPolicy::Once { .. } => true,
        SpawnerPolicy::Rate { per_second } => per_second >= 0,
    }
}

pub open spec fn initial_spawner(p: SpawnerPolicy) -> Spawner {
    Spawner { policy: p, ticked: false, fired: false, counter: 0 }
}

/// The next state and the number of particles requested on a tick of `dt`.
pub open spec fn spawn_spec(sp: Spawner, dt: int) -> (Spawner, u64) {
    match sp.policy {
        SpawnerPolicy::Once { count, immediate } => {
            if !sp.fired && (immediate || sp.ticked) {
                (Spawner { ticked: true, fired: true, ..sp }, count as u64)
            } else {
                (Spawner { ticked: true, ..sp }, 0)
            }
        },
        SpawnerPolicy::Rate { per_second } => {
            let acc = add_spec(sp.counter as int, mul_spec(per_second as int, dt));
            (
                Spawner { ticked: true, counter: (acc % SCALE as int) as i64, ..sp },
                (acc / SCALE as int) as u64,
            )
        },
    }
}

/// The counts requested over a sequence of ticks of the given lengths.
pub open spec fn spawn_counts(sp: Spawner, dts: Seq<int>) -> Seq<u64>
    decreases dts.len(),
{
    if dts.len() == 0 {
        Seq::empty()
    } else {
        let (next, k) = spawn_spec(sp, dts[0]);
        seq![k] + spawn_counts(next, dts.drop_first())
    }
}

impl Spawner {
    /// The rate is valid, the carried fraction is below one, and an
    /// immediate burst has been emitted once any tick has been seen.
    pub open spec fn wf(&self) -> bool {
        &&& policy_valid(self.policy)
        &&& 0 <= self.counter < SCALE
        &&& (self.policy matches SpawnerPolicy::Once { immediate, .. } && immediate && self.ticked
            ==> self.fired)
    }

    /// A spawner in its initial state.
    pub fn new(policy: SpawnerPolicy) -> (r: Spawner)
        ensures
            r == initial_spawner(policy),
    {
        Spawner { policy, ticked: false, fired: false, counter: 0 }
    }

    /// A burst of `count` particles.
    pub fn once(count: u32, immediate: bool) -> (r: Spawner)
        ensures
            r == initial_spawner(SpawnerPolicy::Once { count, immediate }),
    {
        Spawner::new(SpawnerPolicy::Once { count, immediate })
    }

    /// A continuous emission of `per_second` particles per second.
    pub fn rate(per_second: i64) -> (r: Spawner)
        ensures
            r == initial_spawner(SpawnerPolicy::Rate { per_second }),
    {
        Spawner::new(SpawnerPolicy::Rate { per_second })
    }

    /// Whether the spawner will never emit again.
    pub open spec fn exhausted_spec(&self) -> bool {
        match self.policy {
            SpawnerPolicy::Once { .. } => self.fired,
            SpawnerPolicy::Rate { .. } => false,
        }
    }

    pub fn is_exhausted(&self) -> (r: bool)
        ensures
            r == self.exhausted_spec(),
    {
        match self.policy {
            SpawnerPolicy::Once { .. } => self.fired,
            SpawnerPolicy::Rate { .. } => false,
        }
    }

    /// Advances the spawner by `dt` and returns how many particles it asks for.
    pub fn tick(&mut self, dt: i64) -> (r: u64)
        requires
            old(self).wf(),
            dt >= 0,
        ensures
            final(self).wf(),
            (*final(self), r) == spawn_spec(*old(self), dt as int),
    {
        match self.policy {
            SpawnerPolicy::Once { count, immediate } => {
                if !self.fired && (immediate || self.ticked) {
                    self.ticked = true;
                    self.fired = true;
                    count as u64
                } else {
                    self.ticked = true;
                    0
                }
            },
            SpawnerPolicy::Rate { per_second } => {
                let m = fx_mul(per_second, dt);
                proof {
                    assert(per_second * dt >= 0) by (nonlinear_arith)
                        requires
                            per_second >= 0,
                            dt >= 0,
                    ;
                    vstd::arithmetic::div_mod::lemma_div_pos_is_pos(per_second * dt, SCALE as int);
                }
                let acc = fx_add(self.counter, m);
                self.ticked = true;
                self.counter = acc % SCALE;
                (acc / SCALE) as u64
            },
        }
    }
}

/// A well-formed `Once` spawner that has already seen a tick asks for
/// nothing more, whatever its state.
pub proof fn lemma_once_after_first_tick(sp: Spawner, dts: Seq<int>)
    requires
        sp.wf(),
        sp.policy matches SpawnerPolicy::Once { immediate, .. } && immediate,
        sp.ticked,
    ensures
        forall|i: int| 0 <= i < dts.len() ==> #[trigger] spawn_counts(sp, dts)[i] == 0,
{
    lemma_fired_emits_nothing(sp, dts);
}

/// A `Once` spawner that emits immediately asks for its whole count on the
/// first tick and for nothing on every later tick.
pub proof fn lemma_once_immediate(count: u32, dts: Seq<int>)
    requires
        dts.len() > 0,
    ensures
        spawn_counts(initial_spawner(SpawnerPolicy::Once { count, immediate: true }), dts)[0]
            == count,
        forall|i: int|
            1 <= i < dts.len() ==> #[trigger] spawn_counts(
                initial_spawner(SpawnerPolicy::Once { count, immediate: true }),
                dts,
            )[i] == 0,
{
    let sp = initial_spawner(SpawnerPolicy::Once { count, immediate: true });
    let (next, k) = spawn_spec(sp, dts[0]);
    lemma_fired_emits_nothing(next, dts.drop_first());
    assert(spawn_counts(sp, dts) == seq![k] + spawn_counts(next, dts.drop_first()));
}

proof fn lemma_fired_emits_nothing(sp: Spawner, dts: Seq<int>)
    requires
        sp.fired,
        sp.policy is Once,
    ensures
        spawn_counts(sp, dts).len() == dts.len(),
        forall|i: int| 0 <= i < dts.len() ==> #[trigger] spawn_counts(sp, dts)[i] == 0,
    decreases dts.len(),
{
    if dts.len() > 0 {
        let (next, k) = spawn_spec(sp, dts[0]);
        lemma_fired_emits_nothing(next, dts.drop_first());
        let rest = spawn_counts(next, dts.drop_first());
        assert forall|i: int| 0 <= i < dts.len() implies #[trigger] spawn_counts(sp, dts)[i] == 0 by {
            if i > 0 {
                assert(spawn_counts(sp, dts)[i] == rest[i - 1]);
            }
        }
    }
}

} // verus!
