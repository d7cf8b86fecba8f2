//! Effect instances: a fixed pool of particle slots bound to a definition,
//! with its own spawner state and random stream, advanced one tick at a time.
use vstd::prelude::*;
use crate::effect::{lemma_valid_modifiers_apply, EffectDefinition};
use crate::fixed::{add_spec, fx_add, Vec3, Vec4};
use crate::modifier::{
    apply_all, apply_all_spec, attr_value, empty_particle, lemma_all_time_driven_at_zero,
    lemma_drag_only_at_zero, lemma_frame, lemma_pure_idempotent, modifier_wf, pure_render, same_motion,
    time_driven, writes, Attribute, Modifier, Particle,
};
use crate::rng::Rng;
use crate::spawner::{initial_spawner, spawn_spec, Spawner, SpawnerPolicy};

verus! {

/// Where an instance is in its life.
#[derive(Clone, Copy, Debug, PartialEq, Eq, Structural)]
pub enum InstanceStatus {
    /// No tick yet.
    Created,
    /// The spawner may still emit.
    Spawning,
    /// The spawner is exhausted and particles are still alive.
    Draining,
    /// The spawner is exhausted and no particle is alive; terminal.
    Destroyed,
}

/// A refused tick.
#[derive(Clone, Copy, Debug, PartialEq, Eq, Structural)]
pub enum TickError {
    /// The elapsed time was negative.
    InvalidTickInput,
}

/// A live simulation of one definition.
#[derive(Debug)]
pub struct EffectInstance {
    pub slots: Vec<Particle>,
    pub spawner: Spawner,
    pub rng: Rng,
    pub status: InstanceStatus,
    /// Set by `request_stop`; honoured at the start of the next tick.
    pub stop_requested: bool,
}

/// The number of free slots in `s`.
pub open spec fn free_count(s: Seq<Particle>) -> nat
    decreases s.len(),
{
    if s.len() == 0 {
        0
    } else {
        free_count(s.drop_last()) + if s.last().alive {
            0nat
        } else {
            1nat
        }
    }
}

/// Whether some slot of `s` is alive.
pub open spec fn any_alive(s: Seq<Particle>) -> bool {
    exists|i: int| 0 <= i < s.len() && #[trigger] s[i].alive
}

/// A freshly allocated slot, before the Init phase.
pub open spec fn born() -> Particle {
    Particle { alive: true, ..empty_particle() }
}

/// `p` one tick older.
pub open spec fn aged(p: Particle, dt: int) -> Particle {
    Particle { age: add_spec(p.age as int, dt) as i64, ..p }
}

/// Whether running `ms` on `p` from some stream state gives `q`.
pub open spec fn phase_outcome(ms: Seq<Modifier>, p: Particle, dt: int, q: Particle) -> bool {
    exists|s: u64| #[trigger] apply_all_spec(ms, p, s, dt).0 == q
}

/// Whether `v` lists strictly increasing indices below `n`.
pub open spec fn ascending_below(v: Seq<usize>, n: int) -> bool {
    &&& forall|k: int| 0 <= k < v.len() ==> #[trigger] v[k] < n
    &&& forall|k: int, l: int| 0 <= k < l < v.len() ==> v[k] < v[l]
}

pub open spec fn min(a: int, b: int) -> int {
    if a < b {
        a
    } else {
        b
    }
}

/// Allocation over the slots `ps`: free slots, lowest index first, become
/// `born()` until `n` have been taken; the taken indices in order.
pub open spec fn alloc_fold(ps: Seq<Particle>, n: nat) -> (Seq<Particle>, Seq<usize>)
    decreases ps.len(),
{
    if ps.len() == 0 {
        (Seq::empty(), Seq::empty())
    } else {
        let (qs, r) = alloc_fold(ps.drop_last(), n);
        if !ps.last().alive && r.len() < n {
            (qs.push(born()), r.push((ps.len() - 1) as usize))
        } else {
            (qs.push(ps.last()), r)
        }
    }
}

/// The Init phase over `targets` in list order, threading the stream.
pub open spec fn init_fold(
    ps: Seq<Particle>,
    targets: Seq<usize>,
    ms: Seq<Modifier>,
    s: u64,
    dt: int,
) -> (Seq<Particle>, u64)
    decreases targets.len(),
{
    if targets.len() == 0 {
        (ps, s)
    } else {
        let (qs, s1) = init_fold(ps, targets.drop_last(), ms, s, dt);
        let t = targets.last() as int;
        let (q, s2) = apply_all_spec(ms, qs[t], s1, dt);
        (qs.update(t, q), s2)
    }
}

/// A phase over the alive slots of `ps` in slot order, threading the
/// stream; with `grow_age` each slot first ages by `dt`.
pub open spec fn phase_fold(ps: Seq<Particle>, ms: Seq<Modifier>, s: u64, dt: int, grow_age: bool) -> (
    Seq<Particle>,
    u64,
)
    decreases ps.len(),
{
    if ps.len() == 0 {
        (Seq::empty(), s)
    } else {
        let (qs, s1) = phase_fold(ps.drop_last(), ms, s, dt, grow_age);
        let p = ps.last();
        if !p.alive {
            (qs.push(p), s1)
        } else {
            let (q, s2) = apply_all_spec(ms, if grow_age { aged(p, dt) } else { p }, s1, dt);
            (qs.push(q), s2)
        }
    }
}

/// Marks up to `n` free slots alive, lowest index first, and returns them.
/// Requests beyond the free slots are dropped.
pub fn allocate(slots: &mut Vec<Particle>, n: u64) -> (r: Vec<usize>)
    ensures
        final(slots)@.len() == old(slots)@.len(),
        r@.len() == min(n as int, free_count(old(slots)@) as int),
        ascending_below(r@, old(slots)@.len() as int),
        forall|k: int| 0 <= k < r@.len() ==> !old(slots)@[#[trigger] r@[k] as int].alive,
        forall|k: int| 0 <= k < r@.len() ==> final(slots)@[#[trigger] r@[k] as int] == born(),
        forall|i: int|
            0 <= i < old(slots)@.len() && !r@.contains(i as usize) ==> #[trigger] final(slots)@[i]
                == old(slots)@[i],
        (final(slots)@, r@) == alloc_fold(old(slots)@, n as nat),
{
    let ghost start = slots@;
    let mut r: Vec<usize> = Vec::new();
    let mut i: usize = 0;
    while i < slots.len()
        invariant
            slots@.len() == start.len(),
            i <= start.len(),
            r@.len() == min(n as int, free_count(start.take(i as int)) as int),
            ascending_below(r@, i as int),
            forall|k: int| 0 <= k < r@.len() ==> !start[#[trigger] r@[k] as int].alive,
            forall|k: int| 0 <= k < r@.len() ==> slots@[#[trigger] r@[k] as int] == born(),
            forall|j: int| 0 <= j < start.len() && !r@.contains(j as usize) ==> #[trigger] slots@[j] == start[j],
            slots@ == alloc_fold(start.take(i as int), n as nat).0 + start.skip(i as int),
            r@ == alloc_fold(start.take(i as int), n as nat).1,
            alloc_fold(start.take(i as int), n as nat).0.len() == i,
        decreases start.len() - i,
    {
        assert(start.take(i + 1).drop_last() =~= start.take(i as int));
        proof {
            lemma_alloc_fold_len(start.take(i + 1), n as nat);
        }
        if !slots[i].alive && (r.len() as u64) < n {
            let ghost before = r@;
            slots.set(i, Particle::born());
            r.push(i);
            proof {
                assert(r@ == before.push(i));
                assert forall|j: int| 0 <= j < start.len() && !r@.contains(j as usize) implies #[trigger] slots@[j] == start[j] by {
                    assert(r@[r@.len() - 1] == i);
                    if j == i as int {
                        assert(r@.contains(j as usize));
                    }
                    if before.contains(j as usize) {
                        let k = choose|k: int| 0 <= k < before.len() && before[k] == j as usize;
                        assert(r@[k] == j as usize);
                    }
                }
                assert forall|k: int| 0 <= k < r@.len() implies slots@[#[trigger] r@[k] as int] == born() by {
                    if k < r@.len() - 1 {
                        assert(r@[k] == before[k]);
                        assert(before[k] < i);
                    }
                }
            }
        }
        proof {
            let f = alloc_fold(start.take(i + 1), n as nat);
            assert(slots@ =~= f.0 + start.skip(i + 1));
        }
        i = i + 1;
    }
    assert(start.take(i as int) =~= start);
    assert(slots@ =~= alloc_fold(start, n as nat).0);
    r
}

proof fn lemma_alloc_fold_len(ps: Seq<Particle>, n: nat)
    ensures
        alloc_fold(ps, n).0.len() == ps.len(),
    decreases ps.len(),
{
    if ps.len() > 0 {
        lemma_alloc_fold_len(ps.drop_last(), n);
    }
}

impl Particle {
    /// A freshly allocated slot.
    pub fn born() -> (r: Particle)
        ensures
            r == born(),
    {
        let mut p = Particle::empty();
        p.alive = true;
        p
    }
}

/// Runs `ms` once on each slot listed in `targets`, in list order.
fn run_init(slots: &mut Vec<Particle>, targets: &Vec<usize>, ms: &Vec<Modifier>, rng: &mut Rng, dt: i64)
    requires
        forall|i: int| 0 <= i < ms@.len() ==> modifier_wf(#[trigger] ms@[i]),
        ascending_below(targets@, old(slots)@.len() as int),
    ensures
        final(slots)@.len() == old(slots)@.len(),
        forall|k: int|
            0 <= k < targets@.len() ==> phase_outcome(
                ms@,
                old(slots)@[#[trigger] targets@[k] as int],
                dt as int,
                final(slots)@[targets@[k] as int],
            ),
        forall|i: int|
            0 <= i < old(slots)@.len() && !targets@.contains(i as usize) ==> #[trigger] final(slots)@[i]
                == old(slots)@[i],
        (final(slots)@, final(rng).state) == init_fold(old(slots)@, targets@, ms@, old(rng).state, dt as int),
{
    let ghost start = slots@;
    let ghost s_start = rng.state;
    let mut k: usize = 0;
    while k < targets.len()
        invariant
            slots@.len() == start.len(),
            k <= targets@.len(),
            forall|i: int| 0 <= i < ms@.len() ==> modifier_wf(#[trigger] ms@[i]),
            ascending_below(targets@, start.len() as int),
            forall|l: int|
                0 <= l < k ==> phase_outcome(
                    ms@,
                    start[#[trigger] targets@[l] as int],
                    dt as int,
                    slots@[targets@[l] as int],
                ),
            forall|i: int|
                0 <= i < start.len() && !targets@.take(k as int).contains(i as usize) ==> #[trigger] slots@[i]
                    == start[i],
            (slots@, rng.state) == init_fold(start, targets@.take(k as int), ms@, s_start, dt as int),
        decreases targets@.len() - k,
    {
        let t = targets[k];
        assert(targets@.take(k + 1).drop_last() =~= targets@.take(k as int));
        assert(!targets@.take(k as int).contains(t)) by {
            if targets@.take(k as int).contains(t) {
                let l = choose|l: int| 0 <= l < k && targets@.take(k as int)[l] == t;
                assert(targets@[l] < targets@[k as int]);
            }
        }
        let mut p = slots[t];
        let ghost s0 = rng.state;
        apply_all(ms, &mut p, rng, dt);
        assert(apply_all_spec(ms@, start[t as int], s0, dt as int).0 == p);
        slots.set(t, p);
        proof {
            assert forall|l: int| 0 <= l < k + 1 implies phase_outcome(
                ms@,
                start[#[trigger] targets@[l] as int],
                dt as int,
                slots@[targets@[l] as int],
            ) by {
                if l < k {
                    assert(targets@[l] < targets@[k as int]);
                }
            }
            assert forall|i: int|
                0 <= i < start.len() && !targets@.take(k + 1).contains(i as usize) implies #[trigger] slots@[i]
                    == start[i] by {
                assert(targets@.take(k + 1)[k as int] == t);
                if targets@.take(k as int).contains(i as usize) {
                    let l = choose|l: int| 0 <= l < k && targets@.take(k as int)[l] == i as usize;
                    assert(targets@.take(k + 1)[l] == i as usize);
                }
            }
        }
        k = k + 1;
    }
    assert(targets@.take(k as int) =~= targets@);
}

proof fn lemma_phase_fold_len(ps: Seq<Particle>, ms: Seq<Modifier>, s: u64, dt: int, grow_age: bool)
    ensures
        phase_fold(ps, ms, s, dt, grow_age).0.len() == ps.len(),
    decreases ps.len(),
{
    if ps.len() > 0 {
        lemma_phase_fold_len(ps.drop_last(), ms, s, dt, grow_age);
    }
}

/// Runs `ms` on every alive slot in slot order; with `grow_age`, each slot
/// first ages by `dt`.
fn run_phase(slots: &mut Vec<Particle>, ms: &Vec<Modifier>, rng: &mut Rng, dt: i64, grow_age: bool)
    requires
        forall|i: int| 0 <= i < ms@.len() ==> modifier_wf(#[trigger] ms@[i]),
    ensures
        final(slots)@.len() == old(slots)@.len(),
        forall|i: int|
            0 <= i < old(slots)@.len() ==> {
                let p = #[trigger] old(slots)@[i];
                let q = final(slots)@[i];
                if !p.alive {
                    q == p
                } else {
                    phase_outcome(ms@, if grow_age { aged(p, dt as int) } else { p }, dt as int, q)
                }
            },
        (final(slots)@, final(rng).state) == phase_fold(old(slots)@, ms@, old(rng).state, dt as int, grow_age),
{
    let ghost start = slots@;
    let ghost s_start = rng.state;
    let mut i: usize = 0;
    while i < slots.len()
        invariant
            slots@.len() == start.len(),
            i <= start.len(),
            forall|j: int| 0 <= j < ms@.len() ==> modifier_wf(#[trigger] ms@[j]),
            forall|j: int| i <= j < start.len() ==> #[trigger] slots@[j] == start[j],
            forall|j: int|
                0 <= j < i ==> {
                    let p = #[trigger] start[j];
                    let q = slots@[j];
                    if !p.alive {
                        q == p
                    } else {
                        phase_outcome(ms@, if grow_age { aged(p, dt as int) } else { p }, dt as int, q)
                    }
                },
            slots@ == phase_fold(start.take(i as int), ms@, s_start, dt as int, grow_age).0 + start.skip(i as int),
            rng.state == phase_fold(start.take(i as int), ms@, s_start, dt as int, grow_age).1,
            phase_fold(start.take(i as int), ms@, s_start, dt as int, grow_age).0.len() == i,
        decreases start.len() - i,
    {
        assert(start.take(i + 1).drop_last() =~= start.take(i as int));
        proof {
            lemma_phase_fold_len(start.take(i + 1), ms@, s_start, dt as int, grow_age);
        }
        let mut p = slots[i];
        if p.alive {
            if grow_age {
                p.age = fx_add(p.age, dt);
            }
            let ghost p0 = p;
            let ghost s0 = rng.state;
            apply_all(ms, &mut p, rng, dt);
            assert(apply_all_spec(ms@, p0, s0, dt as int).0 == p);
            slots.set(i, p);
        }
        proof {
            let f = phase_fold(start.take(i + 1), ms@, s_start, dt as int, grow_age);
            assert(slots@ =~= f.0 + start.skip(i + 1));
        }
        i = i + 1;
    }
    assert(start.take(i as int) =~= start);
    assert(slots@ =~= phase_fold(start, ms@, s_start, dt as int, grow_age).0);
}

/// Frees every slot.
fn free_all(slots: &mut Vec<Particle>)
    ensures
        final(slots)@ == freed(old(slots)@),
        !any_alive(final(slots)@),
{
    let ghost start = slots@;
    let mut i: usize = 0;
    while i < slots.len()
        invariant
            slots@.len() == start.len(),
            i <= start.len(),
            forall|j: int| i <= j < start.len() ==> #[trigger] slots@[j] == start[j],
            forall|j: int| 0 <= j < i ==> #[trigger] slots@[j] == (Particle { alive: false, ..start[j] }),
        decreases start.len() - i,
    {
        let mut p = slots[i];
        p.alive = false;
        slots.set(i, p);
        i = i + 1;
    }
    assert(slots@ =~= Seq::new(start.len(), |i: int| Particle { alive: false, ..start[i] }));
}

/// Frees every alive slot whose age has reached its lifetime; returns
/// whether any slot is still alive.
fn retire(slots: &mut Vec<Particle>) -> (r: bool)
    ensures
        final(slots)@.len() == old(slots)@.len(),
        forall|i: int|
            0 <= i < old(slots)@.len() ==> #[trigger] final(slots)@[i] == (Particle {
                alive: old(slots)@[i].alive && old(slots)@[i].age < old(slots)@[i].lifetime,
                ..old(slots)@[i]
            }),
        r == any_alive(final(slots)@),
{
    let ghost start = slots@;
    let mut any = false;
    let mut i: usize = 0;
    while i < slots.len()
        invariant
            slots@.len() == start.len(),
            i <= start.len(),
            forall|j: int| i <= j < start.len() ==> #[trigger] slots@[j] == start[j],
            forall|j: int|
                0 <= j < i ==> #[trigger] slots@[j] == (Particle {
                    alive: start[j].alive && start[j].age < start[j].lifetime,
                    ..start[j]
                }),
            any == exists|j: int| 0 <= j < i && #[trigger] slots@[j].alive,
        decreases start.len() - i,
    {
        let ghost mid = slots@;
        let mut p = slots[i];
        if p.alive && p.age >= p.lifetime {
            p.alive = false;
            slots.set(i, p);
        }
        proof {
            assert(slots@[i as int].alive == p.alive);
            assert forall|j: int| 0 <= j < i implies #[trigger] slots@[j] == mid[j] by {}
            if any {
                let j = choose|j: int| 0 <= j < i && #[trigger] mid[j].alive;
                assert(slots@[j].alive);
            }
            if exists|j: int| 0 <= j < i + 1 && #[trigger] slots@[j].alive {
                let j = choose|j: int| 0 <= j < i + 1 && #[trigger] slots@[j].alive;
                if j < i {
                    assert(mid[j].alive);
                }
            }
        }
        if p.alive {
            any = true;
        }
        i = i + 1;
    }
    any
}

/// `p` after the retirement step: freed once its age reaches its lifetime.
pub open spec fn retired(p: Particle) -> Particle {
    Particle { alive: p.alive && p.age < p.lifetime, ..p }
}

/// Every slot of `ps` after the retirement step.
pub open spec fn retire_all(ps: Seq<Particle>) -> Seq<Particle> {
    Seq::new(ps.len(), |i: int| retired(ps[i]))
}

/// The slots, the stream state and the allocated indices after one tick of
/// `dt` from slots `ps`, spawner `sp` and stream state `s`: allocation, Init
/// on the new slots in allocation order, Update and then Render on the
/// alive slots in slot order, retirement.
pub open spec fn tick_spec(def: &EffectDefinition, ps: Seq<Particle>, sp: Spawner, s: u64, dt: int) -> (
    Seq<Particle>,
    u64,
    Seq<usize>,
) {
    let (a, v) = alloc_fold(ps, spawn_spec(sp, dt).1 as nat);
    let (b, s1) = init_fold(a, v, def.init@, s, dt);
    let (c, s2) = phase_fold(b, def.update@, s1, dt, true);
    let (d, s3) = phase_fold(c, def.render@, s2, dt, false);
    (retire_all(d), s3, v)
}

/// The slots of `ps`, all freed.
pub open spec fn freed(ps: Seq<Particle>) -> Seq<Particle> {
    Seq::new(ps.len(), |i: int| Particle { alive: false, ..ps[i] })
}

/// Instance `b` is instance `a` after one tick of `dt >= 0` under `def`: a
/// destroyed instance stays as it is; one asked to stop is destroyed with
/// every slot freed; any other is simulated as `tick_spec` says.
pub open spec fn after_tick(def: &EffectDefinition, a: EffectInstance, b: EffectInstance, dt: int) -> bool {
    if a.status == InstanceStatus::Destroyed {
        b == a
    } else if a.stop_requested {
        &&& b.status == InstanceStatus::Destroyed
        &&& b.slots@ == freed(a.slots@)
        &&& b.rng == a.rng
        &&& b.spawner == a.spawner
        &&& b.stop_requested
    } else {
        let sp = spawn_spec(a.spawner, dt).0;
        let t = tick_spec(def, a.slots@, a.spawner, a.rng.state, dt);
        &&& b.slots@ == t.0
        &&& b.rng.state == t.1
        &&& b.spawner == sp
        &&& b.status == status_after(sp, b.slots@)
        &&& !b.stop_requested
    }
}

/// What one tick may do to a slot that was alive before it: age, Update,
/// Render, retirement.
pub open spec fn live_step(def: &EffectDefinition, p: Particle, q: Particle, dt: int) -> bool {
    exists|q1: Particle, q2: Particle|
        #![trigger phase_outcome(def.update@, aged(p, dt), dt, q1), phase_outcome(def.render@, q1, dt, q2)]
        phase_outcome(def.update@, aged(p, dt), dt, q1) && phase_outcome(def.render@, q1, dt, q2) && q
            == retired(q2)
}

/// What one tick may do to a slot allocated in it: Init, then as `live_step`.
pub open spec fn birth_step(def: &EffectDefinition, q: Particle, dt: int) -> bool {
    exists|q0: Particle| #[trigger] phase_outcome(def.init@, born(), dt, q0) && live_step(def, q0, q, dt)
}

/// The status after a tick that left spawner `sp` and slots `s`.
pub open spec fn status_after(sp: Spawner, s: Seq<Particle>) -> InstanceStatus {
    if !sp.exhausted_spec() {
        InstanceStatus::Spawning
    } else if any_alive(s) {
        InstanceStatus::Draining
    } else {
        InstanceStatus::Destroyed
    }
}

/// Whether no Update or Render modifier writes the age or the lifetime.
pub open spec fn clock_untouched(def: &EffectDefinition) -> bool {
    &&& forall|i: int|
        0 <= i < def.update@.len() ==> !writes(#[trigger] def.update@[i], Attribute::Age) && !writes(
            def.update@[i],
            Attribute::Lifetime,
        )
    &&& forall|i: int|
        0 <= i < def.render@.len() ==> !writes(#[trigger] def.render@[i], Attribute::Age) && !writes(
            def.render@[i],
            Attribute::Lifetime,
        )
}

/// Whether `p` is an output of the Render phase of `def`.
pub open spec fn rendered(def: &EffectDefinition, p: Particle) -> bool {
    exists|q: Particle, s: u64, d: int| #[trigger] apply_all_spec(def.render@, q, s, d).0 == p
}

/// Whether a tick of length zero can change nothing: Update holds only
/// drag, and Render only pure modifiers.
pub open spec fn zero_tick_stable(def: &EffectDefinition) -> bool {
    &&& forall|i: int| 0 <= i < def.update@.len() ==> (#[trigger] def.update@[i]) is LinearDrag
    &&& forall|i: int| 0 <= i < def.render@.len() ==> pure_render(#[trigger] def.render@[i])
}

/// Whether every Update and Render modifier is time driven.
pub open spec fn only_time_driven(def: &EffectDefinition) -> bool {
    &&& forall|i: int| 0 <= i < def.update@.len() ==> time_driven(#[trigger] def.update@[i])
    &&& forall|i: int| 0 <= i < def.render@.len() ==> time_driven(#[trigger] def.render@[i])
}

proof fn lemma_outcome_keeps_alive(ms: Seq<Modifier>, p: Particle, dt: int, q: Particle)
    requires
        phase_outcome(ms, p, dt, q),
    ensures
        q.alive == p.alive,
{
    let s = choose|s: u64| #[trigger] apply_all_spec(ms, p, s, dt).0 == q;
    lemma_frame_alive(ms, p, s, dt);
}

proof fn lemma_frame_alive(ms: Seq<Modifier>, p: Particle, s: u64, dt: int)
    ensures
        apply_all_spec(ms, p, s, dt).0.alive == p.alive,
    decreases ms.len(),
{
    if ms.len() > 0 {
        lemma_frame_alive(ms.drop_last(), p, s, dt);
    }
}

proof fn lemma_outcome_frame(ms: Seq<Modifier>, p: Particle, dt: int, q: Particle, a: Attribute)
    requires
        phase_outcome(ms, p, dt, q),
        forall|i: int| 0 <= i < ms.len() ==> !writes(#[trigger] ms[i], a),
    ensures
        attr_value(q, a) == attr_value(p, a),
{
    let s = choose|s: u64| #[trigger] apply_all_spec(ms, p, s, dt).0 == q;
    lemma_frame(ms, p, s, dt, a);
}

proof fn lemma_outcome_at_zero(ms: Seq<Modifier>, p: Particle, q: Particle)
    requires
        phase_outcome(ms, p, 0, q),
        forall|i: int| 0 <= i < ms.len() ==> time_driven(#[trigger] ms[i]),
    ensures
        same_motion(q, p),
{
    let s = choose|s: u64| #[trigger] apply_all_spec(ms, p, s, 0).0 == q;
    lemma_all_time_driven_at_zero(ms, p, s);
}

/// When no Update or Render modifier writes the age or the lifetime, a slot
/// alive before a tick ages by exactly `dt`, keeps its lifetime, and is
/// retired on that tick exactly when its new age reaches its lifetime; while
/// it stays alive over a tick of positive length its age strictly grows.
pub proof fn lemma_age_and_retirement(def: &EffectDefinition, p: Particle, q: Particle, dt: int)
    requires
        clock_untouched(def),
        p.alive,
        dt >= 0,
        live_step(def, p, q, dt),
    ensures
        q.age == add_spec(p.age as int, dt),
        q.lifetime == p.lifetime,
        q.alive == (add_spec(p.age as int, dt) < p.lifetime),
        q.alive && dt > 0 ==> q.age > p.age,
{
    let (q1, q2) = choose|q1: Particle, q2: Particle|
        #![trigger phase_outcome(def.update@, aged(p, dt), dt, q1), phase_outcome(def.render@, q1, dt, q2)]
        phase_outcome(def.update@, aged(p, dt), dt, q1) && phase_outcome(def.render@, q1, dt, q2) && q
            == retired(q2);
    assert forall|i: int| 0 <= i < def.update@.len() implies !writes(#[trigger] def.update@[i], Attribute::Age) by {}
    assert forall|i: int| 0 <= i < def.update@.len() implies !writes(#[trigger] def.update@[i], Attribute::Lifetime) by {}
    assert forall|i: int| 0 <= i < def.render@.len() implies !writes(#[trigger] def.render@[i], Attribute::Age) by {}
    assert forall|i: int| 0 <= i < def.render@.len() implies !writes(#[trigger] def.render@[i], Attribute::Lifetime) by {}
    lemma_outcome_frame(def.update@, aged(p, dt), dt, q1, Attribute::Age);
    lemma_outcome_frame(def.update@, aged(p, dt), dt, q1, Attribute::Lifetime);
    lemma_outcome_frame(def.render@, q1, dt, q2, Attribute::Age);
    lemma_outcome_frame(def.render@, q1, dt, q2, Attribute::Lifetime);
    lemma_outcome_keeps_alive(def.update@, aged(p, dt), dt, q1);
    lemma_outcome_keeps_alive(def.render@, q1, dt, q2);
}

proof fn lemma_live_step_rendered(def: &EffectDefinition, p: Particle, q: Particle, dt: int)
    requires
        live_step(def, p, q, dt),
        q.alive,
    ensures
        rendered(def, q),
{
    let (q1, q2) = choose|q1: Particle, q2: Particle|
        #![trigger phase_outcome(def.update@, aged(p, dt), dt, q1), phase_outcome(def.render@, q1, dt, q2)]
        phase_outcome(def.update@, aged(p, dt), dt, q1) && phase_outcome(def.render@, q1, dt, q2) && q
            == retired(q2);
    let s = choose|s: u64| #[trigger] apply_all_spec(def.render@, q1, s, dt).0 == q2;
    assert(q == q2);
    assert(apply_all_spec(def.render@, q1, s, dt).0 == q);
}

/// On a definition whose Update phase holds only drag and whose Render
/// phase holds only pure modifiers, a tick of length zero leaves an alive
/// slot that Render produced exactly as it was: every attribute, and alive.
pub proof fn lemma_zero_tick_no_op(def: &EffectDefinition, p: Particle, q: Particle)
    requires
        zero_tick_stable(def),
        p.alive,
        p.age < p.lifetime,
        rendered(def, p),
        live_step(def, p, q, 0),
    ensures
        q == p,
{
    let (q1, q2) = choose|q1: Particle, q2: Particle|
        #![trigger phase_outcome(def.update@, aged(p, 0), 0, q1), phase_outcome(def.render@, q1, 0, q2)]
        phase_outcome(def.update@, aged(p, 0), 0, q1) && phase_outcome(def.render@, q1, 0, q2) && q
            == retired(q2);
    assert(aged(p, 0) == p);
    let s1 = choose|s: u64| #[trigger] apply_all_spec(def.update@, p, s, 0).0 == q1;
    lemma_drag_only_at_zero(def.update@, p, s1);
    let s2 = choose|s: u64| #[trigger] apply_all_spec(def.render@, p, s, 0).0 == q2;
    let (x, s0, d0) = choose|x: Particle, s: u64, d: int| #[trigger] apply_all_spec(def.render@, x, s, d).0 == p;
    lemma_pure_idempotent(def.render@, x, s0, d0, s2, 0);
}

/// A tick of length zero, on a definition whose Update and Render modifiers
/// are all time driven, leaves every alive slot alive with its age,
/// lifetime, position and velocity unchanged.
pub proof fn lemma_zero_tick_keeps_motion(def: &EffectDefinition, p: Particle, q: Particle)
    requires
        only_time_driven(def),
        p.alive,
        p.age < p.lifetime,
        live_step(def, p, q, 0),
    ensures
        same_motion(q, p),
{
    let (q1, q2) = choose|q1: Particle, q2: Particle|
        #![trigger phase_outcome(def.update@, aged(p, 0), 0, q1), phase_outcome(def.render@, q1, 0, q2)]
        phase_outcome(def.update@, aged(p, 0), 0, q1) && phase_outcome(def.render@, q1, 0, q2) && q
            == retired(q2);
    assert(aged(p, 0) == p);
    lemma_outcome_at_zero(def.update@, p, q1);
    lemma_outcome_at_zero(def.render@, q1, q2);
}

/// On the first tick of a fresh instance, a `Once` spawner that emits
/// immediately is granted its whole count of slots when the capacity is at
/// least that count (the number of slots `advance` allocates is the smaller
/// of the request and the free slots).
pub proof fn lemma_first_burst(def: &EffectDefinition, inst: &EffectInstance, count: u32, dt: int)
    requires
        inst.wf(def),
        inst.status == InstanceStatus::Created,
        def.spawner == (SpawnerPolicy::Once { count, immediate: true }),
        count <= def.capacity,
    ensures
        spawn_spec(inst.spawner, dt).1 == count,
        min(spawn_spec(inst.spawner, dt).1 as int, free_count(inst.slots@) as int) == count,
{
    lemma_none_alive_all_free(inst.slots@);
}

impl EffectInstance {
    /// The instance is bound to `def`: one slot per unit of capacity, the
    /// definition's spawner, alive slots younger than their lifetime, and a
    /// status that agrees with the slots and the spawner.
    pub open spec fn wf(&self, def: &EffectDefinition) -> bool {
        &&& def.valid()
        &&& self.slots@.len() == def.capacity
        &&& self.spawner.wf()
        &&& self.spawner.policy == def.spawner
        &&& forall|i: int|
            0 <= i < self.slots@.len() && #[trigger] self.slots@[i].alive ==> self.slots@[i].age
                < self.slots@[i].lifetime
        &&& forall|i: int|
            0 <= i < self.slots@.len() && #[trigger] self.slots@[i].alive ==> rendered(def, self.slots@[i])
        &&& self.status == InstanceStatus::Destroyed ==> !any_alive(self.slots@) && (
        self.spawner.exhausted_spec() || self.stop_requested)
        &&& self.status == InstanceStatus::Created ==> !any_alive(self.slots@) && self.spawner
            == initial_spawner(def.spawner)
    }

    /// A new instance of `def` with its own random stream seeded by `seed`.
    pub fn new(def: &EffectDefinition, seed: u64) -> (r: EffectInstance)
        requires
            def.valid(),
        ensures
            r.wf(def),
            r.status == InstanceStatus::Created,
            r.rng.state == seed,
            !r.stop_requested,
            r.spawner == initial_spawner(def.spawner),
            r.slots@ == Seq::new(def.capacity as nat, |i: int| empty_particle()),
    {
        let mut slots: Vec<Particle> = Vec::new();
        let mut i: usize = 0;
        while i < def.capacity
            invariant
                i <= def.capacity,
                slots@ == Seq::new(i as nat, |j: int| empty_particle()),
            decreases def.capacity - i,
        {
            slots.push(Particle::empty());
            i = i + 1;
            assert(slots@ =~= Seq::new(i as nat, |j: int| empty_particle()));
        }
        EffectInstance {
            slots,
            spawner: Spawner::new(def.spawner),
            rng: Rng::new(seed),
            status: InstanceStatus::Created,
            stop_requested: false,
        }
    }

    /// Asks the instance to stop; the next tick frees every slot and
    /// destroys it instead of simulating.
    pub fn request_stop(&mut self)
        ensures
            final(self).stop_requested,
            final(self).slots@ == old(self).slots@,
            final(self).spawner == old(self).spawner,
            final(self).rng == old(self).rng,
            final(self).status == old(self).status,
    {
        self.stop_requested = true;
    }

    /// Whether the instance has reached its terminal state.
    pub fn is_destroyed(&self) -> (r: bool)
        ensures
            r == (self.status == InstanceStatus::Destroyed),
    {
        self.status == InstanceStatus::Destroyed
    }

    /// Advances the instance by `dt`: spawn, Init on the new slots, then on
    /// every alive slot age by `dt` and Update, then Render, then retire the
    /// slots whose age has reached their lifetime. Returns the slots
    /// allocated on this tick. A destroyed instance is left as it is.
    #[verifier::rlimit(60)]
    pub fn advance(&mut self, def: &EffectDefinition, dt: i64) -> (r: Result<Vec<usize>, TickError>)
        requires
            old(self).wf(def),
        ensures
            final(self).wf(def),
            dt < 0 ==> r == Err::<Vec<usize>, TickError>(TickError::InvalidTickInput) && *final(self)
                == *old(self),
            dt >= 0 ==> after_tick(def, *old(self), *final(self), dt as int),
            dt >= 0 && old(self).status == InstanceStatus::Destroyed ==> (r matches Ok(v) && v@.len()
                == 0 && *final(self) == *old(self)),
            dt >= 0 && old(self).status != InstanceStatus::Destroyed && old(self).stop_requested ==> (
            r matches Ok(v) && v@.len() == 0 && final(self).status == InstanceStatus::Destroyed
                && final(self).slots@ == freed(old(self).slots@) && final(self).rng == old(self).rng
                && final(self).spawner == old(self).spawner),
            dt >= 0 && old(self).status != InstanceStatus::Destroyed && !old(self).stop_requested ==> (r matches Ok(v) && {
                let s0 = old(self).slots@;
                let s1 = final(self).slots@;
                let (sp, requested) = spawn_spec(old(self).spawner, dt as int);
                &&& final(self).spawner == sp
                &&& (s1, final(self).rng.state, v@) == tick_spec(def, s0, old(self).spawner, old(self).rng.state, dt as int)
                &&& v@.len() == min(requested as int, free_count(s0) as int)
                &&& old(self).status == InstanceStatus::Created ==> free_count(s0) == s0.len()
                &&& ascending_below(v@, s0.len() as int)
                &&& forall|k: int| 0 <= k < v@.len() ==> !s0[#[trigger] v@[k] as int].alive
                &&& forall|k: int| 0 <= k < v@.len() ==> birth_step(def, s1[#[trigger] v@[k] as int], dt as int)
                &&& forall|i: int|
                    0 <= i < s0.len() && !s0[i].alive && !v@.contains(i as usize) ==> #[trigger] s1[i]
                        == s0[i]
                &&& forall|i: int| 0 <= i < s0.len() && #[trigger] s0[i].alive ==> live_step(def, s0[i], s1[i], dt as int)
                &&& clock_untouched(def) ==> forall|i: int|
                    0 <= i < s0.len() && #[trigger] s0[i].alive ==> {
                        &&& s1[i].age == add_spec(s0[i].age as int, dt as int)
                        &&& s1[i].lifetime == s0[i].lifetime
                        &&& s1[i].alive == (add_spec(s0[i].age as int, dt as int) < s0[i].lifetime)
                        &&& s1[i].alive && dt > 0 ==> s1[i].age > s0[i].age
                    }
                &&& dt == 0 && only_time_driven(def) ==> forall|i: int|
                    0 <= i < s0.len() && #[trigger] s0[i].alive ==> same_motion(s1[i], s0[i])
                &&& dt == 0 && zero_tick_stable(def) ==> forall|i: int|
                    0 <= i < s0.len() && #[trigger] s0[i].alive ==> s1[i] == s0[i]
                &&& final(self).status == status_after(sp, s1)
            }),
    {
        if dt < 0 {
            return Err(TickError::InvalidTickInput);
        }
        if self.status == InstanceStatus::Destroyed {
            return Ok(Vec::new());
        }
        if self.stop_requested {
            free_all(&mut self.slots);
            self.status = InstanceStatus::Destroyed;
            return Ok(Vec::new());
        }
        proof {
            lemma_valid_modifiers_apply(def.init@, def.layout@);
            lemma_valid_modifiers_apply(def.update@, def.layout@);
            lemma_valid_modifiers_apply(def.render@, def.layout@);
        }
        let ghost s0 = self.slots@;
        let requested = self.spawner.tick(dt);
        let spawned = allocate(&mut self.slots, requested);
        let ghost s1 = self.slots@;
        run_init(&mut self.slots, &spawned, &def.init, &mut self.rng, dt);
        let ghost s2 = self.slots@;
        run_phase(&mut self.slots, &def.update, &mut self.rng, dt, true);
        let ghost s3 = self.slots@;
        run_phase(&mut self.slots, &def.render, &mut self.rng, dt, false);
        let ghost s4 = self.slots@;
        let any = retire(&mut self.slots);
        let ghost s5 = self.slots@;
        let exhausted = self.spawner.is_exhausted();
        self.status = if !exhausted {
            InstanceStatus::Spawning
        } else if any {
            InstanceStatus::Draining
        } else {
            InstanceStatus::Destroyed
        };
        proof {
            let dti = dt as int;
            assert(s5 =~= retire_all(s4));
            if old(self).status == InstanceStatus::Created {
                lemma_none_alive_all_free(s0);
            }
            assert forall|i: int| 0 <= i < s0.len() && #[trigger] s0[i].alive implies live_step(def, s0[i], s5[i], dti) by {
                if spawned@.contains(i as usize) {
                    let k = choose|k: int| 0 <= k < spawned@.len() && spawned@[k] == i as usize;
                    assert(!s0[spawned@[k] as int].alive);
                }
                assert(s1[i] == s0[i]);
                assert(s2[i] == s1[i]);
                assert(phase_outcome(def.update@, aged(s2[i], dti), dti, s3[i]));
                lemma_outcome_keeps_alive(def.update@, aged(s2[i], dti), dti, s3[i]);
                assert(phase_outcome(def.render@, s3[i], dti, s4[i]));
                assert(s5[i] == retired(s4[i]));
            }
            assert forall|k: int| 0 <= k < spawned@.len() implies birth_step(def, s5[#[trigger] spawned@[k] as int], dti) by {
                let i = spawned@[k] as int;
                assert(s1[i] == born());
                assert(phase_outcome(def.init@, born(), dti, s2[i]));
                lemma_outcome_keeps_alive(def.init@, born(), dti, s2[i]);
                assert(phase_outcome(def.update@, aged(s2[i], dti), dti, s3[i]));
                lemma_outcome_keeps_alive(def.update@, aged(s2[i], dti), dti, s3[i]);
                assert(phase_outcome(def.render@, s3[i], dti, s4[i]));
                assert(live_step(def, s2[i], s5[i], dti));
            }
            assert forall|i: int|
                0 <= i < s0.len() && !s0[i].alive && !spawned@.contains(i as usize) implies #[trigger] s5[i]
                    == s0[i] by {
                assert(s1[i] == s0[i]);
                assert(!s2[i].alive);
            }
            if clock_untouched(def) {
                assert forall|i: int| 0 <= i < s0.len() && #[trigger] s0[i].alive implies {
                    &&& s5[i].age == add_spec(s0[i].age as int, dti)
                    &&& s5[i].lifetime == s0[i].lifetime
                    &&& s5[i].alive == (add_spec(s0[i].age as int, dti) < s0[i].lifetime)
                    &&& s5[i].alive && dt > 0 ==> s5[i].age > s0[i].age
                } by {
                    lemma_age_and_retirement(def, s0[i], s5[i], dti);
                }
            }
            assert forall|i: int| 0 <= i < s5.len() && #[trigger] s5[i].alive implies rendered(def, s5[i]) by {
                if s0[i].alive {
                    lemma_live_step_rendered(def, s0[i], s5[i], dti);
                } else if spawned@.contains(i as usize) {
                    let k = choose|k: int| 0 <= k < spawned@.len() && spawned@[k] == i as usize;
                    assert(birth_step(def, s5[spawned@[k] as int], dti));
                    let q0 = choose|q0: Particle| #[trigger] phase_outcome(def.init@, born(), dti, q0) && live_step(def, q0, s5[i], dti);
                    lemma_live_step_rendered(def, q0, s5[i], dti);
                }
            }
            if dt == 0 && zero_tick_stable(def) {
                assert forall|i: int| 0 <= i < s0.len() && #[trigger] s0[i].alive implies s5[i] == s0[i] by {
                    lemma_zero_tick_no_op(def, s0[i], s5[i]);
                }
            }
            if dt == 0 && only_time_driven(def) {
                assert forall|i: int| 0 <= i < s0.len() && #[trigger] s0[i].alive implies same_motion(s5[i], s0[i]) by {
                    lemma_zero_tick_keeps_motion(def, s0[i], s5[i]);
                }
            }
        }
        Ok(spawned)
    }
}

/// What the renderer reads of one alive particle.
#[derive(Clone, Copy, Debug, PartialEq, Eq, Structural)]
pub struct RenderItem {
    pub position: Vec3,
    pub size: i64,
    pub color: Vec4,
}

/// The render items of the alive slots of `s`, in slot order.
pub open spec fn render_items(s: Seq<Particle>) -> Seq<RenderItem>
    decreases s.len(),
{
    if s.len() == 0 {
        Seq::empty()
    } else {
        render_items(s.drop_last()) + if s.last().alive {
            seq![RenderItem { position: s.last().position, size: s.last().size, color: s.last().color }]
        } else {
            Seq::empty()
        }
    }
}

/// A pool with no alive slot has every slot free.
pub proof fn lemma_none_alive_all_free(s: Seq<Particle>)
    requires
        !any_alive(s),
    ensures
        free_count(s) == s.len(),
    decreases s.len(),
{
    if s.len() > 0 {
        let init = s.drop_last();
        assert(!s[s.len() - 1].alive);
        assert forall|i: int| 0 <= i < init.len() implies !#[trigger] init[i].alive by {
            assert(init[i] == s[i]);
        }
        lemma_none_alive_all_free(init);
    }
}

impl EffectInstance {
    /// Position, size and color of every alive particle, in slot order.
    pub fn visible(&self) -> (r: Vec<RenderItem>)
        ensures
            r@ == render_items(self.slots@),
    {
        let mut r: Vec<RenderItem> = Vec::new();
        let mut i: usize = 0;
        while i < self.slots.len()
            invariant
                i <= self.slots@.len(),
                r@ == render_items(self.slots@.take(i as int)),
            decreases self.slots@.len() - i,
        {
            assert(self.slots@.take(i + 1).drop_last() =~= self.slots@.take(i as int));
            let p = self.slots[i];
            if p.alive {
                r.push(RenderItem { position: p.position, size: p.size, color: p.color });
            }
            assert(r@ =~= render_items(self.slots@.take(i + 1)));
            i = i + 1;
        }
        assert(self.slots@.take(i as int) =~= self.slots@);
        r
    }

    /// The number of alive slots.
    pub fn alive_count(&self) -> (r: usize)
        ensures
            r == self.slots@.len() - free_count(self.slots@),
    {
        let mut n: usize = 0;
        let mut i: usize = 0;
        while i < self.slots.len()
            invariant
                i <= self.slots@.len(),
                n == i - free_count(self.slots@.take(i as int)),
                free_count(self.slots@.take(i as int)) <= i,
            decreases self.slots@.len() - i,
        {
            assert(self.slots@.take(i + 1).drop_last() =~= self.slots@.take(i as int));
            if self.slots[i].alive {
                n = n + 1;
            }
            i = i + 1;
        }
        assert(self.slots@.take(i as int) =~= self.slots@);
        n
    }
}

} // verus!
