//! The arena: a registry of validated definitions and the set of active
//! instances, each bound to one registered definition by its index.
use vstd::prelude::*;
use crate::bridge::{lemma_requests_target, requests_spec, ButtonEvent, InstanceRequest, Trigger};
use crate::effect::{DefinitionError, EffectDefinition};
use crate::instance::{after_tick, EffectInstance, InstanceStatus, TickError};
use crate::spawner::initial_spawner;

verus! {

/// An instance together with the index of its definition.
#[derive(Debug)]
pub struct ActiveInstance {
    pub definition: usize,
    pub instance: EffectInstance,
}

/// Registered definitions and active instances.
#[derive(Debug)]
pub struct World {
    pub definitions: Vec<EffectDefinition>,
    pub active: Vec<ActiveInstance>,
    /// Seed of the next instance's random stream.
    pub next_seed: u64,
}

/// Whether `a` is bound to a definition of `defs` and still running.
pub open spec fn active_ok(defs: Seq<EffectDefinition>, a: ActiveInstance) -> bool {
    &&& a.definition < defs.len()
    &&& a.instance.wf(&defs[a.definition as int])
    &&& a.instance.status != InstanceStatus::Destroyed
}

pub open spec fn seed_after(s: u64) -> u64 {
    if s < u64::MAX {
        (s + 1) as u64
    } else {
        0
    }
}

/// The instances of `outs` that have not reached their terminal state, in
/// order.
pub open spec fn survivors(outs: Seq<ActiveInstance>) -> Seq<ActiveInstance>
    decreases outs.len(),
{
    if outs.len() == 0 {
        Seq::empty()
    } else {
        let rest = survivors(outs.drop_last());
        if outs.last().instance.status == InstanceStatus::Destroyed {
            rest
        } else {
            rest.push(outs.last())
        }
    }
}

/// Each instance of `outs` is the one of `before` at the same index, bound
/// to the same definition, after one tick of `dt`.
pub open spec fn ticked_all(
    defs: Seq<EffectDefinition>,
    before: Seq<ActiveInstance>,
    outs: Seq<ActiveInstance>,
    dt: int,
) -> bool {
    &&& outs.len() == before.len()
    &&& forall|i: int|
        0 <= i < outs.len() ==> (#[trigger] outs[i]).definition == before[i].definition && after_tick(
            &defs[before[i].definition as int],
            before[i].instance,
            outs[i].instance,
            dt,
        )
}

impl World {
    /// Every definition is valid and every active instance is bound to one
    /// and has not reached its terminal state.
    pub open spec fn wf(&self) -> bool {
        &&& forall|i: int| 0 <= i < self.definitions@.len() ==> #[trigger] self.definitions@[i].valid()
        &&& forall|i: int| 0 <= i < self.active@.len() ==> active_ok(self.definitions@, #[trigger] self.active@[i])
    }

    /// An empty world whose first instance will be seeded with `seed`.
    pub fn new(seed: u64) -> (r: World)
        ensures
            r.wf(),
            r.definitions@.len() == 0,
            r.active@.len() == 0,
            r.next_seed == seed,
    {
        World { definitions: Vec::new(), active: Vec::new(), next_seed: seed }
    }

    /// Checks `def` and, if it is valid, registers it; returns its index.
    pub fn register(&mut self, def: EffectDefinition) -> (r: Result<usize, DefinitionError>)
        requires
            old(self).wf(),
        ensures
            final(self).wf(),
            r is Ok <==> def.valid(),
            final(self).active@ == old(self).active@,
            final(self).next_seed == old(self).next_seed,
            r matches Ok(h) ==> h == old(self).definitions@.len() && final(self).definitions@ == old(
                self,
            ).definitions@.push(def),
            r is Err ==> final(self).definitions@ == old(self).definitions@,
    {
        match def.check() {
            Ok(()) => {
                let h = self.definitions.len();
                self.definitions.push(def);
                proof {
                    assert forall|i: int| 0 <= i < self.active@.len() implies active_ok(
                        self.definitions@,
                        #[trigger] self.active@[i],
                    ) by {
                        assert(active_ok(old(self).definitions@, self.active@[i]));
                        assert(self.definitions@[self.active@[i].definition as int] == old(
                            self,
                        ).definitions@[self.active@[i].definition as int]);
                    }
                }
                Ok(h)
            },
            Err(e) => Err(e),
        }
    }

    /// Creates the instance that `req` asks for, seeded with `next_seed`;
    /// returns its index in the active set, or `None` for an unknown
    /// definition.
    pub fn spawn(&mut self, req: InstanceRequest) -> (r: Option<usize>)
        requires
            old(self).wf(),
        ensures
            final(self).wf(),
            final(self).definitions@ == old(self).definitions@,
            r is Some <==> req.definition < old(self).definitions@.len(),
            r is None ==> final(self).active@ == old(self).active@ && final(self).next_seed == old(
                self,
            ).next_seed,
            r matches Some(k) ==> {
                &&& k == old(self).active@.len()
                &&& final(self).active@.len() == k + 1
                &&& final(self).active@.take(k as int) == old(self).active@
                &&& final(self).active@[k as int].definition == req.definition
                &&& final(self).active@[k as int].instance.status == InstanceStatus::Created
                &&& !final(self).active@[k as int].instance.stop_requested
                &&& final(self).active@[k as int].instance.rng.state == old(self).next_seed
                &&& final(self).active@[k as int].instance.spawner == initial_spawner(
                    old(self).definitions@[req.definition as int].spawner,
                )
                &&& final(self).next_seed == seed_after(old(self).next_seed)
            },
    {
        if req.definition >= self.definitions.len() {
            return None;
        }
        let inst = EffectInstance::new(&self.definitions[req.definition], self.next_seed);
        let k = self.active.len();
        self.active.push(ActiveInstance { definition: req.definition, instance: inst });
        self.next_seed = if self.next_seed < u64::MAX {
            self.next_seed + 1
        } else {
            0
        };
        proof {
            assert(self.active@.take(k as int) =~= old(self).active@);
            assert forall|i: int| 0 <= i < self.active@.len() implies active_ok(
                self.definitions@,
                #[trigger] self.active@[i],
            ) by {
                if i < k {
                    assert(self.active@[i] == old(self).active@[i]);
                }
            }
        }
        Some(k)
    }

    /// Spawns one instance per event that matches `trigger`, in event order;
    /// returns how many were created.
    pub fn handle_events(&mut self, trigger: &Trigger, events: &Vec<ButtonEvent>) -> (r: usize)
        requires
            old(self).wf(),
        ensures
            final(self).wf(),
            final(self).definitions@ == old(self).definitions@,
            r == if trigger.definition < old(self).definitions@.len() {
                requests_spec(*trigger, events@).len()
            } else {
                0
            },
            final(self).active@.len() == old(self).active@.len() + r,
            final(self).active@.take(old(self).active@.len() as int) == old(self).active@,
            forall|j: int|
                old(self).active@.len() <= j < final(self).active@.len() ==> {
                    &&& (#[trigger] final(self).active@[j]).definition == trigger.definition
                    &&& final(self).active@[j].instance.status == InstanceStatus::Created
                    &&& !final(self).active@[j].instance.stop_requested
                },
    {
        let reqs = trigger.requests(events);
        proof {
            lemma_requests_target(*trigger, events@);
        }
        let mut n: usize = 0;
        let mut i: usize = 0;
        while i < reqs.len()
            invariant
                self.wf(),
                self.definitions@ == old(self).definitions@,
                i <= reqs@.len(),
                forall|j: int| 0 <= j < reqs@.len() ==> (#[trigger] reqs@[j]).definition == trigger.definition,
                n == if trigger.definition < old(self).definitions@.len() {
                    i as int
                } else {
                    0
                },
                self.active@.len() == old(self).active@.len() + n,
                self.active@.take(old(self).active@.len() as int) == old(self).active@,
                forall|j: int|
                    old(self).active@.len() <= j < self.active@.len() ==> {
                        &&& (#[trigger] self.active@[j]).definition == trigger.definition
                        &&& self.active@[j].instance.status == InstanceStatus::Created
                        &&& !self.active@[j].instance.stop_requested
                    },
            decreases reqs@.len() - i,
        {
            let ghost before = self.active@;
            match self.spawn(reqs[i]) {
                Some(_) => {
                    n = n + 1;
                    proof {
                        let m = old(self).active@.len() as int;
                        assert(self.active@.take(before.len() as int) == before);
                        assert forall|j: int| 0 <= j < before.len() implies self.active@[j] == before[j] by {
                            assert(self.active@.take(before.len() as int)[j] == self.active@[j]);
                        }
                        assert(self.active@.take(m) =~= before.take(m));
                        assert(reqs@[i as int].definition == trigger.definition);
                        assert forall|j: int|
                            m <= j < self.active@.len() implies {
                                &&& (#[trigger] self.active@[j]).definition == trigger.definition
                                &&& self.active@[j].instance.status == InstanceStatus::Created
                                &&& !self.active@[j].instance.stop_requested
                            } by {
                            if j < before.len() {
                                assert(self.active@[j] == before[j]);
                            }
                        }
                    }
                },
                None => {},
            }
            i = i + 1;
        }
        n
    }

    /// Advances every active instance by `dt` and removes those that reached
    /// their terminal state; returns how many were removed.
    pub fn advance(&mut self, dt: i64) -> (r: Result<usize, TickError>)
        requires
            old(self).wf(),
        ensures
            final(self).wf(),
            final(self).definitions@ == old(self).definitions@,
            dt < 0 ==> r == Err::<usize, TickError>(TickError::InvalidTickInput) && final(self).active@
                == old(self).active@,
            dt >= 0 ==> (r matches Ok(n) && final(self).active@.len() + n == old(self).active@.len()
                && exists|outs: Seq<ActiveInstance>|
                #![trigger survivors(outs)]
                ticked_all(old(self).definitions@, old(self).active@, outs, dt as int)
                    && final(self).active@ == survivors(outs)),
    {
        if dt < 0 {
            return Err(TickError::InvalidTickInput);
        }
        let mut pending: Vec<ActiveInstance> = Vec::new();
        std::mem::swap(&mut self.active, &mut pending);
        let ghost total = pending@.len();
        let ghost orig = pending@;
        let ghost mut outs: Seq<ActiveInstance> = Seq::empty();
        assert(pending@.len() == pending.len());
        let mut removed: usize = 0;
        while pending.len() > 0
            invariant
                self.wf(),
                self.definitions@ == old(self).definitions@,
                forall|j: int| 0 <= j < pending@.len() ==> active_ok(self.definitions@, #[trigger] pending@[j]),
                self.active@.len() + removed + pending@.len() == total,
                total == old(self).active@.len(),
                orig == old(self).active@,
                total <= usize::MAX,
                dt >= 0,
                outs.len() + pending@.len() == total,
                pending@ == orig.skip(outs.len() as int),
                ticked_all(self.definitions@, orig.take(outs.len() as int), outs, dt as int),
                self.active@ == survivors(outs),
            decreases pending@.len(),
        {
            let ghost queue = pending@;
            let mut a = pending.remove(0);
            assert(active_ok(self.definitions@, a)) by {
                assert(a == queue[0]);
            }
            assert forall|j: int| 0 <= j < pending@.len() implies active_ok(self.definitions@, #[trigger] pending@[j]) by {
                assert(pending@[j] == queue[j + 1]);
            }
            let ghost a0 = a;
            let _ = a.instance.advance(&self.definitions[a.definition], dt);
            proof {
                let k = outs.len() as int;
                assert(a0 == orig[k]);
                let next = outs.push(a);
                assert(next.drop_last() =~= outs);
                assert(orig.take(k + 1).drop_last() =~= orig.take(k));
                assert(pending@ =~= orig.skip(k + 1));
                assert forall|i: int| 0 <= i < next.len() implies (#[trigger] next[i]).definition == orig.take(k + 1)[i].definition
                    && after_tick(
                    &self.definitions@[orig.take(k + 1)[i].definition as int],
                    orig.take(k + 1)[i].instance,
                    next[i].instance,
                    dt as int,
                ) by {
                    if i < k {
                        assert(next[i] == outs[i]);
                        assert(orig.take(k + 1)[i] == orig.take(k)[i]);
                    }
                }
                outs = next;
            }
            if a.instance.is_destroyed() {
                removed = removed + 1;
            } else {
                let ghost before = self.active@;
                self.active.push(a);
                assert forall|j: int| 0 <= j < self.active@.len() implies active_ok(
                    self.definitions@,
                    #[trigger] self.active@[j],
                ) by {
                    if j < before.len() {
                        assert(self.active@[j] == before[j]);
                    }
                }
            }
        }
        assert(orig.take(outs.len() as int) =~= orig);
        Ok(removed)
    }

    /// Asks the active instance at index `k` to stop at the next tick;
    /// returns whether there is such an instance.
    pub fn stop(&mut self, k: usize) -> (r: bool)
        requires
            old(self).wf(),
        ensures
            final(self).wf(),
            final(self).definitions@ == old(self).definitions@,
            r == (k < old(self).active@.len()),
            final(self).active@.len() == old(self).active@.len(),
            forall|j: int| 0 <= j < old(self).active@.len() && j != k ==> #[trigger] final(self).active@[j] == old(self).active@[j],
            r ==> final(self).active@[k as int].instance.stop_requested,
    {
        if k >= self.active.len() {
            return false;
        }
        let mut a = self.active.remove(k);
        a.instance.request_stop();
        self.active.insert(k, a);
        proof {
            assert forall|j: int| 0 <= j < self.active@.len() implies active_ok(
                self.definitions@,
                #[trigger] self.active@[j],
            ) by {
                if j < k {
                    assert(self.active@[j] == old(self).active@[j]);
                } else if j > k {
                    assert(self.active@[j] == old(self).active@[j]);
                }
            }
        }
        true
    }

    /// The number of active instances.
    pub fn active_count(&self) -> (r: usize)
        ensures
            r == self.active@.len(),
    {
        self.active.len()
    }
}

} // verus!
