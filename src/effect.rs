//! Effect definitions: an attribute layout, ordered Init / Update / Render
//! modifier sequences, a spawner policy and a fixed particle capacity,
//! checked once when the definition is built.
use vstd::prelude::*;
use crate::modifier::{
    check_declared, check_typed, modifier_declared, modifier_valid, modifier_wf,
    Attribute, Modifier,
};
use crate::spawner::{policy_valid, SpawnerPolicy};

verus! {

/// One of the three ordered modifier phases.
#[derive(Clone, Copy, Debug, PartialEq, Eq, Structural)]
pub enum Phase {
    Init,
    Update,
    Render,
}

/// Why a definition was refused.
#[derive(Clone, Copy, Debug, PartialEq, Eq, Structural)]
pub enum DefinitionError {
    /// The modifier at `index` of `phase` touches an attribute that the
    /// layout does not declare.
    UndeclaredAttribute { phase: Phase, index: usize },
    /// The modifier at `index` of `phase` has an expression of the wrong
    /// shape (or an empty or unordered gradient).
    TypeMismatch { phase: Phase, index: usize },
    /// A rate spawner with a negative rate.
    NegativeRate,
}

/// A static, shareable description of an effect.
#[derive(Debug)]
pub struct EffectDefinition {
    pub layout: Vec<Attribute>,
    pub init: Vec<Modifier>,
    pub update: Vec<Modifier>,
    pub render: Vec<Modifier>,
    pub spawner: SpawnerPolicy,
    pub capacity: usize,
}

pub open spec fn all_valid(ms: Seq<Modifier>, layout: Seq<Attribute>) -> bool {
    forall|i: int| 0 <= i < ms.len() ==> modifier_valid(#[trigger] ms[i], layout)
}

/// Modifiers before `index` are valid and the one at `index` is not.
pub open spec fn first_invalid(ms: Seq<Modifier>, layout: Seq<Attribute>, index: int) -> bool {
    &&& 0 <= index < ms.len()
    &&& forall|i: int| 0 <= i < index ==> modifier_valid(#[trigger] ms[i], layout)
    &&& !modifier_valid(ms[index], layout)
}

/// The error for the first invalid modifier at `index` of `phase`.
pub open spec fn modifier_error(
    ms: Seq<Modifier>,
    layout: Seq<Attribute>,
    phase: Phase,
    index: int,
) -> DefinitionError {
    if !modifier_declared(ms[index], layout) {
        DefinitionError::UndeclaredAttribute { phase, index: index as usize }
    } else {
        DefinitionError::TypeMismatch { phase, index: index as usize }
    }
}

/// Whether `e` is the error that a check of `ms` in `phase` reports.
pub open spec fn reports(ms: Seq<Modifier>, layout: Seq<Attribute>, phase: Phase, e: DefinitionError) -> bool {
    exists|index: int|
        #![trigger first_invalid(ms, layout, index)]
        first_invalid(ms, layout, index) && e == modifier_error(ms, layout, phase, index)
}

fn check_phase(ms: &Vec<Modifier>, layout: &Vec<Attribute>, phase: Phase) -> (r: Result<(), DefinitionError>)
    ensures
        r is Ok <==> all_valid(ms@, layout@),
        r matches Err(e) ==> reports(ms@, layout@, phase, e),
{
    let mut i: usize = 0;
    while i < ms.len()
        invariant
            i <= ms@.len(),
            forall|j: int| 0 <= j < i ==> modifier_valid(#[trigger] ms@[j], layout@),
        decreases ms@.len() - i,
    {
        if !check_declared(&ms[i], layout) {
            proof {
                assert(first_invalid(ms@, layout@, i as int));
            }
            return Err(DefinitionError::UndeclaredAttribute { phase, index: i });
        }
        if !check_typed(&ms[i]) {
            proof {
                assert(first_invalid(ms@, layout@, i as int));
            }
            return Err(DefinitionError::TypeMismatch { phase, index: i });
        }
        i = i + 1;
    }
    Ok(())
}

impl EffectDefinition {
    /// The definition can back instances: its spawner is valid and every
    /// modifier is well formed over the layout.
    pub open spec fn valid(&self) -> bool {
        &&& policy_valid(self.spawner)
        &&& all_valid(self.init@, self.layout@)
        &&& all_valid(self.update@, self.layout@)
        &&& all_valid(self.render@, self.layout@)
    }

    /// A definition with the given capacity, spawner and layout, and no
    /// modifiers yet.
    pub fn new(capacity: usize, spawner: SpawnerPolicy, layout: Vec<Attribute>) -> (r: EffectDefinition)
        ensures
            r.capacity == capacity,
            r.spawner == spawner,
            r.layout@ == layout@,
            r.init@.len() == 0,
            r.update@.len() == 0,
            r.render@.len() == 0,
    {
        EffectDefinition {
            layout,
            init: Vec::new(),
            update: Vec::new(),
            render: Vec::new(),
            spawner,
            capacity,
        }
    }

    /// Appends `m` to the Init phase.
    pub fn with_init(self, m: Modifier) -> (r: EffectDefinition)
        ensures
            r.init@ == self.init@.push(m),
            r.update@ == self.update@,
            r.render@ == self.render@,
            r.layout@ == self.layout@,
            r.spawner == self.spawner,
            r.capacity == self.capacity,
    {
        let mut d = self;
        d.init.push(m);
        d
    }

    /// Appends `m` to the Update phase.
    pub fn with_update(self, m: Modifier) -> (r: EffectDefinition)
        ensures
            r.update@ == self.update@.push(m),
            r.init@ == self.init@,
            r.render@ == self.render@,
            r.layout@ == self.layout@,
            r.spawner == self.spawner,
            r.capacity == self.capacity,
    {
        let mut d = self;
        d.update.push(m);
        d
    }

    /// Appends `m` to the Render phase.
    pub fn with_render(self, m: Modifier) -> (r: EffectDefinition)
        ensures
            r.render@ == self.render@.push(m),
            r.init@ == self.init@,
            r.update@ == self.update@,
            r.layout@ == self.layout@,
            r.spawner == self.spawner,
            r.capacity == self.capacity,
    {
        let mut d = self;
        d.render.push(m);
        d
    }

    /// Checks the definition once, before any instance uses it: the rate is
    /// not negative, then each phase in order Init, Update, Render, each
    /// modifier in sequence order; the first fault found is reported.
    pub fn check(&self) -> (r: Result<(), DefinitionError>)
        ensures
            r is Ok <==> self.valid(),
            r == Err::<(), DefinitionError>(DefinitionError::NegativeRate) <==> !policy_valid(self.spawner),
            r matches Err(e) ==> !policy_valid(self.spawner) || {
                ||| reports(self.init@, self.layout@, Phase::Init, e)
                ||| all_valid(self.init@, self.layout@) && reports(self.update@, self.layout@, Phase::Update, e)
                ||| all_valid(self.init@, self.layout@) && all_valid(self.update@, self.layout@)
                    && reports(self.render@, self.layout@, Phase::Render, e)
            },
    {
        match self.spawner {
            SpawnerPolicy::Rate { per_second } => {
                if per_second < 0 {
                    return Err(DefinitionError::NegativeRate);
                }
            },
            SpawnerPolicy::Once { .. } => {},
        }
        check_phase(&self.init, &self.layout, Phase::Init)?;
        check_phase(&self.update, &self.layout, Phase::Update)?;
        check_phase(&self.render, &self.layout, Phase::Render)
    }
}

/// Every valid modifier can be applied.
pub proof fn lemma_valid_modifiers_apply(ms: Seq<Modifier>, layout: Seq<Attribute>)
    requires
        all_valid(ms, layout),
    ensures
        forall|i: int| 0 <= i < ms.len() ==> modifier_wf(#[trigger] ms[i]),
{
    assert forall|i: int| 0 <= i < ms.len() implies modifier_wf(#[trigger] ms[i]) by {
        assert(modifier_valid(ms[i], layout));
    }
}

} // verus!
