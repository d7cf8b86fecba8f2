use particle_fx::bridge::{Button, ButtonEvent, ButtonState, InstanceRequest, Trigger};
use particle_fx::effect::{DefinitionError, EffectDefinition, Phase};
use particle_fx::expr::{Expr, Value};
use particle_fx::fixed::{Vec3, Vec4, SCALE};
use particle_fx::gradient::Gradient;
use particle_fx::instance::{EffectInstance, InstanceStatus, TickError};
use particle_fx::modifier::{Attribute, Axis, Modifier, Particle, ShapeDimension};
use particle_fx::presets::{build_explosion_effect, full_layout, BURST_CAPACITY, BURST_COUNT};
use particle_fx::spawner::{Spawner, SpawnerPolicy};
use particle_fx::world::World;

fn set(attr: Attribute, x: i64) -> Modifier {
    Modifier::SetAttribute { attr, value: Expr::scalar(x) }
}

fn lifetime_def(capacity: usize, count: u32, lifetime: i64) -> EffectDefinition {
    EffectDefinition::new(capacity, SpawnerPolicy::Once { count, immediate: true }, full_layout())
        .with_init(set(Attribute::Age, 0))
        .with_init(set(Attribute::Lifetime, lifetime))
}

fn alive(inst: &EffectInstance) -> Vec<Particle> {
    inst.slots.iter().copied().filter(|p| p.alive).collect()
}

#[test]
fn once_immediate_emits_count_then_nothing() {
    let mut sp = Spawner::once(200, true);
    assert_eq!(sp.tick(SCALE / 60), 200);
    assert!(sp.is_exhausted());
    for _ in 0..10 {
        assert_eq!(sp.tick(SCALE / 60), 0);
    }
}

#[test]
fn once_delayed_emits_on_second_tick() {
    let mut sp = Spawner::once(3, false);
    assert_eq!(sp.tick(1), 0);
    assert!(!sp.is_exhausted());
    assert_eq!(sp.tick(1), 3);
    assert_eq!(sp.tick(1), 0);
}

#[test]
fn rate_carries_the_fraction() {
    let mut sp = Spawner::rate(10 * SCALE);
    assert_eq!(sp.tick(SCALE / 4), 2);
    assert_eq!(sp.counter, SCALE / 2);
    assert_eq!(sp.tick(SCALE / 4), 3);
    assert_eq!(sp.counter, 0);
    assert_eq!(sp.tick(0), 0);
    assert!(!sp.is_exhausted());
}

#[test]
fn once_spawns_exactly_count_on_first_tick_of_instance() {
    let def = lifetime_def(64, 10, 100 * SCALE);
    assert_eq!(def.check(), Ok(()));
    let mut inst = EffectInstance::new(&def, 9);
    let spawned = inst.advance(&def, 1).unwrap();
    assert_eq!(spawned, (0..10).collect::<Vec<usize>>());
    assert_eq!(inst.alive_count(), 10);
    for _ in 0..5 {
        assert_eq!(inst.advance(&def, 1).unwrap().len(), 0);
        assert_eq!(inst.alive_count(), 10);
    }
}

#[test]
fn spawn_requests_clamp_to_free_slots() {
    let def = lifetime_def(5, 8, 100 * SCALE);
    let mut inst = EffectInstance::new(&def, 1);
    let spawned = inst.advance(&def, 1).unwrap();
    assert_eq!(spawned, vec![0, 1, 2, 3, 4]);
    assert_eq!(inst.alive_count(), 5);
    assert_eq!(inst.advance(&def, 1).unwrap().len(), 0);
    assert_eq!(inst.alive_count(), 5);
}

#[test]
fn rate_spawner_reuses_freed_slots_without_double_allocation() {
    let def = EffectDefinition::new(3, SpawnerPolicy::Rate { per_second: 2 * SCALE }, full_layout())
        .with_init(set(Attribute::Age, 0))
        .with_init(set(Attribute::Lifetime, 2 * SCALE));
    let mut inst = EffectInstance::new(&def, 1);
    let mut seen = 0;
    for _ in 0..20 {
        let before: Vec<bool> = inst.slots.iter().map(|p| p.alive).collect();
        let spawned = inst.advance(&def, SCALE).unwrap();
        let mut sorted = spawned.clone();
        sorted.dedup();
        assert_eq!(sorted.len(), spawned.len());
        for &s in &spawned {
            assert!(s < 3);
            assert!(!before[s]);
        }
        seen += spawned.len();
        assert!(inst.alive_count() <= 3);
    }
    assert!(seen > 3);
    assert_eq!(inst.status, InstanceStatus::Spawning);
}

#[test]
fn age_grows_by_dt_and_retires_on_exact_tick() {
    let def = lifetime_def(4, 1, 3 * SCALE);
    let mut inst = EffectInstance::new(&def, 5);
    assert_eq!(inst.status, InstanceStatus::Created);
    inst.advance(&def, SCALE).unwrap();
    assert_eq!(alive(&inst)[0].age, SCALE);
    assert_eq!(inst.status, InstanceStatus::Draining);
    inst.advance(&def, SCALE).unwrap();
    assert_eq!(alive(&inst)[0].age, 2 * SCALE);
    inst.advance(&def, SCALE - 1).unwrap();
    assert_eq!(alive(&inst)[0].age, 3 * SCALE - 1);
    inst.advance(&def, 1).unwrap();
    assert_eq!(alive(&inst).len(), 0);
    assert_eq!(inst.status, InstanceStatus::Destroyed);
    assert!(inst.is_destroyed());
    let before = inst.slots.clone();
    assert_eq!(inst.advance(&def, SCALE).unwrap().len(), 0);
    assert_eq!(inst.slots, before);
}

#[test]
fn zero_tick_leaves_particles_unchanged() {
    let def = build_explosion_effect();
    let mut inst = EffectInstance::new(&def, 11);
    inst.advance(&def, SCALE / 60).unwrap();
    let before = inst.slots.clone();
    inst.advance(&def, 0).unwrap();
    assert_eq!(inst.slots.len(), before.len());
    for (p, q) in before.iter().zip(inst.slots.iter()) {
        assert_eq!(p.alive, q.alive);
        if p.alive {
            assert_eq!(p.age, q.age);
            assert_eq!(p.lifetime, q.lifetime);
            assert_eq!(p.position, q.position);
            assert_eq!(p.velocity, q.velocity);
            assert_eq!(p.size, q.size);
            assert_eq!(p.color, q.color);
        }
    }
}

#[test]
fn negative_dt_is_refused() {
    let def = lifetime_def(4, 1, SCALE);
    let mut inst = EffectInstance::new(&def, 5);
    assert_eq!(inst.advance(&def, -1), Err(TickError::InvalidTickInput));
    assert_eq!(inst.status, InstanceStatus::Created);
    let mut world = World::new(0);
    assert_eq!(world.advance(-1), Err(TickError::InvalidTickInput));
}

#[test]
fn drag_only_slows_particles_in_the_burst() {
    let def = build_explosion_effect();
    let mut inst = EffectInstance::new(&def, 3);
    inst.advance(&def, SCALE / 100).unwrap();
    let before = inst.slots.clone();
    inst.advance(&def, SCALE / 100).unwrap();
    for (p, q) in before.iter().zip(inst.slots.iter()) {
        if p.alive && q.alive {
            assert!(q.velocity.x.abs() <= p.velocity.x.abs());
            assert!(q.velocity.y.abs() <= p.velocity.y.abs());
            assert_eq!(q.velocity.z, 0);
        }
    }
}

#[test]
fn positions_lie_on_the_circle() {
    let def = EffectDefinition::new(50, SpawnerPolicy::Once { count: 50, immediate: true }, full_layout())
        .with_init(set(Attribute::Lifetime, SCALE))
        .with_init(Modifier::SetPositionCircle {
            center: Expr::lit(Value::Vector3(Vec3::new(0, 0, 5))),
            axis: Axis::Z,
            radius: Expr::scalar(SCALE),
            dimension: ShapeDimension::Surface,
        });
    assert_eq!(def.check(), Ok(()));
    let mut inst = EffectInstance::new(&def, 77);
    inst.advance(&def, 1).unwrap();
    for p in alive(&inst) {
        let r2 = (p.position.x as i128).pow(2) + (p.position.y as i128).pow(2);
        let s2 = (SCALE as i128).pow(2);
        assert!((r2 - s2).abs() <= 4 * SCALE as i128);
        assert_eq!(p.position.z, 5);
    }
}

#[test]
fn explosion_end_to_end() {
    let mut world = World::new(1234);
    let def = build_explosion_effect();
    assert_eq!(def.capacity, BURST_CAPACITY);
    let h = world.register(def).unwrap();
    assert_eq!(world.spawn(InstanceRequest { definition: h }), Some(0));
    assert_eq!(world.advance(1), Ok(0));
    let inst = &world.active[0].instance;
    let aged: Vec<Particle> = alive(inst).into_iter().filter(|p| p.age == 1).collect();
    assert_eq!(aged.len(), BURST_COUNT as usize);
    for p in &aged {
        assert!(0 <= p.lifetime && p.lifetime < 5 * SCALE / 2);
        let r2 = (p.position.x as i128).pow(2) + (p.position.y as i128).pow(2);
        assert!((r2 - (SCALE as i128).pow(2)).abs() <= 4 * SCALE as i128);
        assert_eq!(p.position.z, 0);
        assert_eq!(p.size, SCALE);
    }
    assert_eq!(inst.visible().len(), BURST_COUNT as usize);
    let mut removed = 0;
    for _ in 0..30 {
        removed += world.advance(SCALE / 10).unwrap();
    }
    assert_eq!(removed, 1);
    assert_eq!(world.active_count(), 0);
}

#[test]
fn independent_seeds_give_different_bursts() {
    let def = build_explosion_effect();
    let mut a = EffectInstance::new(&def, 1);
    let mut b = EffectInstance::new(&def, 2);
    a.advance(&def, 1).unwrap();
    b.advance(&def, 1).unwrap();
    assert!(a.alive_count() <= BURST_CAPACITY);
    assert!(b.alive_count() <= BURST_CAPACITY);
    assert_ne!(a.slots, b.slots);
    let mut c = EffectInstance::new(&def, 1);
    c.advance(&def, 1).unwrap();
    assert_eq!(a.slots, c.slots);
}

#[test]
fn color_fades_over_lifetime() {
    let mut g = Gradient::new();
    g.add_key(0, Vec4::new(SCALE, SCALE, SCALE, SCALE));
    g.add_key(SCALE, Vec4::new(SCALE, SCALE, SCALE, 0));
    let def = lifetime_def(2, 1, 4 * SCALE).with_render(Modifier::ColorOverLifetime { gradient: g });
    assert_eq!(def.check(), Ok(()));
    let mut inst = EffectInstance::new(&def, 0);
    inst.advance(&def, SCALE).unwrap();
    assert_eq!(alive(&inst)[0].color, Vec4::new(SCALE, SCALE, SCALE, 3 * SCALE / 4));
    inst.advance(&def, SCALE).unwrap();
    assert_eq!(alive(&inst)[0].color, Vec4::new(SCALE, SCALE, SCALE, SCALE / 2));
}

#[test]
fn definition_errors_are_reported() {
    let def = EffectDefinition::new(4, SpawnerPolicy::Rate { per_second: -1 }, full_layout());
    assert_eq!(def.check(), Err(DefinitionError::NegativeRate));

    let def = EffectDefinition::new(4, SpawnerPolicy::Once { count: 1, immediate: true }, vec![Attribute::Age])
        .with_init(set(Attribute::Age, 0))
        .with_update(Modifier::SetSize { size: Expr::scalar(1) });
    assert_eq!(
        def.check(),
        Err(DefinitionError::UndeclaredAttribute { phase: Phase::Update, index: 0 })
    );

    let def = EffectDefinition::new(4, SpawnerPolicy::Once { count: 1, immediate: true }, full_layout())
        .with_init(set(Attribute::Age, 0))
        .with_init(Modifier::SetAttribute {
            attr: Attribute::Lifetime,
            value: Expr::lit(Value::Vector3(Vec3::zero())),
        });
    assert_eq!(def.check(), Err(DefinitionError::TypeMismatch { phase: Phase::Init, index: 1 }));

    let def = EffectDefinition::new(4, SpawnerPolicy::Once { count: 1, immediate: true }, full_layout())
        .with_render(Modifier::ColorOverLifetime { gradient: Gradient::new() });
    assert_eq!(def.check(), Err(DefinitionError::TypeMismatch { phase: Phase::Render, index: 0 }));

    let mut world = World::new(0);
    let bad = EffectDefinition::new(4, SpawnerPolicy::Rate { per_second: -5 }, full_layout());
    assert_eq!(world.register(bad), Err(DefinitionError::NegativeRate));
    assert_eq!(world.definitions.len(), 0);
}

#[test]
fn particle_attributes_round_trip() {
    let mut p = Particle::empty();
    p.set(Attribute::Velocity, Value::Vector3(Vec3::new(1, 2, 3)));
    assert_eq!(p.get(Attribute::Velocity), Value::Vector3(Vec3::new(1, 2, 3)));
    p.set(Attribute::Age, Value::Vector3(Vec3::new(1, 2, 3)));
    assert_eq!(p.get(Attribute::Age), Value::Scalar(0));
    p.set(Attribute::Color, Value::Vector4(Vec4::new(1, 2, 3, 4)));
    assert_eq!(p.color, Vec4::new(1, 2, 3, 4));
}

#[test]
fn trigger_matches_left_press_only() {
    let t = Trigger::left_press(3);
    let press = ButtonEvent { button: Button::Left, state: ButtonState::Pressed };
    let release = ButtonEvent { button: Button::Left, state: ButtonState::Released };
    let right = ButtonEvent { button: Button::Right, state: ButtonState::Pressed };
    assert_eq!(t.on_trigger_event(&press), Some(InstanceRequest { definition: 3 }));
    assert_eq!(t.on_trigger_event(&release), None);
    assert_eq!(t.on_trigger_event(&right), None);
    assert_eq!(t.requests(&vec![press, release, right, press]).len(), 2);
}

#[test]
fn events_create_instances_in_the_world() {
    let mut world = World::new(10);
    let h = world.register(build_explosion_effect()).unwrap();
    let t = Trigger::left_press(h);
    let press = ButtonEvent { button: Button::Left, state: ButtonState::Pressed };
    let release = ButtonEvent { button: Button::Left, state: ButtonState::Released };
    assert_eq!(world.handle_events(&t, &vec![press, release, press]), 2);
    assert_eq!(world.active_count(), 2);
    assert_eq!(world.active[0].instance.rng.state, 10);
    assert_eq!(world.active[1].instance.rng.state, 11);
    let unknown = Trigger::left_press(h + 1);
    assert_eq!(world.handle_events(&unknown, &vec![press]), 0);
    assert_eq!(world.spawn(InstanceRequest { definition: h + 1 }), None);
    assert_eq!(world.active_count(), 2);
}

#[test]
fn stop_request_destroys_at_next_tick() {
    let def = lifetime_def(8, 4, 100 * SCALE);
    let mut inst = EffectInstance::new(&def, 2);
    inst.advance(&def, 1).unwrap();
    assert_eq!(inst.alive_count(), 4);
    inst.request_stop();
    assert_eq!(inst.alive_count(), 4);
    assert_eq!(inst.advance(&def, 1).unwrap().len(), 0);
    assert_eq!(inst.alive_count(), 0);
    assert_eq!(inst.status, InstanceStatus::Destroyed);

    let mut world = World::new(0);
    let h = world.register(lifetime_def(8, 4, 100 * SCALE)).unwrap();
    world.spawn(InstanceRequest { definition: h });
    world.spawn(InstanceRequest { definition: h });
    assert_eq!(world.advance(1), Ok(0));
    assert!(world.stop(0));
    assert!(!world.stop(2));
    assert_eq!(world.advance(1), Ok(1));
    assert_eq!(world.active_count(), 1);
}

#[test]
fn zero_capacity_instance_spawns_nothing_and_ends() {
    let def = lifetime_def(0, 5, SCALE);
    let mut inst = EffectInstance::new(&def, 4);
    assert_eq!(inst.advance(&def, 1).unwrap().len(), 0);
    assert_eq!(inst.alive_count(), 0);
    assert_eq!(inst.status, InstanceStatus::Destroyed);
}

#[test]
fn rate_spawner_at_zero_dt_spawns_nothing() {
    let def = EffectDefinition::new(8, SpawnerPolicy::Rate { per_second: 100 * SCALE }, full_layout())
        .with_init(set(Attribute::Lifetime, SCALE));
    let mut inst = EffectInstance::new(&def, 4);
    assert_eq!(inst.advance(&def, 0).unwrap().len(), 0);
    assert_eq!(inst.status, InstanceStatus::Spawning);
    assert_eq!(inst.advance(&def, SCALE / 50).unwrap().len(), 2);
}

#[test]
fn events_bind_new_instances_to_the_trigger_definition() {
    let mut world = World::new(3);
    let h = world.register(build_explosion_effect()).unwrap();
    let press = ButtonEvent { button: Button::Left, state: ButtonState::Pressed };
    world.handle_events(&Trigger::left_press(h), &vec![press]);
    let events = vec![
        press,
        ButtonEvent { button: Button::Left, state: ButtonState::Released },
        ButtonEvent { button: Button::Right, state: ButtonState::Pressed },
        press,
    ];
    assert_eq!(world.handle_events(&Trigger::left_press(h), &events), 2);
    assert_eq!(world.active_count(), 3);
    assert_eq!(world.active[0].instance.rng.state, 3);
    for a in &world.active[1..] {
        assert_eq!(a.definition, h);
        assert_eq!(a.instance.status, InstanceStatus::Created);
        assert!(!a.instance.stop_requested);
    }
}

#[test]
fn repeated_zero_ticks_change_nothing() {
    let def = build_explosion_effect();
    let mut inst = EffectInstance::new(&def, 21);
    inst.advance(&def, SCALE / 30).unwrap();
    let alive_before = inst.alive_count();
    let before = inst.slots.clone();
    inst.advance(&def, 0).unwrap();
    assert_eq!(inst.slots, before);
    inst.advance(&def, 0).unwrap();
    assert_eq!(inst.slots, before);
    assert_eq!(inst.alive_count(), alive_before);
}
