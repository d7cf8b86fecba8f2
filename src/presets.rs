//! A ready-made effect: a radial burst of particles that fade out.
use vstd::prelude::*;
use crate::effect::{all_valid, EffectDefinition};
use crate::instance::{clock_untouched, only_time_driven, zero_tick_stable};
use crate::expr::{type_of, BinOp, Expr, Value};
use crate::fixed::{Vec3, Vec4, SCALE};
use crate::gradient::{insert_pos, is_insert_pos, Gradient, GradientKey};
use crate::modifier::{modifier_valid, Attribute, Axis, Modifier, ShapeDimension};
use crate::spawner::SpawnerPolicy;

verus! {

/// Particles in the burst.
pub const BURST_COUNT: u32 = 200;

/// Slots in the burst's pool.
pub const BURST_CAPACITY: usize = 4096;

/// Upper bound of a burst particle's lifetime (2.5).
pub const MAX_LIFETIME: i64 = 2_500_000;

/// Upper bound of a burst particle's speed (100).
pub const MAX_SPEED: i64 = 100_000_000;

/// Every attribute, in declaration order.
pub fn full_layout() -> (r: Vec<Attribute>)
    ensures
        forall|a: Attribute| r@.contains(a),
        r@ == full_layout_spec(),
{
    let r = vec![
        Attribute::Age,
        Attribute::Lifetime,
        Attribute::Position,
        Attribute::Velocity,
        Attribute::Size,
        Attribute::Color,
    ];
    proof {
        assert forall|a: Attribute| r@.contains(a) by {
            match a {
                Attribute::Age => assert(r@[0] == a),
                Attribute::Lifetime => assert(r@[1] == a),
                Attribute::Position => assert(r@[2] == a),
                Attribute::Velocity => assert(r@[3] == a),
                Attribute::Size => assert(r@[4] == a),
                Attribute::Color => assert(r@[5] == a),
            }
        }
    }
    assert(r@ =~= full_layout_spec());
    r
}

/// The literal scalar `x`.
pub open spec fn scalar_lit(x: i64) -> Expr {
    Expr::Lit(Value::Scalar(x))
}

/// `rand * x`.
pub open spec fn rand_times(x: i64) -> Expr {
    Expr::Binary(BinOp::Mul, Box::new(Expr::Rand), Box::new(scalar_lit(x)))
}

/// The origin as a literal.
pub open spec fn origin_lit() -> Expr {
    Expr::Lit(Value::Vector3(Vec3 { x: 0, y: 0, z: 0 }))
}

/// Every attribute, in declaration order.
pub open spec fn full_layout_spec() -> Seq<Attribute> {
    seq![
        Attribute::Age,
        Attribute::Lifetime,
        Attribute::Position,
        Attribute::Velocity,
        Attribute::Size,
        Attribute::Color,
    ]
}

/// The burst's Init phase: a point on the unit circle around the origin in
/// the XY plane, age 0, lifetime `rand * 2.5`, a radial velocity of speed
/// `rand * 100`.
pub open spec fn burst_init() -> Seq<Modifier> {
    seq![
        Modifier::SetPositionCircle {
            center: origin_lit(),
            axis: Axis::Z,
            radius: scalar_lit(SCALE),
            dimension: ShapeDimension::Surface,
        },
        Modifier::SetAttribute { attr: Attribute::Age, value: scalar_lit(0) },
        Modifier::SetAttribute { attr: Attribute::Lifetime, value: rand_times(MAX_LIFETIME) },
        Modifier::SetVelocityCircle { center: origin_lit(), axis: Axis::Z, speed: rand_times(MAX_SPEED) },
    ]
}

/// The burst's Update phase: linear drag with a random coefficient.
pub open spec fn burst_update() -> Seq<Modifier> {
    seq![Modifier::LinearDrag { drag: Expr::Rand }]
}

/// The burst's fade: opaque white at the start, clear white at the end.
pub open spec fn burst_fade() -> Seq<GradientKey> {
    seq![
        GradientKey { time: 0, color: Vec4 { x: SCALE, y: SCALE, z: SCALE, w: SCALE } },
        GradientKey { time: SCALE, color: Vec4 { x: SCALE, y: SCALE, z: SCALE, w: 0 } },
    ]
}

/// A burst of 200 particles from the unit circle around the origin in the
/// XY plane: age 0, lifetime uniform in `[0, 2.5)`, radial speed uniform in
/// `[0, 100)`, a random linear drag, unit size, and a white color that fades
/// from opaque to transparent over each particle's life.
pub fn build_explosion_effect() -> (r: EffectDefinition)
    ensures
        r.valid(),
        r.capacity == BURST_CAPACITY,
        r.spawner == (SpawnerPolicy::Once { count: BURST_COUNT, immediate: true }),
        r.layout@ == full_layout_spec(),
        r.init@ == burst_init(),
        r.update@ == burst_update(),
        r.render@.len() == 2,
        r.render@[0] == (Modifier::SetSize { size: scalar_lit(SCALE) }),
        r.render@[1] matches Modifier::ColorOverLifetime { gradient } && gradient.keys@ == burst_fade(),
        clock_untouched(&r),
        only_time_driven(&r),
        zero_tick_stable(&r),
{
    let origin = Value::Vector3(Vec3::zero());
    let position = Modifier::SetPositionCircle {
        center: Expr::lit(origin),
        axis: Axis::Z,
        radius: Expr::scalar(SCALE),
        dimension: ShapeDimension::Surface,
    };
    let age = Modifier::SetAttribute { attr: Attribute::Age, value: Expr::scalar(0) };
    let lifetime = Modifier::SetAttribute {
        attr: Attribute::Lifetime,
        value: Expr::binary(BinOp::Mul, Expr::rand(), Expr::scalar(MAX_LIFETIME)),
    };
    let velocity = Modifier::SetVelocityCircle {
        center: Expr::lit(origin),
        axis: Axis::Z,
        speed: Expr::binary(BinOp::Mul, Expr::rand(), Expr::scalar(MAX_SPEED)),
    };
    let drag = Modifier::LinearDrag { drag: Expr::rand() };
    let size = Modifier::SetSize { size: Expr::scalar(SCALE) };
    let mut gradient = Gradient::new();
    let opaque = Vec4::new(SCALE, SCALE, SCALE, SCALE);
    let clear = Vec4::new(SCALE, SCALE, SCALE, 0);
    gradient.add_key(0, opaque);
    proof {
        let e = Seq::<GradientKey>::empty();
        assert(is_insert_pos(e, 0, 0));
        assert(gradient.keys@ =~= seq![GradientKey { time: 0, color: opaque }]);
    }
    gradient.add_key(SCALE, clear);
    proof {
        let one = seq![GradientKey { time: 0, color: opaque }];
        assert(is_insert_pos(one, SCALE as int, 1));
        let p = insert_pos(one, SCALE as int);
        assert(is_insert_pos(one, SCALE as int, p));
        if p == 0 {
            assert(one[0].time >= SCALE);
        }
        assert(gradient.keys@ =~= seq![
            GradientKey { time: 0, color: opaque },
            GradientKey { time: SCALE, color: clear },
        ]);
        assert(gradient.keys@ =~= burst_fade());
    }
    let color = Modifier::ColorOverLifetime { gradient };
    let layout = full_layout();
    let ghost lay = layout@;
    let def = EffectDefinition::new(
        BURST_CAPACITY,
        SpawnerPolicy::Once { count: BURST_COUNT, immediate: true },
        layout,
    );
    let def = def.with_init(position).with_init(age).with_init(lifetime).with_init(velocity);
    let def = def.with_update(drag);
    let def = def.with_render(size).with_render(color);
    proof {
        reveal_with_fuel(type_of, 3);
        assert(modifier_valid(def.init@[0], lay));
        assert(modifier_valid(def.init@[1], lay));
        assert(modifier_valid(def.init@[2], lay));
        assert(modifier_valid(def.init@[3], lay));
        assert(modifier_valid(def.update@[0], lay));
        assert(modifier_valid(def.render@[0], lay));
        assert(modifier_valid(def.render@[1], lay));
        assert(all_valid(def.init@, lay));
        assert(all_valid(def.update@, lay));
        assert(all_valid(def.render@, lay));
    }
    def
}

} // verus!
