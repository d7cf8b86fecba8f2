//! Particles, their attributes, and the built-in modifiers that read and
//! write them.
use vstd::prelude::*;
use crate::expr::{eval_spec, type_of, Expr, Value, ValueType};
use crate::fixed::{add_spec, clamp_i64, clamp_wide, fx_add, fx_mul, fx_sub, mul_spec, quot, sub_spec, Vec3, Vec4, SCALE};
use crate::gradient::{keys_wf, lemma_quot_bounded, sample_spec, Gradient};
use crate::rng::{next_state, unit_of, Rng};

verus! {

/// A per-particle attribute.
#[derive(Clone, Copy, Debug, PartialEq, Eq, Structural)]
pub enum Attribute {
    Age,
    Lifetime,
    Position,
    Velocity,
    Size,
    Color,
}

pub open spec fn attr_type(a: Attribute) -> ValueType {
    match a {
        Attribute::Age | Attribute::Lifetime | Attribute::Size => ValueType::Scalar,
        Attribute::Position | Attribute::Velocity => ValueType::Vector3,
        Attribute::Color => ValueType::Vector4,
    }
}

/// One row of an instance's attribute store.
#[derive(Clone, Copy, Debug, PartialEq, Eq, Structural)]
pub struct Particle {
    pub alive: bool,
    pub age: i64,
    pub lifetime: i64,
    pub position: Vec3,
    pub velocity: Vec3,
    pub size: i64,
    pub color: Vec4,
}

impl Particle {
    /// A free slot: every attribute zero.
    pub fn empty() -> (r: Particle)
        ensures
            r == empty_particle(),
    {
        Particle {
            alive: false,
            age: 0,
            lifetime: 0,
            position: Vec3 { x: 0, y: 0, z: 0 },
            velocity: Vec3 { x: 0, y: 0, z: 0 },
            size: 0,
            color: Vec4 { x: 0, y: 0, z: 0, w: 0 },
        }
    }

    /// The current value of attribute `a`.
    pub fn get(&self, a: Attribute) -> (r: Value)
        ensures
            r == attr_value(*self, a),
    {
        match a {
            Attribute::Age => Value::Scalar(self.age),
            Attribute::Lifetime => Value::Scalar(self.lifetime),
            Attribute::Position => Value::Vector3(self.position),
            Attribute::Velocity => Value::Vector3(self.velocity),
            Attribute::Size => Value::Scalar(self.size),
            Attribute::Color => Value::Vector4(self.color),
        }
    }

    /// Writes attribute `a`; a value of another shape leaves the particle as
    /// it was.
    pub fn set(&mut self, a: Attribute, v: Value)
        ensures
            *final(self) == set_attr_spec(*old(self), a, v),
    {
        match (a, v) {
            (Attribute::Age, Value::Scalar(x)) => self.age = x,
            (Attribute::Lifetime, Value::Scalar(x)) => self.lifetime = x,
            (Attribute::Size, Value::Scalar(x)) => self.size = x,
            (Attribute::Position, Value::Vector3(x)) => self.position = x,
            (Attribute::Velocity, Value::Vector3(x)) => self.velocity = x,
            (Attribute::Color, Value::Vector4(x)) => self.color = x,
            _ => {},
        }
    }
}

pub open spec fn empty_particle() -> Particle {
    Particle {
        alive: false,
        age: 0,
        lifetime: 0,
        position: Vec3 { x: 0, y: 0, z: 0 },
        velocity: Vec3 { x: 0, y: 0, z: 0 },
        size: 0,
        color: Vec4 { x: 0, y: 0, z: 0, w: 0 },
    }
}

pub open spec fn attr_value(p: Particle, a: Attribute) -> Value {
    match a {
        Attribute::Age => Value::Scalar(p.age),
        Attribute::Lifetime => Value::Scalar(p.lifetime),
        Attribute::Position => Value::Vector3(p.position),
        Attribute::Velocity => Value::Vector3(p.velocity),
        Attribute::Size => Value::Scalar(p.size),
        Attribute::Color => Value::Vector4(p.color),
    }
}

pub open spec fn set_attr_spec(p: Particle, a: Attribute, v: Value) -> Particle {
    match (a, v) {
        (Attribute::Age, Value::Scalar(x)) => Particle { age: x, ..p },
        (Attribute::Lifetime, Value::Scalar(x)) => Particle { lifetime: x, ..p },
        (Attribute::Size, Value::Scalar(x)) => Particle { size: x, ..p },
        (Attribute::Position, Value::Vector3(x)) => Particle { position: x, ..p },
        (Attribute::Velocity, Value::Vector3(x)) => Particle { velocity: x, ..p },
        (Attribute::Color, Value::Vector4(x)) => Particle { color: x, ..p },
        _ => p,
    }
}

/// The axis orthogonal to a circle's plane.
#[derive(Clone, Copy, Debug, PartialEq, Eq, Structural)]
pub enum Axis {
    X,
    Y,
    Z,
}

/// Whether a circle is sampled on its boundary or over its disc.
#[derive(Clone, Copy, Debug, PartialEq, Eq, Structural)]
pub enum ShapeDimension {
    Surface,
    Volume,
}

/// A unit of per-particle computation.
#[derive(Debug)]
pub enum Modifier {
    /// `attribute = value`.
    SetAttribute { attr: Attribute, value: Expr },
    /// Position on (or within) a circle around `center` in the plane
    /// orthogonal to `axis`.
    SetPositionCircle { center: Expr, axis: Axis, radius: Expr, dimension: ShapeDimension },
    /// Velocity of magnitude `speed` along a direction drawn on the unit
    /// circle orthogonal to `axis`; `center` is evaluated (in draw order)
    /// but the direction is drawn independently of the position.
    SetVelocityCircle { center: Expr, axis: Axis, speed: Expr },
    /// `velocity *= max(0, 1 - drag * dt)`.
    LinearDrag { drag: Expr },
    /// `color = gradient(age / lifetime)`, the ratio clamped to `[0, 1]`.
    ColorOverLifetime { gradient: Gradient },
    /// `size = value`.
    SetSize { size: Expr },
}

pub open spec fn as_scalar(v: Value) -> i64 {
    match v {
        Value::Scalar(x) => x,
        _ => 0,
    }
}

pub open spec fn as_vec3(v: Value) -> Vec3 {
    match v {
        Value::Vector3(x) => x,
        _ => Vec3 { x: 0, y: 0, z: 0 },
    }
}

/// The point of the unit circle drawn from `u` in `[0, SCALE)`, on the
/// half chosen by `side`: a rational parametrisation of the circle,
/// `((1 - t^2) / (1 + t^2), 2t / (1 + t^2))` with `t = 2u - 1`.
#[verifier::opaque]
pub open spec fn unit_circle(u: int, side: int) -> (int, int) {
    let s = SCALE as int;
    let t = 2 * u - s;
    let den = s * s + t * t;
    let a = clamp_i64(quot(s * (s * s - t * t), den));
    let b = clamp_i64(quot(s * (2 * s * t), den));
    if side >= s / 2 {
        (-a, b)
    } else {
        (a, b)
    }
}

/// Places the planar coordinates `(a, b)` in the plane orthogonal to `axis`.
pub open spec fn planar(axis: Axis, a: int, b: int) -> Vec3 {
    match axis {
        Axis::Z => Vec3 { x: a as i64, y: b as i64, z: 0 },
        Axis::X => Vec3 { x: 0, y: a as i64, z: b as i64 },
        Axis::Y => Vec3 { x: b as i64, y: 0, z: a as i64 },
    }
}

pub open spec fn add3(u: Vec3, v: Vec3) -> Vec3 {
    Vec3 {
        x: add_spec(u.x as int, v.x as int) as i64,
        y: add_spec(u.y as int, v.y as int) as i64,
        z: add_spec(u.z as int, v.z as int) as i64,
    }
}

pub open spec fn scale3(v: Vec3, f: int) -> Vec3 {
    Vec3 {
        x: mul_spec(v.x as int, f) as i64,
        y: mul_spec(v.y as int, f) as i64,
        z: mul_spec(v.z as int, f) as i64,
    }
}

/// A point drawn on the circle of radius `r` in the plane orthogonal to
/// `axis`, from stream state `s`; two draws.
pub open spec fn circle_point(axis: Axis, r: int, s: u64) -> (Vec3, u64) {
    let s1 = next_state(s);
    let (a, b) = unit_circle(unit_of(s) as int, unit_of(s1) as int);
    (planar(axis, mul_spec(a, r), mul_spec(b, r)), next_state(s1))
}

/// The drag factor `max(0, 1 - c * dt)`.
pub open spec fn drag_factor(c: int, dt: int) -> int {
    let f = sub_spec(SCALE as int, mul_spec(c, dt));
    if f < 0 {
        0
    } else {
        f
    }
}

/// The ratio `age / lifetime` clamped to `[0, SCALE]`; a lifetime that is not
/// positive counts as already over.
pub open spec fn life_ratio(age: int, lifetime: int) -> int {
    if lifetime <= 0 || age >= lifetime {
        SCALE as int
    } else if age <= 0 {
        0
    } else {
        (age * SCALE) / lifetime
    }
}

/// The effect of one modifier on particle `p` from stream state `s`, with
/// `dt` elapsed in this tick.
pub open spec fn apply_spec(m: Modifier, p: Particle, s: u64, dt: int) -> (Particle, u64) {
    match m {
        Modifier::SetAttribute { attr, value } => {
            let (v, s1) = eval_spec(value, s);
            (set_attr_spec(p, attr, v), s1)
        },
        Modifier::SetPositionCircle { center, axis, radius, dimension } => {
            let (c, s1) = eval_spec(center, s);
            let (r, s2) = eval_spec(radius, s1);
            let (q, s3) = circle_point(axis, as_scalar(r) as int, s2);
            match dimension {
                ShapeDimension::Surface => (Particle { position: add3(as_vec3(c), q), ..p }, s3),
                ShapeDimension::Volume => (
                    Particle {
                        position: add3(as_vec3(c), scale3(q, unit_of(s3) as int)),
                        ..p
                    },
                    next_state(s3),
                ),
            }
        },
        Modifier::SetVelocityCircle { center, axis, speed } => {
            let (_c, s1) = eval_spec(center, s);
            let (v, s2) = eval_spec(speed, s1);
            let (q, s3) = circle_point(axis, as_scalar(v) as int, s2);
            (Particle { velocity: q, ..p }, s3)
        },
        Modifier::LinearDrag { drag } => {
            let (c, s1) = eval_spec(drag, s);
            (
                Particle { velocity: scale3(p.velocity, drag_factor(as_scalar(c) as int, dt)), ..p },
                s1,
            )
        },
        Modifier::ColorOverLifetime { gradient } => (
            Particle {
                color: sample_spec(gradient.keys@, life_ratio(p.age as int, p.lifetime as int)),
                ..p
            },
            s,
        ),
        Modifier::SetSize { size } => {
            let (v, s1) = eval_spec(size, s);
            (Particle { size: as_scalar(v), ..p }, s1)
        },
    }
}

/// The modifiers `ms` applied in sequence order.
pub open spec fn apply_all_spec(ms: Seq<Modifier>, p: Particle, s: u64, dt: int) -> (Particle, u64)
    decreases ms.len(),
{
    if ms.len() == 0 {
        (p, s)
    } else {
        let (q, s1) = apply_all_spec(ms.drop_last(), p, s, dt);
        apply_spec(ms.last(), q, s1, dt)
    }
}

/// Whether modifier `m` writes attribute `a`.
pub open spec fn writes(m: Modifier, a: Attribute) -> bool {
    match m {
        Modifier::SetAttribute { attr, .. } => attr == a,
        Modifier::SetPositionCircle { .. } => a == Attribute::Position,
        Modifier::SetVelocityCircle { .. } | Modifier::LinearDrag { .. } => a == Attribute::Velocity,
        Modifier::ColorOverLifetime { .. } => a == Attribute::Color,
        Modifier::SetSize { .. } => a == Attribute::Size,
    }
}

/// Whether modifier `m` reads attribute `a` (its own inputs, not the
/// attributes it writes).
pub open spec fn reads(m: Modifier, a: Attribute) -> bool {
    match m {
        Modifier::ColorOverLifetime { .. } => a == Attribute::Age || a == Attribute::Lifetime,
        Modifier::LinearDrag { .. } => a == Attribute::Velocity,
        _ => false,
    }
}

/// Whether every attribute that `m` reads or writes is in `layout`.
pub open spec fn modifier_declared(m: Modifier, layout: Seq<Attribute>) -> bool {
    forall|a: Attribute| (writes(m, a) || reads(m, a)) ==> layout.contains(a)
}

/// Whether the expressions of `m` have the shapes it needs, and its
/// gradient (if any) is well formed and not empty.
pub open spec fn modifier_typed(m: Modifier) -> bool {
    match m {
        Modifier::SetAttribute { attr, value } => type_of(value) == Some(attr_type(attr)),
        Modifier::SetPositionCircle { center, radius, .. } => type_of(center) == Some(
            ValueType::Vector3,
        ) && type_of(radius) == Some(ValueType::Scalar),
        Modifier::SetVelocityCircle { center, speed, .. } => type_of(center) == Some(
            ValueType::Vector3,
        ) && type_of(speed) == Some(ValueType::Scalar),
        Modifier::LinearDrag { drag } => type_of(drag) == Some(ValueType::Scalar),
        Modifier::ColorOverLifetime { gradient } => keys_wf(gradient.keys@) && gradient.keys@.len()
            > 0,
        Modifier::SetSize { size } => type_of(size) == Some(ValueType::Scalar),
    }
}

/// Whether modifier `m` is well formed and only touches attributes of
/// `layout`.
pub open spec fn modifier_valid(m: Modifier, layout: Seq<Attribute>) -> bool {
    modifier_declared(m, layout) && modifier_typed(m)
}

fn quot_wide(a: i128, b: i128) -> (r: i128)
    requires
        b > 0,
        a > i128::MIN,
    ensures
        r == quot(a as int, b as int),
{
    if a >= 0 {
        a / b
    } else {
        let n: i128 = -a;
        let d: i128 = n / b;
        -d
    }
}

fn unit_circle_exec(u: i64, side: i64) -> (r: (i64, i64))
    requires
        0 <= u < SCALE,
    ensures
        r.0 == unit_circle(u as int, side as int).0,
        r.1 == unit_circle(u as int, side as int).1,
{
    reveal(unit_circle);
    let s: i128 = SCALE as i128;
    let t: i128 = 2 * (u as i128) - s;
    assert(0 <= t * t <= s * s) by (nonlinear_arith)
        requires
            -s <= t <= s,
            s == SCALE,
    ;
    assert(s * s == 1_000_000_000_000int) by (nonlinear_arith)
        requires
            s == SCALE,
    ;
    let den: i128 = s * s + t * t;
    assert(-2_000_000_000_000_000_000int <= s * (s * s - t * t) <= 2_000_000_000_000_000_000int)
        by (nonlinear_arith)
        requires
            s == SCALE,
            0 <= s * s - t * t <= 1_000_000_000_000int,
    ;
    assert(-2_000_000_000_000_000_000int <= s * (2 * s * t) <= 2_000_000_000_000_000_000int)
        by (nonlinear_arith)
        requires
            s == SCALE,
            -s <= t <= s,
    ;
    let a = clamp_wide(quot_wide(s * (s * s - t * t), den));
    let b = clamp_wide(quot_wide(s * (2 * s * t), den));
    if side >= SCALE / 2 {
        (fx_neg(a), b)
    } else {
        (a, b)
    }
}

fn fx_neg(a: i64) -> (r: i64)
    requires
        a > i64::MIN,
    ensures
        r == -a,
{
    -a
}

fn planar_exec(axis: Axis, a: i64, b: i64) -> (r: Vec3)
    ensures
        r == planar(axis, a as int, b as int),
{
    match axis {
        Axis::Z => Vec3 { x: a, y: b, z: 0 },
        Axis::X => Vec3 { x: 0, y: a, z: b },
        Axis::Y => Vec3 { x: b, y: 0, z: a },
    }
}

fn add3_exec(u: Vec3, v: Vec3) -> (r: Vec3)
    ensures
        r == add3(u, v),
{
    Vec3 { x: fx_add(u.x, v.x), y: fx_add(u.y, v.y), z: fx_add(u.z, v.z) }
}

fn scale3_exec(v: Vec3, f: i64) -> (r: Vec3)
    ensures
        r == scale3(v, f as int),
{
    Vec3 { x: fx_mul(v.x, f), y: fx_mul(v.y, f), z: fx_mul(v.z, f) }
}

fn circle_point_exec(axis: Axis, r: i64, rng: &mut Rng) -> (q: Vec3)
    ensures
        (q, final(rng).state) == circle_point(axis, r as int, old(rng).state),
{
    let u = rng.next_unit();
    let side = rng.next_unit();
    let (a, b) = unit_circle_exec(u, side);
    planar_exec(axis, fx_mul(a, r), fx_mul(b, r))
}

fn scalar_of(v: Value) -> (r: i64)
    ensures
        r == as_scalar(v),
{
    match v {
        Value::Scalar(x) => x,
        _ => 0,
    }
}

fn vec3_of(v: Value) -> (r: Vec3)
    ensures
        r == as_vec3(v),
{
    match v {
        Value::Vector3(x) => x,
        _ => Vec3 { x: 0, y: 0, z: 0 },
    }
}

/// The drag factor `max(0, 1 - c * dt)`.
pub fn drag_factor_exec(c: i64, dt: i64) -> (r: i64)
    ensures
        r == drag_factor(c as int, dt as int),
{
    let f = fx_sub(SCALE, fx_mul(c, dt));
    if f < 0 {
        0
    } else {
        f
    }
}

/// Applies linear drag with coefficient `c` over `dt` to a velocity.
pub fn apply_drag(v: Vec3, c: i64, dt: i64) -> (r: Vec3)
    ensures
        r == scale3(v, drag_factor(c as int, dt as int)),
{
    scale3_exec(v, drag_factor_exec(c, dt))
}

/// `age / lifetime` clamped to `[0, SCALE]`.
pub fn life_ratio_exec(age: i64, lifetime: i64) -> (r: i64)
    ensures
        r == life_ratio(age as int, lifetime as int),
        0 <= r <= SCALE,
{
    if lifetime <= 0 || age >= lifetime {
        SCALE
    } else if age <= 0 {
        0
    } else {
        assert(0 < age * SCALE < 0x1_0000_0000_0000_0000_0000_0000int) by (nonlinear_arith)
            requires
                0 < age < 0x8000_0000_0000_0000int,
                SCALE == 1_000_000,
        ;
        let n: i128 = age as i128 * SCALE as i128;
        let q: i128 = n / (lifetime as i128);
        assert((age * SCALE) / (lifetime as int) <= SCALE) by {
            assert(age * SCALE <= lifetime * SCALE) by (nonlinear_arith)
                requires
                    0 < age < lifetime,
            ;
            vstd::arithmetic::div_mod::lemma_div_is_ordered(age * SCALE, lifetime * SCALE, lifetime as int);
            vstd::arithmetic::div_mod::lemma_div_multiples_vanish(SCALE as int, lifetime as int);
            assert(lifetime * SCALE == SCALE * lifetime) by (nonlinear_arith);
        }
        proof {
            vstd::arithmetic::div_mod::lemma_div_pos_is_pos(age * SCALE, lifetime as int);
        }
        q as i64
    }
}

impl Modifier {
    /// Applies the modifier to `p`, drawing from `rng`, with `dt` elapsed.
    pub fn apply(&self, p: &mut Particle, rng: &mut Rng, dt: i64)
        requires
            match *self {
                Modifier::ColorOverLifetime { gradient } => gradient.wf(),
                _ => true,
            },
        ensures
            (*final(p), final(rng).state) == apply_spec(*self, *old(p), old(rng).state, dt as int),
    {
        match self {
            Modifier::SetAttribute { attr, value } => {
                let v = value.evaluate(rng);
                p.set(*attr, v);
            },
            Modifier::SetPositionCircle { center, axis, radius, dimension } => {
                let c = vec3_of(center.evaluate(rng));
                let r = scalar_of(radius.evaluate(rng));
                let q = circle_point_exec(*axis, r, rng);
                match dimension {
                    ShapeDimension::Surface => {
                        p.position = add3_exec(c, q);
                    },
                    ShapeDimension::Volume => {
                        let f = rng.next_unit();
                        p.position = add3_exec(c, scale3_exec(q, f));
                    },
                }
            },
            Modifier::SetVelocityCircle { center, axis, speed } => {
                let _c = center.evaluate(rng);
                let v = scalar_of(speed.evaluate(rng));
                p.velocity = circle_point_exec(*axis, v, rng);
            },
            Modifier::LinearDrag { drag } => {
                let c = scalar_of(drag.evaluate(rng));
                p.velocity = apply_drag(p.velocity, c, dt);
            },
            Modifier::ColorOverLifetime { gradient } => {
                p.color = gradient.sample(life_ratio_exec(p.age, p.lifetime));
            },
            Modifier::SetSize { size } => {
                p.size = scalar_of(size.evaluate(rng));
            },
        }
    }

    /// Whether this modifier writes or reads attribute `a`.
    pub fn touches(&self, a: Attribute) -> (r: bool)
        ensures
            r == (writes(*self, a) || reads(*self, a)),
    {
        match self {
            Modifier::SetAttribute { attr, .. } => *attr == a,
            Modifier::SetPositionCircle { .. } => a == Attribute::Position,
            Modifier::SetVelocityCircle { .. } => a == Attribute::Velocity,
            Modifier::LinearDrag { .. } => a == Attribute::Velocity,
            Modifier::ColorOverLifetime { .. } => a == Attribute::Color || a == Attribute::Age || a
                == Attribute::Lifetime,
            Modifier::SetSize { .. } => a == Attribute::Size,
        }
    }
}

/// Applies `ms` to `p` in sequence order.
pub fn apply_all(ms: &Vec<Modifier>, p: &mut Particle, rng: &mut Rng, dt: i64)
    requires
        forall|i: int| 0 <= i < ms@.len() ==> modifier_wf(#[trigger] ms@[i]),
    ensures
        (*final(p), final(rng).state) == apply_all_spec(ms@, *old(p), old(rng).state, dt as int),
{
    let mut i: usize = 0;
    while i < ms.len()
        invariant
            i <= ms@.len(),
            forall|j: int| 0 <= j < ms@.len() ==> modifier_wf(#[trigger] ms@[j]),
            (*p, rng.state) == apply_all_spec(ms@.take(i as int), *old(p), old(rng).state, dt as int),
        decreases ms@.len() - i,
    {
        assert(ms@.take(i + 1).drop_last() =~= ms@.take(i as int));
        ms[i].apply(p, rng, dt);
        i = i + 1;
    }
    assert(ms@.take(i as int) =~= ms@);
}

/// The shape requirement that `apply` needs of a modifier.
pub open spec fn modifier_wf(m: Modifier) -> bool {
    match m {
        Modifier::ColorOverLifetime { gradient } => gradient.wf(),
        _ => true,
    }
}

/// Whether every attribute that `m` touches is declared in `layout`.
pub fn check_declared(m: &Modifier, layout: &Vec<Attribute>) -> (r: bool)
    ensures
        r == modifier_declared(*m, layout@),
{
    let all = [
        Attribute::Age,
        Attribute::Lifetime,
        Attribute::Position,
        Attribute::Velocity,
        Attribute::Size,
        Attribute::Color,
    ];
    let mut k: usize = 0;
    while k < 6
        invariant
            k <= 6,
            all@ == seq![Attribute::Age, Attribute::Lifetime, Attribute::Position, Attribute::Velocity, Attribute::Size, Attribute::Color],
            forall|j: int| 0 <= j < k ==> (writes(*m, #[trigger] all@[j]) || reads(*m, all@[j]))
                ==> layout@.contains(all@[j]),
        decreases 6 - k,
    {
        if m.touches(all[k]) && !declared(layout, all[k]) {
            proof {
                assert(!modifier_declared(*m, layout@));
            }
            return false;
        }
        k = k + 1;
    }
    proof {
        assert forall|a: Attribute| (writes(*m, a) || reads(*m, a)) implies layout@.contains(a) by {
            match a {
                Attribute::Age => assert(all@[0] == a),
                Attribute::Lifetime => assert(all@[1] == a),
                Attribute::Position => assert(all@[2] == a),
                Attribute::Velocity => assert(all@[3] == a),
                Attribute::Size => assert(all@[4] == a),
                Attribute::Color => assert(all@[5] == a),
            }
        }
    }
    true
}

/// Whether the expressions of `m` have the shapes it needs.
pub fn check_typed(m: &Modifier) -> (r: bool)
    ensures
        r == modifier_typed(*m),
{
    match m {
        Modifier::SetAttribute { attr, value } => {
            match value.type_check() {
                Some(t) => t == attr_type_exec(*attr),
                None => false,
            }
        },
        Modifier::SetPositionCircle { center, radius, .. } => {
            center.type_check() == Some(ValueType::Vector3) && radius.type_check() == Some(ValueType::Scalar)
        },
        Modifier::SetVelocityCircle { center, speed, .. } => {
            center.type_check() == Some(ValueType::Vector3) && speed.type_check() == Some(ValueType::Scalar)
        },
        Modifier::LinearDrag { drag } => drag.type_check() == Some(ValueType::Scalar),
        Modifier::ColorOverLifetime { gradient } => gradient.is_valid() && gradient.keys.len() > 0,
        Modifier::SetSize { size } => size.type_check() == Some(ValueType::Scalar),
    }
}

/// Whether `a` is in `layout`.
pub fn declared(layout: &Vec<Attribute>, a: Attribute) -> (r: bool)
    ensures
        r == layout@.contains(a),
{
    let mut i: usize = 0;
    while i < layout.len()
        invariant
            i <= layout@.len(),
            forall|j: int| 0 <= j < i ==> layout@[j] != a,
        decreases layout@.len() - i,
    {
        if layout[i] == a {
            return true;
        }
        i = i + 1;
    }
    false
}

pub fn attr_type_exec(a: Attribute) -> (r: ValueType)
    ensures
        r == attr_type(a),
{
    match a {
        Attribute::Age | Attribute::Lifetime | Attribute::Size => ValueType::Scalar,
        Attribute::Position | Attribute::Velocity => ValueType::Vector3,
        Attribute::Color => ValueType::Vector4,
    }
}

/// Whether `m` only writes attributes derived from elapsed time or for
/// display: drag on velocity, color over lifetime, size.
pub open spec fn time_driven(m: Modifier) -> bool {
    match m {
        Modifier::LinearDrag { .. } | Modifier::ColorOverLifetime { .. } | Modifier::SetSize { .. } => true,
        _ => false,
    }
}

/// The attributes that advance with simulated time, and the slot's state,
/// are equal in `p` and `q`.
pub open spec fn same_motion(p: Particle, q: Particle) -> bool {
    &&& p.alive == q.alive
    &&& p.age == q.age
    &&& p.lifetime == q.lifetime
    &&& p.position == q.position
    &&& p.velocity == q.velocity
}

/// A sequence of modifiers leaves an attribute that none of them writes,
/// and the slot's liveness, as they were.
pub proof fn lemma_frame(ms: Seq<Modifier>, p: Particle, s: u64, dt: int, a: Attribute)
    requires
        forall|i: int| 0 <= i < ms.len() ==> !writes(#[trigger] ms[i], a),
    ensures
        attr_value(apply_all_spec(ms, p, s, dt).0, a) == attr_value(p, a),
        apply_all_spec(ms, p, s, dt).0.alive == p.alive,
    decreases ms.len(),
{
    if ms.len() > 0 {
        let init = ms.drop_last();
        assert forall|i: int| 0 <= i < init.len() implies !writes(#[trigger] init[i], a) by {
            assert(init[i] == ms[i]);
        }
        lemma_frame(init, p, s, dt, a);
        assert(!writes(ms[ms.len() - 1], a));
    }
}

proof fn lemma_mul_by_scale(x: int)
    ensures
        quot(x * SCALE, SCALE as int) == x,
{
    vstd::arithmetic::div_mod::lemma_div_multiples_vanish(x, SCALE as int);
    vstd::arithmetic::div_mod::lemma_div_multiples_vanish(-x, SCALE as int);
    assert(x * SCALE == SCALE * x) by (nonlinear_arith);
    assert((-x) * SCALE == SCALE * (-x)) by (nonlinear_arith);
    assert(-(x * SCALE) == (-x) * SCALE) by (nonlinear_arith);
    if x * SCALE < 0 {
        assert(x < 0) by (nonlinear_arith)
            requires
                x * SCALE < 0,
                SCALE > 0,
        ;
    }
}

/// With nothing elapsed, a time-driven modifier changes neither the slot's
/// state nor its age, lifetime, position or velocity.
pub proof fn lemma_time_driven_at_zero(m: Modifier, p: Particle, s: u64)
    requires
        time_driven(m),
    ensures
        same_motion(apply_spec(m, p, s, 0).0, p),
{
    if let Modifier::LinearDrag { drag } = m {
        let c = as_scalar(eval_spec(drag, s).0) as int;
        assert(c * 0 == 0) by (nonlinear_arith);
        assert(drag_factor(c, 0) == SCALE);
        lemma_mul_by_scale(p.velocity.x as int);
        lemma_mul_by_scale(p.velocity.y as int);
        lemma_mul_by_scale(p.velocity.z as int);
    }
}

/// The sequence form of `lemma_time_driven_at_zero`.
pub proof fn lemma_all_time_driven_at_zero(ms: Seq<Modifier>, p: Particle, s: u64)
    requires
        forall|i: int| 0 <= i < ms.len() ==> time_driven(#[trigger] ms[i]),
    ensures
        same_motion(apply_all_spec(ms, p, s, 0).0, p),
    decreases ms.len(),
{
    if ms.len() > 0 {
        let init = ms.drop_last();
        assert forall|i: int| 0 <= i < init.len() implies time_driven(#[trigger] init[i]) by {
            assert(init[i] == ms[i]);
        }
        lemma_all_time_driven_at_zero(init, p, s);
        let (q, s1) = apply_all_spec(init, p, s, 0);
        assert(time_driven(ms[ms.len() - 1]));
        lemma_time_driven_at_zero(ms.last(), q, s1);
    }
}

/// `n` ticks of linear drag with coefficient `c` over `dt` each.
pub open spec fn drag_n(v: Vec3, c: int, dt: int, n: nat) -> Vec3
    decreases n,
{
    if n == 0 {
        v
    } else {
        scale3(drag_n(v, c, dt, (n - 1) as nat), drag_factor(c, dt))
    }
}

pub open spec fn abs(x: int) -> int {
    if x < 0 {
        -x
    } else {
        x
    }
}

/// The squared magnitude of a vector.
pub open spec fn mag_sq(v: Vec3) -> int {
    v.x * v.x + v.y * v.y + v.z * v.z
}

/// `y` is no larger than `x` in magnitude and does not point the other way.
pub open spec fn shrinks(y: int, x: int) -> bool {
    abs(y) <= abs(x) && y * x >= 0
}

proof fn lemma_scale_shrinks(x: int, f: int)
    requires
        0 <= f <= SCALE,
        i64::MIN <= x <= i64::MAX,
    ensures
        shrinks(mul_spec(x, f), x),
{
    lemma_quot_bounded(x, f, SCALE as int);
    let q = quot(x * f, SCALE as int);
    assert(mul_spec(x, f) == q);
    assert(q * x >= 0) by (nonlinear_arith)
        requires
            x >= 0 ==> 0 <= q,
            x < 0 ==> q <= 0,
    ;
}

proof fn lemma_shrinks_trans(z: int, y: int, x: int)
    requires
        shrinks(z, y),
        shrinks(y, x),
    ensures
        shrinks(z, x),
{
    assert(z * x >= 0) by (nonlinear_arith)
        requires
            abs(z) <= abs(y) <= abs(x),
            z * y >= 0,
            y * x >= 0,
            abs(z) == (if z < 0 { -z } else { z }),
            abs(y) == (if y < 0 { -y } else { y }),
            abs(x) == (if x < 0 { -x } else { x }),
    ;
}

proof fn lemma_square_le(y: int, x: int)
    requires
        abs(y) <= abs(x),
    ensures
        y * y <= x * x,
{
    assert(y * y <= x * x) by (nonlinear_arith)
        requires
            abs(y) <= abs(x),
            abs(y) == (if y < 0 { -y } else { y }),
            abs(x) == (if x < 0 { -x } else { x }),
    ;
}

/// Linear drag with a non-negative coefficient over non-negative time steps,
/// applied for any number of ticks, never makes a velocity component larger
/// or turn it around, so the magnitude never grows and stays non-negative.
pub proof fn lemma_drag_never_increases(v: Vec3, c: int, dt: int, n: nat)
    requires
        c >= 0,
        dt >= 0,
    ensures
        shrinks(drag_n(v, c, dt, n).x as int, v.x as int),
        shrinks(drag_n(v, c, dt, n).y as int, v.y as int),
        shrinks(drag_n(v, c, dt, n).z as int, v.z as int),
        0 <= mag_sq(drag_n(v, c, dt, n)) <= mag_sq(v),
    decreases n,
{
    let w = drag_n(v, c, dt, n);
    if n == 0 {
        assert(v.x * v.x >= 0 && v.y * v.y >= 0 && v.z * v.z >= 0) by (nonlinear_arith);
    } else {
        lemma_drag_never_increases(v, c, dt, (n - 1) as nat);
        let u = drag_n(v, c, dt, (n - 1) as nat);
        let f = drag_factor(c, dt);
        assert(c * dt >= 0) by (nonlinear_arith)
            requires
                c >= 0,
                dt >= 0,
        ;
        vstd::arithmetic::div_mod::lemma_div_pos_is_pos(c * dt, SCALE as int);
        assert(0 <= f <= SCALE);
        lemma_scale_shrinks(u.x as int, f);
        lemma_scale_shrinks(u.y as int, f);
        lemma_scale_shrinks(u.z as int, f);
        lemma_shrinks_trans(w.x as int, u.x as int, v.x as int);
        lemma_shrinks_trans(w.y as int, u.y as int, v.y as int);
        lemma_shrinks_trans(w.z as int, u.z as int, v.z as int);
        lemma_square_le(w.x as int, v.x as int);
        lemma_square_le(w.y as int, v.y as int);
        lemma_square_le(w.z as int, v.z as int);
        assert(w.x * w.x >= 0 && w.y * w.y >= 0 && w.z * w.z >= 0) by (nonlinear_arith);
    }
}

/// Whether `m` derives display attributes from the slot alone: color over
/// lifetime, or a literal size.
pub open spec fn pure_render(m: Modifier) -> bool {
    match m {
        Modifier::ColorOverLifetime { .. } => true,
        Modifier::SetSize { size } => size is Lit,
        _ => false,
    }
}

/// Whether some modifier of `ms` writes `a`.
pub open spec fn writes_some(ms: Seq<Modifier>, a: Attribute) -> bool {
    exists|i: int| 0 <= i < ms.len() && writes(#[trigger] ms[i], a)
}

proof fn lemma_pure_frame(ms: Seq<Modifier>, p: Particle, s: u64, dt: int)
    requires
        forall|i: int| 0 <= i < ms.len() ==> pure_render(#[trigger] ms[i]),
    ensures
        same_motion(apply_all_spec(ms, p, s, dt).0, p),
{
    assert forall|i: int| 0 <= i < ms.len() implies !writes(#[trigger] ms[i], Attribute::Age) && !writes(
        ms[i],
        Attribute::Lifetime,
    ) && !writes(ms[i], Attribute::Position) && !writes(ms[i], Attribute::Velocity) by {
        assert(pure_render(ms[i]));
    }
    lemma_frame(ms, p, s, dt, Attribute::Age);
    lemma_frame(ms, p, s, dt, Attribute::Lifetime);
    lemma_frame(ms, p, s, dt, Attribute::Position);
    lemma_frame(ms, p, s, dt, Attribute::Velocity);
}

proof fn lemma_pure_agree_attr(
    ms: Seq<Modifier>,
    p: Particle,
    q: Particle,
    s1: u64,
    s2: u64,
    d1: int,
    d2: int,
    a: Attribute,
)
    requires
        forall|i: int| 0 <= i < ms.len() ==> pure_render(#[trigger] ms[i]),
        a == Attribute::Size || a == Attribute::Color,
        p.age == q.age,
        p.lifetime == q.lifetime,
        writes_some(ms, a) || attr_value(p, a) == attr_value(q, a),
    ensures
        attr_value(apply_all_spec(ms, p, s1, d1).0, a) == attr_value(apply_all_spec(ms, q, s2, d2).0, a),
    decreases ms.len(),
{
    if ms.len() > 0 {
        let init = ms.drop_last();
        let m = ms.last();
        assert forall|i: int| 0 <= i < init.len() implies pure_render(#[trigger] init[i]) by {
            assert(init[i] == ms[i]);
        }
        assert(pure_render(ms[ms.len() - 1]));
        let (pp, sp) = apply_all_spec(init, p, s1, d1);
        let (qq, sq) = apply_all_spec(init, q, s2, d2);
        lemma_pure_frame(init, p, s1, d1);
        lemma_pure_frame(init, q, s2, d2);
        if !writes(m, a) {
            if writes_some(ms, a) {
                let i = choose|i: int| 0 <= i < ms.len() && writes(#[trigger] ms[i], a);
                assert(i != ms.len() - 1);
                assert(writes(init[i], a));
            }
            lemma_pure_agree_attr(init, p, q, s1, s2, d1, d2, a);
        }
    }
}

/// Pure render modifiers give the same particle from two slots that agree
/// on everything they read and on what they do not write.
proof fn lemma_pure_agree(ms: Seq<Modifier>, p: Particle, q: Particle, s1: u64, s2: u64, d1: int, d2: int)
    requires
        forall|i: int| 0 <= i < ms.len() ==> pure_render(#[trigger] ms[i]),
        same_motion(p, q),
        writes_some(ms, Attribute::Size) || p.size == q.size,
        writes_some(ms, Attribute::Color) || p.color == q.color,
    ensures
        apply_all_spec(ms, p, s1, d1).0 == apply_all_spec(ms, q, s2, d2).0,
{
    lemma_pure_frame(ms, p, s1, d1);
    lemma_pure_frame(ms, q, s2, d2);
    lemma_pure_agree_attr(ms, p, q, s1, s2, d1, d2, Attribute::Size);
    lemma_pure_agree_attr(ms, p, q, s1, s2, d1, d2, Attribute::Color);
}

/// Applying pure render modifiers to their own output changes nothing.
pub proof fn lemma_pure_idempotent(ms: Seq<Modifier>, x: Particle, s0: u64, d0: int, s: u64, d: int)
    requires
        forall|i: int| 0 <= i < ms.len() ==> pure_render(#[trigger] ms[i]),
    ensures
        apply_all_spec(ms, apply_all_spec(ms, x, s0, d0).0, s, d).0 == apply_all_spec(ms, x, s0, d0).0,
{
    let r = apply_all_spec(ms, x, s0, d0).0;
    lemma_pure_frame(ms, x, s0, d0);
    if !writes_some(ms, Attribute::Size) {
        assert forall|i: int| 0 <= i < ms.len() implies !writes(#[trigger] ms[i], Attribute::Size) by {}
        lemma_frame(ms, x, s0, d0, Attribute::Size);
    }
    if !writes_some(ms, Attribute::Color) {
        assert forall|i: int| 0 <= i < ms.len() implies !writes(#[trigger] ms[i], Attribute::Color) by {}
        lemma_frame(ms, x, s0, d0, Attribute::Color);
    }
    lemma_pure_agree(ms, r, x, s, s0, d, d0);
}

/// Drag alone, over no elapsed time, leaves the particle as it was.
pub proof fn lemma_drag_only_at_zero(ms: Seq<Modifier>, p: Particle, s: u64)
    requires
        forall|i: int| 0 <= i < ms.len() ==> (#[trigger] ms[i]) is LinearDrag,
    ensures
        apply_all_spec(ms, p, s, 0).0 == p,
    decreases ms.len(),
{
    if ms.len() > 0 {
        let init = ms.drop_last();
        assert forall|i: int| 0 <= i < init.len() implies (#[trigger] init[i]) is LinearDrag by {
            assert(init[i] == ms[i]);
        }
        lemma_drag_only_at_zero(init, p, s);
        let (q, s1) = apply_all_spec(init, p, s, 0);
        assert(ms[ms.len() - 1] is LinearDrag);
        lemma_time_driven_at_zero(ms.last(), q, s1);
    }
}

} // verus!
