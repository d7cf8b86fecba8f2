use particle_fx::expr::{BinOp, Expr, Value, ValueType};
use particle_fx::fixed::{fx_add, fx_mul, fx_sub, Vec3, Vec4, SCALE};
use particle_fx::gradient::Gradient;
use particle_fx::modifier::{apply_drag, drag_factor_exec, life_ratio_exec};
use particle_fx::rng::Rng;

#[test]
fn fixed_point_products_round_toward_zero_and_saturate() {
    assert_eq!(fx_mul(3 * SCALE / 2, 2 * SCALE), 3 * SCALE);
    assert_eq!(fx_mul(-3, SCALE / 2), -1);
    assert_eq!(fx_mul(3, SCALE / 2), 1);
    assert_eq!(fx_mul(i64::MAX, 2 * SCALE), i64::MAX);
    assert_eq!(fx_mul(i64::MIN, 2 * SCALE), i64::MIN);
    assert_eq!(fx_add(i64::MAX, 1), i64::MAX);
    assert_eq!(fx_sub(i64::MIN, 1), i64::MIN);
    assert_eq!(fx_add(2, 3), 5);
}

#[test]
fn random_stream_is_reproducible_and_in_unit_range() {
    let mut a = Rng::new(42);
    let mut b = Rng::new(42);
    let mut c = Rng::new(43);
    let mut differs = false;
    for _ in 0..100 {
        let x = a.next_unit();
        let y = b.next_unit();
        let z = c.next_unit();
        assert_eq!(x, y);
        assert!(0 <= x && x < SCALE);
        assert!(0 <= z && z < SCALE);
        if x != z {
            differs = true;
        }
    }
    assert!(differs);
    assert_eq!(a, b);
}

#[test]
fn literals_draw_nothing_and_random_draws_one_step() {
    let mut rng = Rng::new(7);
    let before = rng;
    let v = Expr::scalar(5).evaluate(&mut rng);
    assert_eq!(v, Value::Scalar(5));
    assert_eq!(rng, before);

    let mut expected = Rng::new(7);
    let u = expected.next_unit();
    let e = Expr::binary(BinOp::Mul, Expr::rand(), Expr::scalar(2 * SCALE));
    let v = e.evaluate(&mut rng);
    assert_eq!(v, Value::Scalar(2 * u));
    assert_eq!(rng, expected);
}

#[test]
fn vector_operations_are_element_wise() {
    let a = Expr::lit(Value::Vector3(Vec3::new(1, 2, 3)));
    let b = Expr::lit(Value::Vector3(Vec3::new(10, 20, 30)));
    let mut rng = Rng::new(0);
    assert_eq!(
        Expr::binary(BinOp::Add, a, b).evaluate(&mut rng),
        Value::Vector3(Vec3::new(11, 22, 33))
    );
    let a = Expr::lit(Value::Vector3(Vec3::new(1, 2, 3)));
    let b = Expr::lit(Value::Vector3(Vec3::new(10, 20, 30)));
    assert_eq!(
        Expr::binary(BinOp::Sub, a, b).evaluate(&mut rng),
        Value::Vector3(Vec3::new(-9, -18, -27))
    );
}

#[test]
fn mismatched_operands_have_no_type() {
    let e = Expr::binary(
        BinOp::Add,
        Expr::scalar(1),
        Expr::lit(Value::Vector3(Vec3::zero())),
    );
    assert_eq!(e.type_check(), None);
    let e = Expr::binary(BinOp::Mul, Expr::rand(), Expr::scalar(3));
    assert_eq!(e.type_check(), Some(ValueType::Scalar));
}

fn fade() -> Gradient {
    let mut g = Gradient::new();
    g.add_key(0, Vec4::new(SCALE, SCALE, SCALE, SCALE));
    g.add_key(SCALE, Vec4::new(SCALE, SCALE, SCALE, 0));
    g
}

#[test]
fn gradient_ends_are_exact_and_middle_interpolates() {
    let g = fade();
    assert_eq!(g.sample(0), Vec4::new(SCALE, SCALE, SCALE, SCALE));
    assert_eq!(g.sample(SCALE), Vec4::new(SCALE, SCALE, SCALE, 0));
    assert_eq!(g.sample(SCALE / 2), Vec4::new(SCALE, SCALE, SCALE, SCALE / 2));
    assert_eq!(g.sample(SCALE / 4), Vec4::new(SCALE, SCALE, SCALE, 3 * SCALE / 4));
    assert_eq!(g.sample(-5), Vec4::new(SCALE, SCALE, SCALE, SCALE));
    assert_eq!(g.sample(2 * SCALE), Vec4::new(SCALE, SCALE, SCALE, 0));
}

#[test]
fn gradient_brackets_between_inner_keys() {
    let mut g = Gradient::new();
    g.add_key(SCALE, Vec4::new(0, 0, 0, 0));
    g.add_key(0, Vec4::new(0, 0, 0, 0));
    g.add_key(SCALE / 2, Vec4::new(100, 0, 0, 0));
    assert_eq!(g.keys.len(), 3);
    assert_eq!(g.keys[0].time, 0);
    assert_eq!(g.keys[1].time, SCALE / 2);
    assert_eq!(g.keys[2].time, SCALE);
    assert_eq!(g.sample(SCALE / 4).x, 50);
    assert_eq!(g.sample(3 * SCALE / 4).x, 50);
    g.add_key(SCALE / 2, Vec4::new(200, 0, 0, 0));
    assert_eq!(g.keys.len(), 3);
    assert_eq!(g.sample(SCALE / 2).x, 200);
    assert!(g.is_valid());
}

#[test]
fn empty_gradient_is_transparent_black() {
    let g = Gradient::new();
    assert_eq!(g.sample(SCALE / 2), Vec4::new(0, 0, 0, 0));
}

#[test]
fn drag_follows_the_decay_law() {
    assert_eq!(drag_factor_exec(SCALE, SCALE / 10), 9 * SCALE / 10);
    assert_eq!(drag_factor_exec(20 * SCALE, SCALE / 10), 0);
    assert_eq!(drag_factor_exec(SCALE, 0), SCALE);
    let v = apply_drag(Vec3::new(SCALE, -2 * SCALE, 0), SCALE, SCALE / 10);
    assert_eq!(v, Vec3::new(9 * SCALE / 10, -18 * SCALE / 10, 0));
    assert_eq!(apply_drag(Vec3::new(5, -5, 7), 20 * SCALE, SCALE), Vec3::new(0, 0, 0));
}

#[test]
fn drag_never_grows_or_reverses_velocity() {
    let mut v = Vec3::new(123_456_789, -987_654_321, 55);
    let mag = |w: Vec3| (w.x as i128).pow(2) + (w.y as i128).pow(2) + (w.z as i128).pow(2);
    for n in 0..50 {
        let w = apply_drag(v, (n % 7) * SCALE / 3, SCALE / 20);
        assert!(mag(w) <= mag(v));
        assert!(w.x as i128 * v.x as i128 >= 0);
        assert!(w.y as i128 * v.y as i128 >= 0);
        assert!(w.z as i128 * v.z as i128 >= 0);
        v = w;
    }
}

#[test]
fn life_ratio_is_clamped() {
    assert_eq!(life_ratio_exec(0, 10), 0);
    assert_eq!(life_ratio_exec(5, 10), SCALE / 2);
    assert_eq!(life_ratio_exec(10, 10), SCALE);
    assert_eq!(life_ratio_exec(20, 10), SCALE);
    assert_eq!(life_ratio_exec(-3, 10), 0);
    assert_eq!(life_ratio_exec(3, 0), SCALE);
}
