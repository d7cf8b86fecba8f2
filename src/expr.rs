//! The expression graph: literals, uniform random scalars and element-wise
//! arithmetic, evaluated against an explicit random stream.
use vstd::prelude::*;
use crate::fixed::{add_spec, fx_add, fx_mul, fx_sub, mul_spec, sub_spec, Vec3, Vec4};
use crate::rng::{next_state, unit_of, Rng};

verus! {

/// The shape of a value.
#[derive(Clone, Copy, Debug, PartialEq, Eq, Structural)]
pub enum ValueType {
    Scalar,
    Vector3,
    Vector4,
}

/// A value produced by an expression.
#[derive(Clone, Copy, Debug, PartialEq, Eq, Structural)]
pub enum Value {
    Scalar(i64),
    Vector3(Vec3),
    Vector4(Vec4),
}

#[derive(Clone, Copy, Debug, PartialEq, Eq, Structural)]
pub enum BinOp {
    Add,
    Sub,
    Mul,
}

/// An immutable expression node.
#[derive(Debug)]
pub enum Expr {
    Lit(Value),
    /// A uniform draw in `[0, 1)`; consumes one step of the stream.
    Rand,
    Binary(BinOp, Box<Expr>, Box<Expr>),
}

pub open spec fn value_type(v: Value) -> ValueType {
    match v {
        Value::Scalar(_) => ValueType::Scalar,
        Value::Vector3(_) => ValueType::Vector3,
        Value::Vector4(_) => ValueType::Vector4,
    }
}

/// The type of an expression, `None` where two operands disagree.
pub open spec fn type_of(e: Expr) -> Option<ValueType>
    decreases e,
{
    match e {
        Expr::Lit(v) => Some(value_type(v)),
        Expr::Rand => Some(ValueType::Scalar),
        Expr::Binary(_, l, r) => {
            let tl = type_of(*l);
            if tl.is_some() && tl == type_of(*r) {
                tl
            } else {
                None
            }
        },
    }
}

pub open spec fn op_spec(op: BinOp, a: int, b: int) -> int {
    match op {
        BinOp::Add => add_spec(a, b),
        BinOp::Sub => sub_spec(a, b),
        BinOp::Mul => mul_spec(a, b),
    }
}

/// Element-wise combination; on operands of different shapes (which a
/// well-typed expression never has) the left operand is kept.
pub open spec fn combine_spec(op: BinOp, a: Value, b: Value) -> Value {
    match (a, b) {
        (Value::Scalar(x), Value::Scalar(y)) => Value::Scalar(op_spec(op, x as int, y as int) as i64),
        (Value::Vector3(u), Value::Vector3(v)) => Value::Vector3(
            Vec3 {
                x: op_spec(op, u.x as int, v.x as int) as i64,
                y: op_spec(op, u.y as int, v.y as int) as i64,
                z: op_spec(op, u.z as int, v.z as int) as i64,
            },
        ),
        (Value::Vector4(u), Value::Vector4(v)) => Value::Vector4(
            Vec4 {
                x: op_spec(op, u.x as int, v.x as int) as i64,
                y: op_spec(op, u.y as int, v.y as int) as i64,
                z: op_spec(op, u.z as int, v.z as int) as i64,
                w: op_spec(op, u.w as int, v.w as int) as i64,
            },
        ),
        _ => a,
    }
}

/// The value of `e` and the stream state after it, starting from state `s`.
/// Operands are evaluated left first.
pub open spec fn eval_spec(e: Expr, s: u64) -> (Value, u64)
    decreases e,
{
    match e {
        Expr::Lit(v) => (v, s),
        Expr::Rand => (Value::Scalar(unit_of(s)), next_state(s)),
        Expr::Binary(op, l, r) => {
            let (a, s1) = eval_spec(*l, s);
            let (b, s2) = eval_spec(*r, s1);
            (combine_spec(op, a, b), s2)
        },
    }
}

pub fn apply_op(op: BinOp, a: i64, b: i64) -> (r: i64)
    ensures
        r == op_spec(op, a as int, b as int),
{
    match op {
        BinOp::Add => fx_add(a, b),
        BinOp::Sub => fx_sub(a, b),
        BinOp::Mul => fx_mul(a, b),
    }
}

pub fn combine(op: BinOp, a: Value, b: Value) -> (r: Value)
    ensures
        r == combine_spec(op, a, b),
{
    match (a, b) {
        (Value::Scalar(x), Value::Scalar(y)) => Value::Scalar(apply_op(op, x, y)),
        (Value::Vector3(u), Value::Vector3(v)) => Value::Vector3(
            Vec3 { x: apply_op(op, u.x, v.x), y: apply_op(op, u.y, v.y), z: apply_op(op, u.z, v.z) },
        ),
        (Value::Vector4(u), Value::Vector4(v)) => Value::Vector4(
            Vec4 {
                x: apply_op(op, u.x, v.x),
                y: apply_op(op, u.y, v.y),
                z: apply_op(op, u.z, v.z),
                w: apply_op(op, u.w, v.w),
            },
        ),
        _ => a,
    }
}

impl Expr {
    pub fn lit(v: Value) -> (r: Expr)
        ensures
            r == Expr::Lit(v),
    {
        Expr::Lit(v)
    }

    pub fn scalar(x: i64) -> (r: Expr)
        ensures
            r == Expr::Lit(Value::Scalar(x)),
    {
        Expr::Lit(Value::Scalar(x))
    }

    pub fn rand() -> (r: Expr)
        ensures
            r == Expr::Rand,
    {
        Expr::Rand
    }

    pub fn binary(op: BinOp, l: Expr, r: Expr) -> (e: Expr)
        ensures
            e == Expr::Binary(op, Box::new(l), Box::new(r)),
    {
        Expr::Binary(op, Box::new(l), Box::new(r))
    }

    /// Computes the type of the expression, `None` on an operand mismatch.
    pub fn type_check(&self) -> (r: Option<ValueType>)
        ensures
            r == type_of(*self),
        decreases *self,
    {
        match self {
            Expr::Lit(v) => Some(
                match v {
                    Value::Scalar(_) => ValueType::Scalar,
                    Value::Vector3(_) => ValueType::Vector3,
                    Value::Vector4(_) => ValueType::Vector4,
                },
            ),
            Expr::Rand => Some(ValueType::Scalar),
            Expr::Binary(_, l, r) => {
                let tl = l.type_check();
                let tr = r.type_check();
                match (tl, tr) {
                    (Some(a), Some(b)) => {
                        if a == b {
                            Some(a)
                        } else {
                            None
                        }
                    },
                    _ => None,
                }
            },
        }
    }

    /// Evaluates the expression, drawing from `rng` in left-to-right order.
    pub fn evaluate(&self, rng: &mut Rng) -> (r: Value)
        ensures
            (r, final(rng).state) == eval_spec(*self, old(rng).state),
        decreases *self,
    {
        match self {
            Expr::Lit(v) => *v,
            Expr::Rand => Value::Scalar(rng.next_unit()),
            Expr::Binary(op, l, r) => {
                let a = l.evaluate(rng);
                let b = r.evaluate(rng);
                combine(*op, a, b)
            },
        }
    }
}

} // verus!
