//! Color gradients: ordered `(time, color)` keys sampled with linear
//! interpolation between the two bracketing keys.
use vstd::prelude::*;
use crate::fixed::{quot, SCALE, Vec4};

verus! {

#[derive(Clone, Copy, Debug, PartialEq, Eq, Structural)]
pub struct GradientKey {
    /// Position on the gradient, in `[0, SCALE]`.
    pub time: i64,
    pub color: Vec4,
}

/// A gradient; its keys are kept in strictly increasing time order.
#[derive(Debug)]
pub struct Gradient {
    pub keys: Vec<GradientKey>,
}

/// Keys are within `[0, SCALE]` and strictly increasing in time.
pub open spec fn keys_wf(keys: Seq<GradientKey>) -> bool {
    &&& forall|i: int| 0 <= i < keys.len() ==> 0 <= #[trigger] keys[i].time <= SCALE
    &&& forall|i: int, j: int| 0 <= i < j < keys.len() ==> keys[i].time < keys[j].time
}

/// Linear interpolation from `a` (at `num == 0`) toward `b` (at `num == den`).
pub open spec fn lerp_spec(a: int, b: int, num: int, den: int) -> int {
    a + quot((b - a) * num, den)
}

pub open spec fn lerp4(a: Vec4, b: Vec4, num: int, den: int) -> Vec4 {
    Vec4 {
        x: lerp_spec(a.x as int, b.x as int, num, den) as i64,
        y: lerp_spec(a.y as int, b.y as int, num, den) as i64,
        z: lerp_spec(a.z as int, b.z as int, num, den) as i64,
        w: lerp_spec(a.w as int, b.w as int, num, den) as i64,
    }
}

/// Whether keys `i` and `i + 1` bracket time `t`.
pub open spec fn brackets(keys: Seq<GradientKey>, i: int, t: int) -> bool {
    0 <= i && i + 1 < keys.len() && keys[i].time <= t < keys[i + 1].time
}

/// The gradient's color at `t`: clamped to the first and last key outside
/// their range, linearly interpolated between the bracketing keys inside it.
/// An empty gradient is transparent black.
pub open spec fn sample_spec(keys: Seq<GradientKey>, t: int) -> Vec4 {
    if keys.len() == 0 {
        Vec4 { x: 0, y: 0, z: 0, w: 0 }
    } else if t <= keys[0].time {
        keys[0].color
    } else if t >= keys.last().time {
        keys.last().color
    } else {
        let i = choose|i: int| brackets(keys, i, t);
        lerp4(
            keys[i].color,
            keys[i + 1].color,
            t - keys[i].time,
            keys[i + 1].time - keys[i].time,
        )
    }
}

pub open spec fn is_insert_pos(keys: Seq<GradientKey>, t: int, p: int) -> bool {
    &&& 0 <= p <= keys.len()
    &&& forall|i: int| 0 <= i < p ==> #[trigger] keys[i].time < t
    &&& forall|i: int| p <= i < keys.len() ==> #[trigger] keys[i].time >= t
}

/// First index whose key is not earlier than `t`.
pub open spec fn insert_pos(keys: Seq<GradientKey>, t: int) -> int {
    choose|p: int| is_insert_pos(keys, t, p)
}

/// The keys after adding `k`: inserted in time order, replacing a key of
/// equal time.
pub open spec fn with_key(keys: Seq<GradientKey>, k: GradientKey) -> Seq<GradientKey> {
    let p = insert_pos(keys, k.time as int);
    let q = if p < keys.len() && keys[p].time == k.time {
        p + 1
    } else {
        p
    };
    keys.take(p).push(k) + keys.skip(q)
}

proof fn lemma_bracket_unique(keys: Seq<GradientKey>, i: int, j: int, t: int)
    requires
        keys_wf(keys),
        brackets(keys, i, t),
        brackets(keys, j, t),
    ensures
        i == j,
{
    if i < j {
        assert(keys[i + 1].time <= keys[j].time) by {
            if i + 1 < j {
                assert(keys[i + 1].time < keys[j].time);
            }
        }
    } else if j < i {
        assert(keys[j + 1].time <= keys[i].time) by {
            if j + 1 < i {
                assert(keys[j + 1].time < keys[i].time);
            }
        }
    }
}

pub proof fn lemma_quot_bounded(x: int, num: int, den: int)
    requires
        0 <= num <= den,
        0 < den,
    ensures
        x >= 0 ==> 0 <= quot(x * num, den) <= x,
        x < 0 ==> x <= quot(x * num, den) <= 0,
{
    if x >= 0 {
        assert(0 <= x * num <= x * den) by (nonlinear_arith)
            requires
                x >= 0,
                0 <= num <= den,
        ;
        vstd::arithmetic::div_mod::lemma_div_is_ordered(x * num, x * den, den);
        vstd::arithmetic::div_mod::lemma_div_multiples_vanish(x, den);
        assert(x * den == den * x) by (nonlinear_arith);
        vstd::arithmetic::div_mod::lemma_div_pos_is_pos(x * num, den);
        assert(quot(x * num, den) == (x * num) / den);
    } else {
        let y = -x;
        assert(0 <= y * num <= y * den) by (nonlinear_arith)
            requires
                y >= 0,
                0 <= num <= den,
        ;
        assert(x * num == -(y * num)) by (nonlinear_arith)
            requires
                y == -x,
        ;
        vstd::arithmetic::div_mod::lemma_div_is_ordered(y * num, y * den, den);
        vstd::arithmetic::div_mod::lemma_div_multiples_vanish(y, den);
        assert(y * den == den * y) by (nonlinear_arith);
        vstd::arithmetic::div_mod::lemma_div_pos_is_pos(y * num, den);
        if y * num == 0 {
            assert(quot(x * num, den) == 0);
        } else {
            assert(quot(x * num, den) == -((y * num) / den));
        }
    }
}

fn lerp(a: i64, b: i64, num: i64, den: i64) -> (r: i64)
    requires
        0 <= num <= den <= SCALE,
        0 < den,
    ensures
        r == lerp_spec(a as int, b as int, num as int, den as int),
{
    let d: i128 = b as i128 - a as i128;
    proof {
        lemma_quot_bounded(d as int, num as int, den as int);
    }
    assert(-0x4000_0000_0000_0000_0000_0000int <= d * num <= 0x4000_0000_0000_0000_0000_0000int)
        by (nonlinear_arith)
        requires
            -0x2_0000_0000_0000_0000int <= d <= 0x2_0000_0000_0000_0000int,
            0 <= num <= SCALE,
    ;
    let p: i128 = d * (num as i128);
    let q: i128 = if p >= 0 {
        p / (den as i128)
    } else {
        let n: i128 = -p;
        let m: i128 = n / (den as i128);
        -m
    };
    (a as i128 + q) as i64
}

fn lerp_color(a: Vec4, b: Vec4, num: i64, den: i64) -> (r: Vec4)
    requires
        0 <= num <= den <= SCALE,
        0 < den,
    ensures
        r == lerp4(a, b, num as int, den as int),
{
    Vec4 {
        x: lerp(a.x, b.x, num, den),
        y: lerp(a.y, b.y, num, den),
        z: lerp(a.z, b.z, num, den),
        w: lerp(a.w, b.w, num, den),
    }
}

impl Gradient {
    pub open spec fn wf(&self) -> bool {
        keys_wf(self.keys@)
    }

    /// Whether the keys are within `[0, SCALE]` and in strictly increasing
    /// time order.
    pub fn is_valid(&self) -> (r: bool)
        ensures
            r == self.wf(),
    {
        let n = self.keys.len();
        let mut i: usize = 0;
        while i < n
            invariant
                n == self.keys@.len(),
                i <= n,
                forall|j: int| 0 <= j < i ==> 0 <= #[trigger] self.keys@[j].time <= SCALE,
                forall|j: int, k: int| 0 <= j < k < i ==> self.keys@[j].time < self.keys@[k].time,
            decreases n - i,
        {
            let t = self.keys[i].time;
            if t < 0 || t > SCALE {
                return false;
            }
            if i > 0 && self.keys[i - 1].time >= t {
                return false;
            }
            proof {
                assert forall|j: int, k: int| 0 <= j < k < i + 1 implies self.keys@[j].time
                    < self.keys@[k].time by {
                    if k == i && j < i - 1 {
                        assert(self.keys@[j].time < self.keys@[i - 1].time);
                    }
                }
            }
            i = i + 1;
        }
        true
    }

    /// An empty gradient.
    pub fn new() -> (r: Gradient)
        ensures
            r.wf(),
            r.keys@ == Seq::<GradientKey>::empty(),
    {
        Gradient { keys: Vec::new() }
    }

    /// Adds a key at `time` (in `[0, SCALE]`), keeping time order; a key of
    /// the same time is replaced.
    pub fn add_key(&mut self, time: i64, color: Vec4)
        requires
            old(self).wf(),
            0 <= time <= SCALE,
        ensures
            final(self).wf(),
            final(self).keys@ == with_key(old(self).keys@, GradientKey { time, color }),
    {
        let ghost keys = self.keys@;
        let k = GradientKey { time, color };
        let mut p: usize = 0;
        while p < self.keys.len() && self.keys[p].time < time
            invariant
                self.keys@ == keys,
                p <= keys.len(),
                forall|i: int| 0 <= i < p ==> #[trigger] keys[i].time < time,
            decreases keys.len() - p,
        {
            p = p + 1;
        }
        proof {
            assert forall|i: int| p <= i < keys.len() implies #[trigger] keys[i].time >= time by {
                if i > p {
                    assert(keys[p as int].time < keys[i].time);
                }
            }
            assert(is_insert_pos(keys, time as int, p as int));
            let c = insert_pos(keys, time as int);
            assert(is_insert_pos(keys, time as int, c));
            if c < p {
                assert(0 <= c < keys.len());
                assert(keys[c].time < time);
                assert(keys[c].time >= time);
            } else if p < c {
                assert(keys[p as int].time >= time && keys[p as int].time < time);
            }
            assert(c == p);
        }
        if p < self.keys.len() && self.keys[p].time == time {
            self.keys.set(p, k);
            proof {
                assert(self.keys@ =~= keys.take(p as int).push(k) + keys.skip(p + 1));
            }
        } else {
            self.keys.insert(p, k);
            proof {
                assert(self.keys@ =~= keys.take(p as int).push(k) + keys.skip(p as int));
            }
        }
        proof {
            let s = self.keys@;
            assert forall|i: int, j: int| 0 <= i < j < s.len() implies s[i].time < s[j].time by {
                if j < p {
                } else if i < p && j == p {
                } else if i < p {
                    assert(keys[i].time < time);
                } else if i == p {
                    if p + 1 <= j && s.len() == keys.len() {
                        assert(s[j] == keys[j]);
                        assert(keys[p as int].time == time);
                        assert(keys[p as int].time < keys[j].time);
                    }
                }
            }
        }
    }

    /// The gradient's color at `t` (in fixed-point, `SCALE` is the end).
    pub fn sample(&self, t: i64) -> (r: Vec4)
        requires
            self.wf(),
        ensures
            r == sample_spec(self.keys@, t as int),
    {
        let n = self.keys.len();
        if n == 0 {
            return Vec4 { x: 0, y: 0, z: 0, w: 0 };
        }
        if t <= self.keys[0].time {
            return self.keys[0].color;
        }
        if t >= self.keys[n - 1].time {
            return self.keys[n - 1].color;
        }
        let mut i: usize = 0;
        while self.keys[i + 1].time <= t
            invariant
                self.wf(),
                n == self.keys.len(),
                i + 1 < n,
                self.keys[i as int].time <= t,
                t < self.keys[n - 1].time,
            decreases n - i,
        {
            i = i + 1;
        }
        let ki = self.keys[i];
        let kj = self.keys[i + 1];
        proof {
            let c = choose|c: int| brackets(self.keys@, c, t as int);
            assert(brackets(self.keys@, i as int, t as int));
            lemma_bracket_unique(self.keys@, c, i as int, t as int);
        }
        lerp_color(ki.color, kj.color, t - ki.time, kj.time - ki.time)
    }
}

/// Sampling at the start of the range gives the first key's color, at the
/// end the last key's color, and strictly between two adjacent keys the
/// linear interpolation of their colors.
pub proof fn lemma_sample_ends_and_between(keys: Seq<GradientKey>, t: int, i: int)
    requires
        keys_wf(keys),
        keys.len() > 0,
    ensures
        sample_spec(keys, 0) == keys[0].color,
        sample_spec(keys, SCALE as int) == keys.last().color,
        0 <= i && i + 1 < keys.len() && keys[i].time < t < keys[i + 1].time ==> sample_spec(keys, t)
            == lerp4(
            keys[i].color,
            keys[i + 1].color,
            t - keys[i].time,
            keys[i + 1].time - keys[i].time,
        ),
{
    if keys.len() > 1 {
        assert(keys[0].time < keys.last().time);
    }
    if 0 <= i && i + 1 < keys.len() && keys[i].time < t < keys[i + 1].time {
        assert(t > keys[0].time) by {
            if i > 0 {
                assert(keys[0].time < keys[i].time);
            }
        }
        assert(t < keys.last().time) by {
            if i + 1 < keys.len() - 1 {
                assert(keys[i + 1].time < keys.last().time);
            }
        }
        let c = choose|c: int| brackets(keys, c, t);
        assert(brackets(keys, i, t));
        lemma_bracket_unique(keys, c, i, t);
    }
}

} // verus!
