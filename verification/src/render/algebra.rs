//! Facts about real numbers and triples of them, on which the laws of the
//! geometry rest.

use vstd::prelude::*;

verus! {

/// Three real numbers: what a vector or a point stands for.
pub struct Triple {
    pub x: real,
    pub y: real,
    pub z: real,
}

impl Triple {
    pub open spec fn plus(self, rhs: Triple) -> Triple {
        Triple { x: self.x + rhs.x, y: self.y + rhs.y, z: self.z + rhs.z }
    }

    pub open spec fn minus(self, rhs: Triple) -> Triple {
        Triple { x: self.x - rhs.x, y: self.y - rhs.y, z: self.z - rhs.z }
    }

    pub open spec fn times(self, s: real) -> Triple {
        Triple { x: self.x * s, y: self.y * s, z: self.z * s }
    }

    pub open spec fn over(self, s: real) -> Triple {
        Triple { x: self.x / s, y: self.y / s, z: self.z / s }
    }

    pub open spec fn dot(self, rhs: Triple) -> real {
        self.x * rhs.x + self.y * rhs.y + self.z * rhs.z
    }

    pub open spec fn cross(self, rhs: Triple) -> Triple {
        Triple {
            x: self.y * rhs.z - self.z * rhs.y,
            y: self.z * rhs.x - self.x * rhs.z,
            z: self.x * rhs.y - self.y * rhs.x,
        }
    }

    pub open spec fn norm_squared(self) -> real {
        self.dot(self)
    }
}

pub proof fn lemma_mul_comm(a: real, b: real)
    ensures
        a * b == b * a,
{
    assert(a * b == b * a) by (nonlinear_arith);
}

pub proof fn lemma_mul_assoc(a: real, b: real, c: real)
    ensures
        (a * b) * c == a * (b * c),
{
    assert((a * b) * c == a * (b * c)) by (nonlinear_arith);
}

pub proof fn lemma_mul_distributes(a: real, b: real, c: real)
    ensures
        a * (b + c) == a * b + a * c,
        a * (b - c) == a * b - a * c,
        (b + c) * a == b * a + c * a,
        (b - c) * a == b * a - c * a,
{
    assert(a * (b + c) == a * b + a * c) by (nonlinear_arith);
    assert(a * (b - c) == a * b - a * c) by (nonlinear_arith);
    assert((b + c) * a == b * a + c * a) by (nonlinear_arith);
    assert((b - c) * a == b * a - c * a) by (nonlinear_arith);
}

pub proof fn lemma_mul_zero(a: real)
    ensures
        a * 0real == 0real,
        0real * a == 0real,
{
    assert(a * 0real == 0real) by (nonlinear_arith);
    assert(0real * a == 0real) by (nonlinear_arith);
}

pub proof fn lemma_mul_one(a: real)
    ensures
        a * 1real == a,
        1real * a == a,
{
    assert(a * 1real == a) by (nonlinear_arith);
    assert(1real * a == a) by (nonlinear_arith);
}

pub proof fn lemma_mul_neg(a: real, b: real)
    ensures
        (-a) * b == -(a * b),
        a * (-b) == -(a * b),
{
    assert((-a) * b == -(a * b)) by (nonlinear_arith);
    assert(a * (-b) == -(a * b)) by (nonlinear_arith);
}

/// Dividing by a number that is not zero and multiplying by it again gives
/// the number back.
pub proof fn lemma_div_mul(x: real, m: real)
    requires
        m != 0real,
    ensures
        (x / m) * m == x,
        (x * m) / m == x,
{
    assert((x / m) * m == x) by (nonlinear_arith)
        requires
            m != 0real,
    ;
    assert((x * m) / m == x) by (nonlinear_arith)
        requires
            m != 0real,
    ;
}

/// A product is zero only where a factor is.
pub proof fn lemma_mul_nonzero(a: real, b: real)
    requires
        a != 0real,
        b != 0real,
    ensures
        a * b != 0real,
{
    assert(a * b != 0real) by (nonlinear_arith)
        requires
            a != 0real,
            b != 0real,
    ;
}

pub proof fn lemma_square_nonnegative(a: real)
    ensures
        a * a >= 0real,
        a * a == 0real ==> a == 0real,
{
    assert(a * a >= 0real) by (nonlinear_arith);
    assert(a * a == 0real ==> a == 0real) by (nonlinear_arith);
}

/// The sign of a product.
pub proof fn lemma_mul_sign(a: real, b: real)
    ensures
        a > 0real && b > 0real ==> a * b > 0real,
        a > 0real && b < 0real ==> a * b < 0real,
        a > 0real && b >= 0real ==> a * b >= 0real,
        a > 0real && b <= 0real ==> a * b <= 0real,
{
    assert(a > 0real && b > 0real ==> a * b > 0real) by (nonlinear_arith);
    assert(a > 0real && b < 0real ==> a * b < 0real) by (nonlinear_arith);
    assert(a > 0real && b >= 0real ==> a * b >= 0real) by (nonlinear_arith);
    assert(a > 0real && b <= 0real ==> a * b <= 0real) by (nonlinear_arith);
}

/// Of two numbers that are not negative, the one with the larger square
/// is the larger.
pub proof fn lemma_square_order(a: real, b: real)
    requires
        a >= 0real,
        b >= 0real,
    ensures
        a * a > b * b ==> a > b,
        a > b ==> a * a > b * b,
        a * a >= b * b ==> a >= b,
{
    assert(a * a > b * b ==> a > b) by (nonlinear_arith)
        requires
            a >= 0real,
            b >= 0real,
    ;
    assert(a > b ==> a * a > b * b) by (nonlinear_arith)
        requires
            a >= 0real,
            b >= 0real,
    ;
    assert(a * a >= b * b ==> a >= b) by (nonlinear_arith)
        requires
            a >= 0real,
            b >= 0real,
    ;
}

pub proof fn lemma_mul_distributes3(s: real, p: real, q: real, r: real)
    ensures
        s * (p + q + r) == s * p + s * q + s * r,
        (p + q + r) * s == p * s + q * s + r * s,
{
    lemma_mul_distributes(s, p + q, r);
    lemma_mul_distributes(s, p, q);
}

/// `(a s) b = s (a b)` and `a (b s) = s (a b)`.
pub proof fn lemma_mul_pull(a: real, s: real, b: real)
    ensures
        (a * s) * b == s * (a * b),
        a * (b * s) == s * (a * b),
{
    assert((a * s) * b == s * (a * b)) by (nonlinear_arith);
    assert(a * (b * s) == s * (a * b)) by (nonlinear_arith);
}

/// `a (b c) = b (c a) = c (a b)`.
pub proof fn lemma_mul_rotate(a: real, b: real, c: real)
    ensures
        a * (b * c) == b * (c * a),
        a * (b * c) == c * (a * b),
        a * (b * c) == a * (c * b),
{
    assert(a * (b * c) == b * (c * a)) by (nonlinear_arith);
    assert(a * (b * c) == c * (a * b)) by (nonlinear_arith);
    assert(a * (b * c) == a * (c * b)) by (nonlinear_arith);
}

/// A product of three factors does not depend on their order.
pub proof fn lemma_mul_permutes(a: real, b: real, c: real)
    ensures
        a * (b * c) == a * (c * b),
        a * (b * c) == b * (a * c),
        a * (b * c) == b * (c * a),
        a * (b * c) == c * (a * b),
        a * (b * c) == c * (b * a),
{
    lemma_mul_rotate(a, b, c);
    lemma_mul_comm(a, c);
    lemma_mul_comm(a, b);
}

pub proof fn lemma_dot_comm(a: Triple, b: Triple)
    ensures
        a.dot(b) == b.dot(a),
{
    lemma_mul_comm(a.x, b.x);
    lemma_mul_comm(a.y, b.y);
    lemma_mul_comm(a.z, b.z);
}

/// The dot product distributes over sums and differences.
pub proof fn lemma_dot_plus(a: Triple, b: Triple, c: Triple)
    ensures
        a.plus(b).dot(c) == a.dot(c) + b.dot(c),
        a.minus(b).dot(c) == a.dot(c) - b.dot(c),
        c.dot(a.plus(b)) == c.dot(a) + c.dot(b),
        c.dot(a.minus(b)) == c.dot(a) - c.dot(b),
{
    lemma_mul_distributes(c.x, a.x, b.x);
    lemma_mul_distributes(c.y, a.y, b.y);
    lemma_mul_distributes(c.z, a.z, b.z);
}

/// A factor of one side of a dot product can be taken out.
pub proof fn lemma_dot_times(a: Triple, s: real, b: Triple)
    ensures
        a.times(s).dot(b) == s * a.dot(b),
        b.dot(a.times(s)) == s * a.dot(b),
{
    lemma_mul_pull(a.x, s, b.x);
    lemma_mul_pull(a.y, s, b.y);
    lemma_mul_pull(a.z, s, b.z);
    lemma_mul_pull(b.x, s, a.x);
    lemma_mul_pull(b.y, s, a.y);
    lemma_mul_pull(b.z, s, a.z);
    lemma_mul_comm(a.x, b.x);
    lemma_mul_comm(a.y, b.y);
    lemma_mul_comm(a.z, b.z);
    lemma_mul_distributes3(s, a.x * b.x, a.y * b.y, a.z * b.z);
}

/// The squared length of `a + b s`.
pub proof fn lemma_norm_squared_along(a: Triple, b: Triple, s: real)
    ensures
        a.plus(b.times(s)).norm_squared() == a.norm_squared() + s * (2real * a.dot(b)) + (s * s)
            * b.norm_squared(),
{
    let bs = b.times(s);
    lemma_dot_plus(a, bs, a.plus(bs));
    lemma_dot_plus(a, bs, a);
    lemma_dot_plus(a, bs, bs);
    // a.(a + bs) + bs.(a + bs) = a.a + a.bs + bs.a + bs.bs
    lemma_dot_times(b, s, a);
    lemma_dot_times(b, s, bs);
    lemma_dot_times(b, s, b);
    lemma_dot_comm(a, b);
    lemma_dot_comm(b, bs);
    let ab = a.dot(b);
    let bb = b.dot(b);
    assert(bs.dot(bs) == s * (s * bb));
    lemma_mul_assoc(s, s, bb);
    lemma_mul_distributes(s, ab, ab);
}

/// The squared length of `a s`.
pub proof fn lemma_norm_squared_times(a: Triple, s: real)
    ensures
        a.times(s).norm_squared() == (s * s) * a.norm_squared(),
{
    let scaled = a.times(s);
    lemma_dot_times(a, s, scaled);
    lemma_dot_times(a, s, a);
    lemma_dot_comm(a, scaled);
    lemma_mul_assoc(s, s, a.dot(a));
}

/// The squared length of a real triple is never negative, and is zero only
/// for the zero triple.
pub proof fn lemma_norm_squared_nonnegative(v: Triple)
    ensures
        v.norm_squared() >= 0real,
        v.norm_squared() == 0real ==> v.x == 0real && v.y == 0real && v.z == 0real,
{
    lemma_square_nonnegative(v.x);
    lemma_square_nonnegative(v.y);
    lemma_square_nonnegative(v.z);
}

/// The triple product does not change when its three factors are
/// rotated: `a . (b x c) = b . (c x a)`.
pub proof fn lemma_triple_product_rotates(a: Triple, b: Triple, c: Triple)
    ensures
        a.dot(b.cross(c)) == b.dot(c.cross(a)),
{
    lemma_mul_distributes(a.x, b.y * c.z, b.z * c.y);
    lemma_mul_distributes(a.y, b.z * c.x, b.x * c.z);
    lemma_mul_distributes(a.z, b.x * c.y, b.y * c.x);
    lemma_mul_distributes(b.x, c.y * a.z, c.z * a.y);
    lemma_mul_distributes(b.y, c.z * a.x, c.x * a.z);
    lemma_mul_distributes(b.z, c.x * a.y, c.y * a.x);
    lemma_mul_rotate(a.x, b.y, c.z);
    lemma_mul_rotate(a.x, b.z, c.y);
    lemma_mul_rotate(a.y, b.z, c.x);
    lemma_mul_rotate(a.y, b.x, c.z);
    lemma_mul_rotate(a.z, b.x, c.y);
    lemma_mul_rotate(a.z, b.y, c.x);
}

/// Swapping the factors of a cross product changes its sign.
pub proof fn lemma_cross_swaps(a: Triple, b: Triple, c: Triple)
    ensures
        c.dot(a.cross(b)) == -c.dot(b.cross(a)),
{
    lemma_mul_comm(a.y, b.z);
    lemma_mul_comm(a.z, b.y);
    lemma_mul_comm(a.z, b.x);
    lemma_mul_comm(a.x, b.z);
    lemma_mul_comm(a.x, b.y);
    lemma_mul_comm(a.y, b.x);
    let u = b.cross(a);
    assert(a.cross(b).x == -u.x);
    assert(a.cross(b).y == -u.y);
    assert(a.cross(b).z == -u.z);
    lemma_mul_neg(c.x, u.x);
    lemma_mul_neg(c.y, u.y);
    lemma_mul_neg(c.z, u.z);
}

/// A cross product is at a right angle to both of its factors.
pub proof fn lemma_cross_is_orthogonal(a: Triple, b: Triple)
    ensures
        a.dot(a.cross(b)) == 0real,
        b.dot(a.cross(b)) == 0real,
        a.cross(b).dot(a) == 0real,
        a.cross(b).dot(b) == 0real,
{
    lemma_triple_product_rotates(a, a, b);
    lemma_cross_swaps(a, b, a);
    lemma_triple_product_rotates(b, a, b);
    lemma_triple_product_rotates(a, b, b);
    lemma_cross_swaps(b, a, b);
    lemma_dot_comm(a, a.cross(b));
    lemma_dot_comm(b, a.cross(b));
}

/// A product of factors that are not zero is not zero; so where a product
/// is zero and one factor is not, the other is.
pub proof fn lemma_zero_product(a: real, b: real)
    requires
        a * b == 0real,
        a != 0real,
    ensures
        b == 0real,
{
    if b != 0real {
        lemma_mul_nonzero(a, b);
    }
}

/// `(u + b)^2 = u^2 + 2 u b + b^2`.
pub proof fn lemma_square_of_sum(u: real, b: real)
    ensures
        (u + b) * (u + b) == u * u + 2real * (u * b) + b * b,
{
    assert((u + b) * (u + b) == u * u + 2real * (u * b) + b * b) by (nonlinear_arith);
}

pub proof fn lemma_square_of_negation(s: real)
    ensures
        (-s) * (-s) == s * s,
{
    assert((-s) * (-s) == s * s) by (nonlinear_arith);
}

/// The quadratic formula: with `s` a square root of the discriminant,
/// `(-b - s) / 2a` and `(-b + s) / 2a` are roots of `a t^2 + b t + c`.
pub proof fn lemma_quadratic_root(a: real, b: real, c: real, s: real, u: real, t: real)
    requires
        a != 0real,
        s * s == b * b - 4real * (a * c),
        u == -b - s || u == -b + s,
        t * (2real * a) == u,
    ensures
        a * (t * t) + b * t + c == 0real,
{
    // (u + b)^2 = s^2, so u^2 + 2ub + 4ac = 0.
    lemma_square_of_sum(u, b);
    lemma_square_of_negation(s);
    assert((u + b) * (u + b) == s * s);
    assert(u * u + 2real * (u * b) + 4real * (a * c) == 0real);
    // u = 2at, so u^2 = 4a (a t^2) and ub = 2a (b t).
    let four_a = 4real * a;
    assert(u * u == four_a * (a * (t * t))) by (nonlinear_arith)
        requires
            u == t * (2real * a),
            four_a == 4real * a,
    ;
    assert(2real * (u * b) == four_a * (b * t)) by (nonlinear_arith)
        requires
            u == t * (2real * a),
            four_a == 4real * a,
    ;
    assert(4real * (a * c) == four_a * c) by (nonlinear_arith)
        requires
            four_a == 4real * a,
    ;
    lemma_mul_distributes3(four_a, a * (t * t), b * t, c);
    lemma_zero_product(four_a, a * (t * t) + b * t + c);
}

/// The sign of `a t^2 + b t + c` at the point where a ray is nearest to
/// the center of a sphere, against whether the quadratic has a root that
/// the ray reaches.
///
/// Here `a > 0`, `b = -2m`, and the ray is nearest at `t = max(m / a, 0)`.
/// The ray reaches a root where the discriminant is not negative and,
/// with `s` its square root, `-b - s` or `-b + s` is positive.
pub proof fn lemma_nearest_against_roots(a: real, m: real, c: real, s: real, t: real)
    requires
        a > 0real,
        t == if m / a < 0real {
            0real
        } else {
            m / a
        },
        4real * (m * m) - 4real * (a * c) >= 0real ==> s >= 0real && s * s == 4real * (m * m)
            - 4real * (a * c),
    ensures
        ({
            let b = -2real * m;
            let disc = 4real * (m * m) - 4real * (a * c);
            let reached = disc >= 0real && (-b - s > 0real || -b + s > 0real);
            let at_nearest = a * (t * t) + b * t + c;
            &&& at_nearest < 0real ==> reached
            &&& reached ==> at_nearest <= 0real
        }),
{
    let b = -2real * m;
    let disc = 4real * (m * m) - 4real * (a * c);
    let reached = disc >= 0real && (-b - s > 0real || -b + s > 0real);
    let at_nearest = a * (t * t) + b * t + c;
    let q = m / a;
    lemma_div_mul(m, a);
    lemma_mul_comm(q, a);
    lemma_mul_sign(a, q);
    lemma_mul_sign(a, c);
    lemma_square_nonnegative(m);
    if m <= 0real {
        // The ray is nearest at its origin, where the quadratic is `c`.
        assert(q <= 0real);
        if q < 0real {
            assert(t == 0real);
        } else {
            assert(t == 0real);
        }
        lemma_mul_zero(a);
        lemma_mul_zero(b);
        lemma_mul_zero(0real);
        assert(at_nearest == c);
        if c < 0real {
            assert(a * c < 0real);
            assert(disc > 4real * (m * m));
            let two_m = 2real * m;
            assert(two_m * two_m == 4real * (m * m)) by (nonlinear_arith)
                requires
                    two_m == 2real * m,
            ;
            lemma_square_of_negation(two_m);
            lemma_square_order(s, -two_m);
            assert(s > -two_m);
        }
        if reached {
            assert(-b + s > 0real);
            let two_m = 2real * m;
            assert(two_m * two_m == 4real * (m * m)) by (nonlinear_arith)
                requires
                    two_m == 2real * m,
            ;
            lemma_square_of_negation(two_m);
            lemma_square_order(s, -two_m);
            assert(s * s > 4real * (m * m));
            assert(a * c < 0real);
            assert(c < 0real);
        }
    } else {
        // The ray is nearest at `m / a`, where four `a` times the
        // quadratic is minus the discriminant.
        assert(q > 0real);
        assert(t == q);
        assert(a * t == m);
        assert(a * (t * t) == m * t) by (nonlinear_arith)
            requires
                a * t == m,
        ;
        assert(b * t == -2real * (m * t)) by (nonlinear_arith)
            requires
                b == -2real * m,
        ;
        assert(at_nearest == c - m * t);
        assert(a * (m * t) == m * m) by (nonlinear_arith)
            requires
                a * t == m,
        ;
        lemma_mul_distributes(a, c, m * t);
        assert(4real * (a * at_nearest) == -disc);
        lemma_mul_sign(a, at_nearest);
        if at_nearest < 0real {
            assert(disc > 0real);
            assert(-b + s > 0real);
        }
        if reached {
            assert(a * at_nearest <= 0real);
            assert(at_nearest <= 0real);
        }
    }
}

/// Three triples of length one, each at a right angle to the other two.
pub open spec fn orthonormal(x: Triple, y: Triple, z: Triple) -> bool {
    &&& x.dot(x) == 1real
    &&& y.dot(y) == 1real
    &&& z.dot(z) == 1real
    &&& x.dot(y) == 0real
    &&& y.dot(z) == 0real
    &&& x.dot(z) == 0real
}

/// The triple with the coordinates `p`, `q`, `r` in the frame `x`, `y`, `z`.
pub open spec fn in_frame(x: Triple, y: Triple, z: Triple, p: real, q: real, r: real) -> Triple {
    x.times(p).plus(y.times(q)).plus(z.times(r))
}

/// In an orthonormal frame the dot product with an axis gives the
/// coordinate along it.
pub proof fn lemma_frame_coordinates(
    x: Triple,
    y: Triple,
    z: Triple,
    p: real,
    q: real,
    r: real,
)
    requires
        orthonormal(x, y, z),
    ensures
        in_frame(x, y, z, p, q, r).dot(x) == p,
        in_frame(x, y, z, p, q, r).dot(y) == q,
        in_frame(x, y, z, p, q, r).dot(z) == r,
{
    let xy = x.times(p).plus(y.times(q));
    lemma_dot_comm(x, y);
    lemma_dot_comm(y, z);
    lemma_dot_comm(x, z);
    lemma_dot_plus(xy, z.times(r), x);
    lemma_dot_plus(x.times(p), y.times(q), x);
    lemma_dot_plus(xy, z.times(r), y);
    lemma_dot_plus(x.times(p), y.times(q), y);
    lemma_dot_plus(xy, z.times(r), z);
    lemma_dot_plus(x.times(p), y.times(q), z);
    lemma_dot_times(x, p, x);
    lemma_dot_times(x, p, y);
    lemma_dot_times(x, p, z);
    lemma_dot_times(y, q, x);
    lemma_dot_times(y, q, y);
    lemma_dot_times(y, q, z);
    lemma_dot_times(z, r, x);
    lemma_dot_times(z, r, y);
    lemma_dot_times(z, r, z);
    lemma_mul_zero(p);
    lemma_mul_zero(q);
    lemma_mul_zero(r);
    lemma_mul_one(p);
    lemma_mul_one(q);
    lemma_mul_one(r);
}

/// In an orthonormal frame the squared length is the sum of the squares
/// of the coordinates.
pub proof fn lemma_frame_norm(x: Triple, y: Triple, z: Triple, p: real, q: real, r: real)
    requires
        orthonormal(x, y, z),
    ensures
        in_frame(x, y, z, p, q, r).norm_squared() == p * p + q * q + r * r,
{
    let v = in_frame(x, y, z, p, q, r);
    let xy = x.times(p).plus(y.times(q));
    lemma_frame_coordinates(x, y, z, p, q, r);
    lemma_dot_plus(xy, z.times(r), v);
    lemma_dot_plus(x.times(p), y.times(q), v);
    lemma_dot_times(x, p, v);
    lemma_dot_times(y, q, v);
    lemma_dot_times(z, r, v);
    lemma_dot_comm(x, v);
    lemma_dot_comm(y, v);
    lemma_dot_comm(z, v);
}

/// In an orthonormal frame the dot product of two triples is the sum of
/// the products of their coordinates.
pub proof fn lemma_frame_dot(
    x: Triple,
    y: Triple,
    z: Triple,
    p: real,
    q: real,
    r: real,
    pp: real,
    qq: real,
    rr: real,
)
    requires
        orthonormal(x, y, z),
    ensures
        in_frame(x, y, z, p, q, r).dot(in_frame(x, y, z, pp, qq, rr)) == p * pp + q * qq + r * rr,
{
    let v = in_frame(x, y, z, p, q, r);
    let w = in_frame(x, y, z, pp, qq, rr);
    lemma_frame_coordinates(x, y, z, p, q, r);
    lemma_dot_plus(x.times(pp).plus(y.times(qq)), z.times(rr), v);
    lemma_dot_plus(x.times(pp), y.times(qq), v);
    lemma_dot_times(x, pp, v);
    lemma_dot_times(y, qq, v);
    lemma_dot_times(z, rr, v);
    lemma_dot_comm(x, v);
    lemma_dot_comm(y, v);
    lemma_dot_comm(z, v);
    lemma_mul_comm(p, pp);
    lemma_mul_comm(q, qq);
    lemma_mul_comm(r, rr);
}

/// The dot product of two triples that were each divided by the same
/// number, times the square of that number, is the dot product of the
/// triples.
pub proof fn lemma_dot_of_quotients(a: Triple, b: Triple, m: real)
    requires
        m != 0real,
    ensures
        (m * m) * a.over(m).dot(b.over(m)) == a.dot(b),
{
    let u = a.over(m);
    let v = b.over(m);
    lemma_div_mul(a.x, m);
    lemma_div_mul(a.y, m);
    lemma_div_mul(a.z, m);
    lemma_div_mul(b.x, m);
    lemma_div_mul(b.y, m);
    lemma_div_mul(b.z, m);
    assert(u.times(m) == a);
    assert(v.times(m) == b);
    lemma_dot_times(u, m, v.times(m));
    lemma_dot_times(v, m, u);
    lemma_mul_assoc(m, m, u.dot(v));
}

/// The triple with the coordinates zero is the zero triple, in any frame.
pub proof fn lemma_frame_origin(x: Triple, y: Triple, z: Triple)
    ensures
        in_frame(x, y, z, 0real, 0real, 0real) == (Triple { x: 0real, y: 0real, z: 0real }),
{
    lemma_mul_zero(x.x);
    lemma_mul_zero(x.y);
    lemma_mul_zero(x.z);
    lemma_mul_zero(y.x);
    lemma_mul_zero(y.y);
    lemma_mul_zero(y.z);
    lemma_mul_zero(z.x);
    lemma_mul_zero(z.y);
    lemma_mul_zero(z.z);
}

/// Coordinates add and scale as the triples do.
pub proof fn lemma_frame_is_linear(
    x: Triple,
    y: Triple,
    z: Triple,
    p: real,
    q: real,
    r: real,
    pp: real,
    qq: real,
    rr: real,
    s: real,
)
    ensures
        in_frame(x, y, z, p, q, r).minus(in_frame(x, y, z, pp, qq, rr)) == in_frame(
            x,
            y,
            z,
            p - pp,
            q - qq,
            r - rr,
        ),
        in_frame(x, y, z, p, q, r).times(s) == in_frame(x, y, z, p * s, q * s, r * s),
{
    lemma_mul_distributes(x.x, p, pp);
    lemma_mul_distributes(x.y, p, pp);
    lemma_mul_distributes(x.z, p, pp);
    lemma_mul_distributes(y.x, q, qq);
    lemma_mul_distributes(y.y, q, qq);
    lemma_mul_distributes(y.z, q, qq);
    lemma_mul_distributes(z.x, r, rr);
    lemma_mul_distributes(z.y, r, rr);
    lemma_mul_distributes(z.z, r, rr);
    lemma_mul_distributes3(s, x.x * p, y.x * q, z.x * r);
    lemma_mul_distributes3(s, x.y * p, y.y * q, z.y * r);
    lemma_mul_distributes3(s, x.z * p, y.z * q, z.z * r);
    lemma_mul_assoc(x.x, p, s);
    lemma_mul_assoc(x.y, p, s);
    lemma_mul_assoc(x.z, p, s);
    lemma_mul_assoc(y.x, q, s);
    lemma_mul_assoc(y.y, q, s);
    lemma_mul_assoc(y.z, q, s);
    lemma_mul_assoc(z.x, r, s);
    lemma_mul_assoc(z.y, r, s);
    lemma_mul_assoc(z.z, r, s);
}

/// One part of the expansion of a double cross product, with the parts
/// of the three triples named by their place in a cycle of the axes.
proof fn lemma_double_cross_part(
    ai: real,
    aj: real,
    ak: real,
    bi: real,
    bj: real,
    bk: real,
    ci: real,
    cj: real,
    ck: real,
)
    ensures
        aj * (bi * cj - bj * ci) - ak * (bk * ci - bi * ck) == bi * (ai * ci + aj * cj + ak * ck)
            - ci * (ai * bi + aj * bj + ak * bk),
{
    lemma_mul_distributes(aj, bi * cj, bj * ci);
    lemma_mul_distributes(ak, bk * ci, bi * ck);
    lemma_mul_distributes3(bi, ai * ci, aj * cj, ak * ck);
    lemma_mul_distributes3(ci, ai * bi, aj * bj, ak * bk);
    lemma_mul_permutes(aj, bi, cj);
    lemma_mul_permutes(aj, bj, ci);
    lemma_mul_permutes(ak, bk, ci);
    lemma_mul_permutes(ak, bi, ck);
    lemma_mul_permutes(bi, ai, ci);
}

/// The double cross product: `a x (b x c) = b (a . c) - c (a . b)`.
pub proof fn lemma_double_cross(a: Triple, b: Triple, c: Triple)
    ensures
        a.cross(b.cross(c)) == b.times(a.dot(c)).minus(c.times(a.dot(b))),
{
    lemma_double_cross_part(a.x, a.y, a.z, b.x, b.y, b.z, c.x, c.y, c.z);
    lemma_double_cross_part(a.y, a.z, a.x, b.y, b.z, b.x, c.y, c.z, c.x);
    lemma_double_cross_part(a.z, a.x, a.y, b.z, b.x, b.y, c.z, c.x, c.y);
    let ac = a.dot(c);
    let ab = a.dot(b);
    assert(a.y * c.y + a.z * c.z + a.x * c.x == ac);
    assert(a.z * c.z + a.x * c.x + a.y * c.y == ac);
    assert(a.y * b.y + a.z * b.z + a.x * b.x == ab);
    assert(a.z * b.z + a.x * b.x + a.y * b.y == ab);
}

/// The cross product of two triples of length one at a right angle has
/// length one, and with them it makes an orthonormal frame.
pub proof fn lemma_cross_completes_frame(z: Triple, x: Triple)
    requires
        z.dot(z) == 1real,
        x.dot(x) == 1real,
        x.dot(z) == 0real,
    ensures
        orthonormal(x, z.cross(x), z),
{
    let y = z.cross(x);
    lemma_cross_is_orthogonal(z, x);
    lemma_dot_comm(x, y);
    // |y|^2 = y . (z x x) = z . (x x y), and x x (z x x) = z.
    lemma_triple_product_rotates(y, z, x);
    lemma_double_cross(x, z, x);
    lemma_mul_one(z.x);
    lemma_mul_one(z.y);
    lemma_mul_one(z.z);
    lemma_mul_zero(x.x);
    lemma_mul_zero(x.y);
    lemma_mul_zero(x.z);
    assert(x.cross(y) == z);
}

/// A triple divided by a square root of its squared length has length
/// one, and what is at a right angle to the triple is at a right angle to
/// the quotient.
pub proof fn lemma_normalized(v: Triple, m: real, w: Triple)
    requires
        m * m == v.norm_squared(),
        v.norm_squared() != 0real,
    ensures
        m != 0real,
        v.over(m).times(m) == v,
        v.over(m).norm_squared() == 1real,
        v.dot(w) == 0real ==> v.over(m).dot(w) == 0real,
{
    if m == 0real {
        lemma_mul_zero(m);
    }
    let u = v.over(m);
    lemma_div_mul(v.x, m);
    lemma_div_mul(v.y, m);
    lemma_div_mul(v.z, m);
    assert(u.times(m) == v);
    lemma_norm_squared_times(u, m);
    let n = v.norm_squared();
    let q = u.norm_squared();
    assert(n * q == n);
    lemma_mul_distributes(n, q, 1real);
    lemma_mul_one(n);
    lemma_zero_product(n, q - 1real);
    lemma_dot_times(u, m, w);
    if v.dot(w) == 0real {
        lemma_zero_product(m, u.dot(w));
    }
}

/// A factor of the second side of a cross product can be taken out.
pub proof fn lemma_cross_times(a: Triple, u: Triple, m: real)
    ensures
        a.cross(u.times(m)) == a.cross(u).times(m),
{
    lemma_mul_distributes(m, a.y * u.z, a.z * u.y);
    lemma_mul_distributes(m, a.z * u.x, a.x * u.z);
    lemma_mul_distributes(m, a.x * u.y, a.y * u.x);
    lemma_mul_assoc(a.y, u.z, m);
    lemma_mul_assoc(a.z, u.y, m);
    lemma_mul_assoc(a.z, u.x, m);
    lemma_mul_assoc(a.x, u.z, m);
    lemma_mul_assoc(a.x, u.y, m);
    lemma_mul_assoc(a.y, u.x, m);
}

} // verus!
