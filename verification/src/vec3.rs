//! Three-component fixed-point vectors and the transforms built from them.

use vstd::prelude::*;

use crate::fixed::{
    div_milli, div_milli_i64, div_trunc, div_trunc_i64, isqrt_u128, lemma_div_milli_bound,
    lemma_sqrt_floor_bounds, sqrt_floor, FX_BOUND,
};

verus! {

/// A 3D vector of fixed-point scalars. When it stands for a position its
/// components are micro-units; when it stands for a velocity they are
/// milli-units per second.
#[derive(Clone, Copy, PartialEq, Eq, Structural, Debug)]
pub struct Vec3Fx {
    pub x: i64,
    pub y: i64,
    pub z: i64,
}

impl Vec3Fx {
    /// Every component's magnitude is at most `b`.
    pub open spec fn bounded(self, b: int) -> bool {
        &&& -b <= self.x <= b
        &&& -b <= self.y <= b
        &&& -b <= self.z <= b
    }

    /// The componentwise scaling of `v` by the milli-scaled factor `f`,
    /// each component rounded toward zero.
    pub open spec fn scaled_spec(self, f: int) -> Vec3Fx {
        Vec3Fx {
            x: div_milli(self.x * f) as i64,
            y: div_milli(self.y * f) as i64,
            z: div_milli(self.z * f) as i64,
        }
    }

    /// Scale each component by the milli-scaled factor `f`.
    pub fn scaled(self, f: i64) -> (r: Vec3Fx)
        requires
            -FX_BOUND <= self.x * f <= FX_BOUND,
            -FX_BOUND <= self.y * f <= FX_BOUND,
            -FX_BOUND <= self.z * f <= FX_BOUND,
        ensures
            r == self.scaled_spec(f as int),
    {
        Vec3Fx {
            x: div_milli_i64(self.x * f),
            y: div_milli_i64(self.y * f),
            z: div_milli_i64(self.z * f),
        }
    }

    /// The squared Euclidean length, exact on the wide integers.
    pub open spec fn len_sq_spec(self) -> int {
        self.x * self.x + self.y * self.y + self.z * self.z
    }

    /// Squared Euclidean length, computed in 128-bit arithmetic so that
    /// any `i64` components fit.
    pub fn len_sq(self) -> (r: i128)
        requires
            self.bounded(FX_BOUND as int),
        ensures
            r == self.len_sq_spec(),
            r >= 0,
    {
        let x: i128 = self.x as i128;
        let y: i128 = self.y as i128;
        let z: i128 = self.z as i128;
        assert(x * x >= 0 && y * y >= 0 && z * z >= 0) by (nonlinear_arith);
        assert(x * x <= FX_BOUND * FX_BOUND && y * y <= FX_BOUND * FX_BOUND && z * z
            <= FX_BOUND * FX_BOUND) by (nonlinear_arith)
            requires
                -FX_BOUND <= x <= FX_BOUND,
                -FX_BOUND <= y <= FX_BOUND,
                -FX_BOUND <= z <= FX_BOUND,
        ;
        x * x + y * y + z * z
    }
}

/// Magnitude bound on the operands of linear interpolation (machine
/// limit).
pub const LERP_BOUND: i64 = 1_000_000_000_000;

/// Largest interpolation factor accepted, milli-scaled (one thousand is
/// a full step onto the target).
pub const LERP_ALPHA_BOUND: i64 = 1_000_000;

impl Vec3Fx {
    /// Linear interpolation from `a` toward `b` by the milli-scaled
    /// factor `alpha`: `a + (b - a) * alpha / 1000`, each component
    /// rounded toward zero.
    pub open spec fn lerp_spec(a: Vec3Fx, b: Vec3Fx, alpha: int) -> Vec3Fx {
        Vec3Fx {
            x: (a.x + div_milli((b.x - a.x) * alpha)) as i64,
            y: (a.y + div_milli((b.y - a.y) * alpha)) as i64,
            z: (a.z + div_milli((b.z - a.z) * alpha)) as i64,
        }
    }

    /// Blend `self` toward `b` by the milli-scaled factor `alpha`.
    pub fn lerp(self, b: Vec3Fx, alpha: i64) -> (r: Vec3Fx)
        requires
            self.bounded(LERP_BOUND as int),
            b.bounded(LERP_BOUND as int),
            0 <= alpha <= LERP_ALPHA_BOUND,
        ensures
            r == Vec3Fx::lerp_spec(self, b, alpha as int),
            r.bounded(3_000_000_000_000_000),
    {
        proof {
            let d: int = 2 * LERP_BOUND as int;
            assert(-(d * LERP_ALPHA_BOUND as int) <= (b.x - self.x) * alpha <= d
                * (LERP_ALPHA_BOUND as int) && -(d * LERP_ALPHA_BOUND as int) <= (b.y - self.y)
                * alpha <= d * (LERP_ALPHA_BOUND as int) && -(d * LERP_ALPHA_BOUND as int) <= (b.z
                - self.z) * alpha <= d * (LERP_ALPHA_BOUND as int)) by (nonlinear_arith)
                requires
                    -d <= b.x - self.x <= d,
                    -d <= b.y - self.y <= d,
                    -d <= b.z - self.z <= d,
                    0 <= alpha <= LERP_ALPHA_BOUND,
            ;
            lemma_div_milli_bound((b.x - self.x) * alpha, d * LERP_ALPHA_BOUND as int);
            lemma_div_milli_bound((b.y - self.y) * alpha, d * LERP_ALPHA_BOUND as int);
            lemma_div_milli_bound((b.z - self.z) * alpha, d * LERP_ALPHA_BOUND as int);
        }
        Vec3Fx {
            x: self.x + div_milli_i64((b.x - self.x) * alpha),
            y: self.y + div_milli_i64((b.y - self.y) * alpha),
            z: self.z + div_milli_i64((b.z - self.z) * alpha),
        }
    }

    /// Blending toward the point one already stands on moves nothing.
    pub proof fn lemma_lerp_idempotent(a: Vec3Fx, alpha: int)
        ensures
            Vec3Fx::lerp_spec(a, a, alpha) == a,
    {
        assert((a.x - a.x) * alpha == 0) by (nonlinear_arith);
        assert((a.y - a.y) * alpha == 0) by (nonlinear_arith);
        assert((a.z - a.z) * alpha == 0) by (nonlinear_arith);
    }

    /// The milli-scaled unit vector along `d`: each component times 1000,
    /// divided by the floor square root of the squared length, rounded
    /// toward zero.
    pub open spec fn normalized_spec(d: Vec3Fx) -> Vec3Fx {
        let l = sqrt_floor(d.len_sq_spec());
        Vec3Fx {
            x: div_trunc(d.x * 1000, l) as i64,
            y: div_trunc(d.y * 1000, l) as i64,
            z: div_trunc(d.z * 1000, l) as i64,
        }
    }

    /// Normalize `self` to a milli-scaled direction, or report the
    /// degenerate zero vector as `None` rather than propagating a
    /// numeric fault.
    pub fn normalized(self) -> (r: Option<Vec3Fx>)
        requires
            self.bounded(LERP_BOUND as int),
        ensures
            r is None <==> self.len_sq_spec() == 0,
            r is Some ==> r->0 == Vec3Fx::normalized_spec(self),
    {
        let sq: i128 = self.len_sq();
        if sq == 0 {
            return None;
        }
        let l64: u64 = isqrt_u128(sq as u128);
        proof {
            lemma_sqrt_floor_bounds(sq as int);
            let bb: int = 2 * LERP_BOUND as int;
            assert((sq as int) <= 3 * (LERP_BOUND as int) * (LERP_BOUND as int))
                by (nonlinear_arith)
                requires
                    self.bounded(LERP_BOUND as int),
                    sq as int == self.len_sq_spec(),
            ;
            assert(l64 as int <= bb) by {
                if l64 as int > bb {
                    assert((l64 as int) * (l64 as int) > bb * bb) by (nonlinear_arith)
                        requires
                            l64 as int > bb,
                            bb > 0,
                    ;
                    assert(bb * bb >= 3 * (LERP_BOUND as int) * (LERP_BOUND as int))
                        by (nonlinear_arith)
                        requires
                            bb == 2 * LERP_BOUND as int,
                            LERP_BOUND > 0,
                    ;
                }
            };
            assert(l64 as int >= 1) by {
                assert(sq as int >= 1);
                assert((sq as int) < (l64 as int + 1) * (l64 as int + 1));
                if l64 == 0 {
                    assert((l64 as int + 1) * (l64 as int + 1) == 1) by (nonlinear_arith)
                        requires
                            l64 as int == 0,
                    ;
                }
            };
        }
        let l: i64 = l64 as i64;
        Some(
            Vec3Fx {
                x: div_trunc_i64(self.x * 1000, l),
                y: div_trunc_i64(self.y * 1000, l),
                z: div_trunc_i64(self.z * 1000, l),
            },
        )
    }
}

/// A world transform: a position, the facing direction the entity fires
/// and travels along, and its rotation about the vertical axis. The
/// facing is milli-scaled (a unit-length facing has squared component
/// sum of about one million); the yaw is in milli-radians.
#[derive(Clone, Copy, PartialEq, Eq, Structural, Debug)]
pub struct TransformFx {
    pub pos: Vec3Fx,
    pub fwd: Vec3Fx,
    pub yaw_mr: i64,
}

} // verus!
