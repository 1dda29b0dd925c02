use vstd::prelude::*;

use crate::binary::double::Binary64;
use crate::binary::single::Binary32;
use crate::linalg::Mat2;
use crate::linalg::Vec2;
use crate::particle::SimConfig;

verus! {

/// A transcendental function of one argument.
#[derive(Clone, Copy, Debug, PartialEq, Eq, Structural)]
pub enum Unary {
    Exp,
    Ln,
    Sinh,
    Asin,
}

/// The numerical routines that the constitutive laws call and that have no one
/// right rounding: the embedding engine supplies them. Each is a function of its
/// arguments; nothing else is asked of it.
pub trait Numerics: Sized {
    spec fn pow_of(&self, x: Binary32, y: Binary32) -> Binary32;

    /// `x` raised to the power `y`.
    fn pow(&self, x: Binary32, y: Binary32) -> (r: Binary32)
        ensures
            r == self.pow_of(x, y),
    ;

    spec fn fast_pow_of(&self, x: Binary32, y: Binary32) -> Binary32;

    /// `x` raised to the power `y`, by the engine's own routine for hot paths.
    fn fast_pow(&self, x: Binary32, y: Binary32) -> (r: Binary32)
        ensures
            r == self.fast_pow_of(x, y),
    ;

    spec fn unary_of(&self, f: Unary, x: Binary32) -> Binary32;

    /// A transcendental function in single precision.
    fn unary(&self, f: Unary, x: Binary32) -> (r: Binary32)
        ensures
            r == self.unary_of(f, x),
    ;

    spec fn unary_double_of(&self, f: Unary, x: Binary64) -> Binary64;

    /// A transcendental function in double precision.
    fn unary_double(&self, f: Unary, x: Binary64) -> (r: Binary64)
        ensures
            r == self.unary_double_of(f, x),
    ;

    spec fn saturation_pressure_of(&self, temperature_k: Binary32) -> Binary32;

    /// The absolute saturation pressure of water, in Pa.
    fn saturation_pressure(&self, temperature_k: Binary32) -> (r: Binary32)
        ensures
            r == self.saturation_pressure_of(temperature_k),
    ;

    spec fn increment_exp_of(&self, step: Mat2) -> Mat2;

    /// The matrix exponential of a velocity gradient times a time step.
    fn increment_exp(&self, step: Mat2) -> (r: Mat2)
        ensures
            r == self.increment_exp_of(step),
    ;

    spec fn advanced_of(&self, f: Mat2, step: Mat2, volume: Binary32, initial_volume: Binary32) -> Mat2;

    /// A deformation gradient carried through `step`, with the volume ratio that the
    /// particle already carries.
    fn advanced(&self, f: Mat2, step: Mat2, volume: Binary32, initial_volume: Binary32) -> (r: Mat2)
        ensures
            r == self.advanced_of(f, step, volume, initial_volume),
    ;

    spec fn svd_of(&self, f: Mat2) -> (Mat2, Vec2, Mat2);

    /// The singular value decomposition `u * diag(sigma) * vt`, with the larger
    /// singular value first.
    fn svd(&self, f: Mat2) -> (r: (Mat2, Vec2, Mat2))
        ensures
            r == self.svd_of(f),
    ;

    spec fn scaled_stress_of(&self, si: Binary32, rho_kg_m3: Binary32, config: SimConfig) -> Binary32;

    /// A stress in Pa, in grid units.
    fn scaled_stress(&self, si: Binary32, rho_kg_m3: Binary32, config: SimConfig) -> (r: Binary32)
        ensures
            r == self.scaled_stress_of(si, rho_kg_m3, config),
    ;

    spec fn scaled_viscosity_of(
        &self,
        si: Binary32,
        rho_kg_m3: Binary32,
        config: SimConfig,
    ) -> Binary32;

    /// A dynamic viscosity in Pa s, in grid units.
    fn scaled_viscosity(&self, si: Binary32, rho_kg_m3: Binary32, config: SimConfig) -> (r: Binary32)
        ensures
            r == self.scaled_viscosity_of(si, rho_kg_m3, config),
    ;
}

/// `f` can be called on everything, and always gives the same result.
pub open spec fn is_function1<A, R, F: Fn(A) -> R>(f: F) -> bool {
    &&& forall|a: A| call_requires(f, (a,))
    &&& forall|a: A, x: R, y: R|
        call_ensures(f, (a,), x) && call_ensures(f, (a,), y) ==> x == y
}

/// What a function of one argument gives.
pub open spec fn value1<A, R, F: Fn(A) -> R>(f: F, a: A) -> R {
    choose|r: R| call_ensures(f, (a,), r)
}

/// `f` can be called on everything, and always gives the same result.
pub open spec fn is_function2<A, B, R, F: Fn(A, B) -> R>(f: F) -> bool {
    &&& forall|a: A, b: B| call_requires(f, (a, b))
    &&& forall|a: A, b: B, x: R, y: R|
        call_ensures(f, (a, b), x) && call_ensures(f, (a, b), y) ==> x == y
}

/// What a function of two arguments gives.
pub open spec fn value2<A, B, R, F: Fn(A, B) -> R>(f: F, a: A, b: B) -> R {
    choose|r: R| call_ensures(f, (a, b), r)
}

/// `f` can be called on everything, and always gives the same result.
pub open spec fn is_function3<A, B, C, R, F: Fn(A, B, C) -> R>(f: F) -> bool {
    &&& forall|a: A, b: B, c: C| call_requires(f, (a, b, c))
    &&& forall|a: A, b: B, c: C, x: R, y: R|
        call_ensures(f, (a, b, c), x) && call_ensures(f, (a, b, c), y) ==> x == y
}

/// What a function of three arguments gives.
pub open spec fn value3<A, B, C, R, F: Fn(A, B, C) -> R>(f: F, a: A, b: B, c: C) -> R {
    choose|r: R| call_ensures(f, (a, b, c), r)
}

/// `f` can be called on everything, and always gives the same result.
pub open spec fn is_function4<A, B, C, D, R, F: Fn(A, B, C, D) -> R>(f: F) -> bool {
    &&& forall|a: A, b: B, c: C, d: D| call_requires(f, (a, b, c, d))
    &&& forall|a: A, b: B, c: C, d: D, x: R, y: R|
        call_ensures(f, (a, b, c, d), x) && call_ensures(f, (a, b, c, d), y) ==> x == y
}

/// What a function of four arguments gives.
pub open spec fn value4<A, B, C, D, R, F: Fn(A, B, C, D) -> R>(
    f: F,
    a: A,
    b: B,
    c: C,
    d: D,
) -> R {
    choose|r: R| call_ensures(f, (a, b, c, d), r)
}

/// Numerical routines given as closures.
pub struct Host<P, Q, U, D, S, X, A, V, C, K> where
    P: Fn(Binary32, Binary32) -> Binary32,
    Q: Fn(Binary32, Binary32) -> Binary32,
    U: Fn(Unary, Binary32) -> Binary32,
    D: Fn(Unary, Binary64) -> Binary64,
    S: Fn(Binary32) -> Binary32,
    X: Fn(Mat2) -> Mat2,
    A: Fn(Mat2, Mat2, Binary32, Binary32) -> Mat2,
    V: Fn(Mat2) -> (Mat2, Vec2, Mat2),
    C: Fn(Binary32, Binary32, SimConfig) -> Binary32,
    K: Fn(Binary32, Binary32, SimConfig) -> Binary32,
 {
    pow: P,
    fast_pow: Q,
    unary: U,
    unary_double: D,
    saturation_pressure: S,
    increment_exp: X,
    advanced: A,
    svd: V,
    scaled_stress: C,
    scaled_viscosity: K,
}

impl<P, Q, U, D, S, X, A, V, C, K> Host<P, Q, U, D, S, X, A, V, C, K> where
    P: Fn(Binary32, Binary32) -> Binary32,
    Q: Fn(Binary32, Binary32) -> Binary32,
    U: Fn(Unary, Binary32) -> Binary32,
    D: Fn(Unary, Binary64) -> Binary64,
    S: Fn(Binary32) -> Binary32,
    X: Fn(Mat2) -> Mat2,
    A: Fn(Mat2, Mat2, Binary32, Binary32) -> Mat2,
    V: Fn(Mat2) -> (Mat2, Vec2, Mat2),
    C: Fn(Binary32, Binary32, SimConfig) -> Binary32,
    K: Fn(Binary32, Binary32, SimConfig) -> Binary32,
 {
    #[verifier::type_invariant]
    spec fn inv(&self) -> bool {
        &&& is_function2::<Binary32, Binary32, Binary32, P>(self.pow)
        &&& is_function2::<Binary32, Binary32, Binary32, Q>(self.fast_pow)
        &&& is_function2::<Unary, Binary32, Binary32, U>(self.unary)
        &&& is_function2::<Unary, Binary64, Binary64, D>(self.unary_double)
        &&& is_function1::<Binary32, Binary32, S>(self.saturation_pressure)
        &&& is_function1::<Mat2, Mat2, X>(self.increment_exp)
        &&& is_function4::<Mat2, Mat2, Binary32, Binary32, Mat2, A>(self.advanced)
        &&& is_function1::<Mat2, (Mat2, Vec2, Mat2), V>(self.svd)
        &&& is_function3::<Binary32, Binary32, SimConfig, Binary32, C>(self.scaled_stress)
        &&& is_function3::<Binary32, Binary32, SimConfig, Binary32, K>(self.scaled_viscosity)
    }

    /// The routines of an engine. Each closure is a function of its arguments.
    pub fn new(
        pow: P,
        fast_pow: Q,
        unary: U,
        unary_double: D,
        saturation_pressure: S,
        increment_exp: X,
        advanced: A,
        svd: V,
        scaled_stress: C,
        scaled_viscosity: K,
    ) -> (r: Self)
        requires
            is_function2::<Binary32, Binary32, Binary32, P>(pow),
            is_function2::<Binary32, Binary32, Binary32, Q>(fast_pow),
            is_function2::<Unary, Binary32, Binary32, U>(unary),
            is_function2::<Unary, Binary64, Binary64, D>(unary_double),
            is_function1::<Binary32, Binary32, S>(saturation_pressure),
            is_function1::<Mat2, Mat2, X>(increment_exp),
            is_function4::<Mat2, Mat2, Binary32, Binary32, Mat2, A>(advanced),
            is_function1::<Mat2, (Mat2, Vec2, Mat2), V>(svd),
            is_function3::<Binary32, Binary32, SimConfig, Binary32, C>(scaled_stress),
            is_function3::<Binary32, Binary32, SimConfig, Binary32, K>(scaled_viscosity),
        ensures
            forall|x: Binary32, y: Binary32| #[trigger]
                r.pow_of(x, y) == value2::<Binary32, Binary32, Binary32, P>(pow, x, y),
            forall|x: Binary32, y: Binary32| #[trigger]
                r.fast_pow_of(x, y) == value2::<Binary32, Binary32, Binary32, Q>(fast_pow, x, y),
            forall|f: Unary, x: Binary32| #[trigger]
                r.unary_of(f, x) == value2::<Unary, Binary32, Binary32, U>(unary, f, x),
            forall|f: Unary, x: Binary64| #[trigger]
                r.unary_double_of(f, x) == value2::<Unary, Binary64, Binary64, D>(unary_double, f, x),
            forall|t: Binary32| #[trigger]
                r.saturation_pressure_of(t) == value1::<Binary32, Binary32, S>(saturation_pressure, t),
            forall|m: Mat2| #[trigger]
                r.increment_exp_of(m) == value1::<Mat2, Mat2, X>(increment_exp, m),
            forall|f: Mat2, step: Mat2, v: Binary32, v0: Binary32| #[trigger]
                r.advanced_of(f, step, v, v0) == value4::<Mat2, Mat2, Binary32, Binary32, Mat2, A>(advanced, f, step, v, v0),
            forall|m: Mat2| #[trigger]
                r.svd_of(m) == value1::<Mat2, (Mat2, Vec2, Mat2), V>(svd, m),
            forall|x: Binary32, rho: Binary32, c: SimConfig| #[trigger]
                r.scaled_stress_of(x, rho, c) == value3::<Binary32, Binary32, SimConfig, Binary32, C>(
                    scaled_stress,
                    x,
                    rho,
                    c,
                ),
            forall|x: Binary32, rho: Binary32, c: SimConfig| #[trigger]
                r.scaled_viscosity_of(x, rho, c) == value3::<
                    Binary32,
                    Binary32,
                    SimConfig,
                    Binary32,
                    K,
                >(scaled_viscosity, x, rho, c),
    {
        Host {
            pow,
            fast_pow,
            unary,
            unary_double,
            saturation_pressure,
            increment_exp,
            advanced,
            svd,
            scaled_stress,
            scaled_viscosity,
        }
    }
}

impl<P, Q, U, D, S, X, A, V, C, K> Numerics for Host<P, Q, U, D, S, X, A, V, C, K> where
    P: Fn(Binary32, Binary32) -> Binary32,
    Q: Fn(Binary32, Binary32) -> Binary32,
    U: Fn(Unary, Binary32) -> Binary32,
    D: Fn(Unary, Binary64) -> Binary64,
    S: Fn(Binary32) -> Binary32,
    X: Fn(Mat2) -> Mat2,
    A: Fn(Mat2, Mat2, Binary32, Binary32) -> Mat2,
    V: Fn(Mat2) -> (Mat2, Vec2, Mat2),
    C: Fn(Binary32, Binary32, SimConfig) -> Binary32,
    K: Fn(Binary32, Binary32, SimConfig) -> Binary32,
 {
    closed spec fn pow_of(&self, x: Binary32, y: Binary32) -> Binary32 {
        value2::<Binary32, Binary32, Binary32, P>(self.pow, x, y)
    }

    fn pow(&self, x: Binary32, y: Binary32) -> (r: Binary32) {
        proof {
            use_type_invariant(self);
        }
        (self.pow)(x, y)
    }

    closed spec fn fast_pow_of(&self, x: Binary32, y: Binary32) -> Binary32 {
        value2::<Binary32, Binary32, Binary32, Q>(self.fast_pow, x, y)
    }

    fn fast_pow(&self, x: Binary32, y: Binary32) -> (r: Binary32) {
        proof {
            use_type_invariant(self);
        }
        (self.fast_pow)(x, y)
    }

    closed spec fn unary_of(&self, f: Unary, x: Binary32) -> Binary32 {
        value2::<Unary, Binary32, Binary32, U>(self.unary, f, x)
    }

    fn unary(&self, f: Unary, x: Binary32) -> (r: Binary32) {
        proof {
            use_type_invariant(self);
        }
        (self.unary)(f, x)
    }

    closed spec fn unary_double_of(&self, f: Unary, x: Binary64) -> Binary64 {
        value2::<Unary, Binary64, Binary64, D>(self.unary_double, f, x)
    }

    fn unary_double(&self, f: Unary, x: Binary64) -> (r: Binary64) {
        proof {
            use_type_invariant(self);
        }
        (self.unary_double)(f, x)
    }

    closed spec fn saturation_pressure_of(&self, temperature_k: Binary32) -> Binary32 {
        value1::<Binary32, Binary32, S>(self.saturation_pressure, temperature_k)
    }

    fn saturation_pressure(&self, temperature_k: Binary32) -> (r: Binary32) {
        proof {
            use_type_invariant(self);
        }
        (self.saturation_pressure)(temperature_k)
    }

    closed spec fn increment_exp_of(&self, step: Mat2) -> Mat2 {
        value1::<Mat2, Mat2, X>(self.increment_exp, step)
    }

    fn increment_exp(&self, step: Mat2) -> (r: Mat2) {
        proof {
            use_type_invariant(self);
        }
        (self.increment_exp)(step)
    }

    closed spec fn advanced_of(
        &self,
        f: Mat2,
        step: Mat2,
        volume: Binary32,
        initial_volume: Binary32,
    ) -> Mat2 {
        value4::<Mat2, Mat2, Binary32, Binary32, Mat2, A>(self.advanced, f, step, volume, initial_volume)
    }

    fn advanced(&self, f: Mat2, step: Mat2, volume: Binary32, initial_volume: Binary32) -> (r:
        Mat2) {
        proof {
            use_type_invariant(self);
        }
        (self.advanced)(f, step, volume, initial_volume)
    }

    closed spec fn svd_of(&self, f: Mat2) -> (Mat2, Vec2, Mat2) {
        value1::<Mat2, (Mat2, Vec2, Mat2), V>(self.svd, f)
    }

    fn svd(&self, f: Mat2) -> (r: (Mat2, Vec2, Mat2)) {
        proof {
            use_type_invariant(self);
        }
        (self.svd)(f)
    }

    closed spec fn scaled_stress_of(
        &self,
        si: Binary32,
        rho_kg_m3: Binary32,
        config: SimConfig,
    ) -> Binary32 {
        value3::<Binary32, Binary32, SimConfig, Binary32, C>(
            self.scaled_stress,
            si,
            rho_kg_m3,
            config,
        )
    }

    fn scaled_stress(&self, si: Binary32, rho_kg_m3: Binary32, config: SimConfig) -> (r: Binary32) {
        proof {
            use_type_invariant(self);
        }
        (self.scaled_stress)(si, rho_kg_m3, config)
    }

    closed spec fn scaled_viscosity_of(
        &self,
        si: Binary32,
        rho_kg_m3: Binary32,
        config: SimConfig,
    ) -> Binary32 {
        value3::<Binary32, Binary32, SimConfig, Binary32, K>(
            self.scaled_viscosity,
            si,
            rho_kg_m3,
            config,
        )
    }

    fn scaled_viscosity(&self, si: Binary32, rho_kg_m3: Binary32, config: SimConfig) -> (r:
        Binary32) {
        proof {
            use_type_invariant(self);
        }
        (self.scaled_viscosity)(si, rho_kg_m3, config)
    }
}

} // verus!
