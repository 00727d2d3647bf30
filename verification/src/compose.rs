//! Function composition: combining two unary functions into one.
//!
//! Composition must nest (`compose(compose(f, g), h)`), and a struct of this
//! crate cannot implement `Fn`, so callable values are modelled by the
//! [`UnaryFn`] trait: plain closures enter through [`Lifted`] and the result
//! of [`compose`] is itself a [`UnaryFn`].

use std::marker::PhantomData;
use vstd::prelude::*;

verus! {

/// A unary function value: callable on an `X`, returning a `Y`.
///
/// `pre` says when the value may be applied and `post` relates argument and
/// result.  Every implementation's `call` is verified against the two spec
/// functions.
pub trait UnaryFn<X, Y>: Sized {
    /// When `call` may be invoked on `x`.
    spec fn pre(&self, x: X) -> bool;

    /// What is known of the result `y` of `call(x)`.
    spec fn post(&self, x: X, y: Y) -> bool;

    /// Apply the function to `x`.
    fn call(&self, x: X) -> (y: Y)
        requires
            self.pre(x),
        ensures
            self.post(x, y),
    ;
}

/// A plain closure used as a [`UnaryFn`].
///
/// The closure's own `requires` and `ensures` become `pre` and `post`.
#[derive(Clone, Copy)]
pub struct Lifted<F> {
    /// The wrapped closure.
    pub f: F,
}

impl<X, Y, F: Fn(X) -> Y> UnaryFn<X, Y> for Lifted<F> {
    open spec fn pre(&self, x: X) -> bool {
        call_requires(self.f, (x,))
    }

    open spec fn post(&self, x: X, y: Y) -> bool {
        call_ensures(self.f, (x,), y)
    }

    fn call(&self, x: X) -> (y: Y) {
        (self.f)(x)
    }
}

/// Spells out `pre` and `post` of a lifted closure, so that a caller holding
/// a concrete closure can use them without unfolding the impl itself.
pub proof fn lifted_spec<X, Y, F: Fn(X) -> Y>(l: Lifted<F>, x: X)
    ensures
        l.pre(x) == call_requires(l.f, (x,)),
        forall|y: Y| #[trigger] l.post(x, y) == call_ensures(l.f, (x,), y),
{
}

/// Wraps the closure `f` as a [`UnaryFn`] value.
pub fn lift<F>(f: F) -> (l: Lifted<F>)
    ensures
        l == (Lifted { f }),
{
    Lifted { f }
}

/// The function composition `F` after `G`: calling it computes `f(g(x))`.
///
/// `Y` is the intermediate type handed from `g` to `f`; it is recorded as a
/// type parameter so that the [`UnaryFn`] impl can name it.
pub struct Composed<Y, F, G> {
    /// The outer function, applied second.
    pub f: F,
    /// The inner function, applied first.
    pub g: G,
    /// Marks the intermediate type; no value is stored.
    pub mid: PhantomData<Y>,
}

impl<X, Y, Z, F: UnaryFn<Y, Z>, G: UnaryFn<X, Y>> UnaryFn<X, Z> for Composed<Y, F, G> {
    /// The composition may be applied when `g` may be, and `f` accepts
    /// whatever `g` can return.
    open spec fn pre(&self, x: X) -> bool {
        &&& self.g.pre(x)
        &&& forall|y: Y| #[trigger] self.g.post(x, y) ==> self.f.pre(y)
    }

    /// A result `z` of the composition comes through some intermediate value
    /// `y` with `g.post(x, y)` and `f.post(y, z)`.
    open spec fn post(&self, x: X, z: Z) -> bool {
        exists|y: Y| #[trigger] self.g.post(x, y) && self.f.post(y, z)
    }

    fn call(&self, x: X) -> (z: Z) {
        let y = self.g.call(x);
        self.f.call(y)
    }
}

/// Spells out `pre` and `post` of a composition in terms of its two parts,
/// so that a caller holding concrete parts can use them without unfolding
/// the impl itself.
pub proof fn composed_spec<X, Y, Z, F: UnaryFn<Y, Z>, G: UnaryFn<X, Y>>(
    c: Composed<Y, F, G>,
    x: X,
)
    ensures
        c.pre(x) == (c.g.pre(x) && forall|y: Y| #[trigger] c.g.post(x, y)
            ==> c.f.pre(y)),
        forall|z: Z| #[trigger] c.post(x, z) == exists|y: Y|
            #[trigger] c.g.post(x, y) && c.f.post(y, z),
{
}

/// Composes the functions `f` and `g` to the function `f` after `g`.
pub fn compose<X, Y, Z, F: UnaryFn<Y, Z>, G: UnaryFn<X, Y>>(f: F, g: G) -> (h: Composed<Y, F, G>)
    ensures
        h.f == f,
        h.g == g,
{
    Composed { f, g, mid: PhantomData }
}

} // verus!
