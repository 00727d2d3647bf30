//! Step (reducing) functions: the values a transducer decorates.
//!
//! A step function folds one element into an accumulator and returns the new
//! accumulator.  The accumulator is taken and returned by value, so a caller
//! can never replay an earlier accumulator: each call consumes its input.

use vstd::prelude::*;

verus! {

/// A reducing function over accumulators of type `R` and elements of type `T`.
///
/// `pre` says when the step may be taken and `post` relates the consumed
/// accumulator, the element, and the returned accumulator.  Every
/// implementation's `call` is verified against these two spec functions, so a
/// driver that only knows the trait can still reason about what a fold
/// produced.
pub trait StepFn<R, T>: Sized {
    /// When `call` may be invoked on accumulator `r` and element `t`.
    spec fn pre(&self, r: R, t: T) -> bool;

    /// What is known of the accumulator `out` returned by `call(r, t)`.
    spec fn post(&self, r: R, t: T, out: R) -> bool;

    /// Fold the element `t` into the accumulator `r`.
    fn call(&self, r: R, t: T) -> (out: R)
        requires
            self.pre(r, t),
        ensures
            self.post(r, t, out),
    ;
}

/// The terminal step function of the [`crate::transducer::transduce`] driver:
/// it appends the element at the end of a vector.
#[derive(Clone, Copy)]
pub struct Append;

impl<T> StepFn<Vec<T>, T> for Append {
    open spec fn pre(&self, r: Vec<T>, t: T) -> bool {
        true
    }

    open spec fn post(&self, r: Vec<T>, t: T, out: Vec<T>) -> bool {
        out@ == r@.push(t)
    }

    fn call(&self, r: Vec<T>, t: T) -> (out: Vec<T>) {
        let mut out = r;
        out.push(t);
        out
    }
}

/// A plain closure used as a step function.
///
/// The closure's own `requires` and `ensures` become the step's `pre` and
/// `post`, so any two-argument closure can serve as the innermost step of a
/// transducer.
#[derive(Clone, Copy)]
pub struct LiftedStep<F> {
    /// The wrapped closure.
    pub f: F,
}

impl<R, T, F: Fn(R, T) -> R> StepFn<R, T> for LiftedStep<F> {
    open spec fn pre(&self, r: R, t: T) -> bool {
        call_requires(self.f, (r, t))
    }

    open spec fn post(&self, r: R, t: T, out: R) -> bool {
        call_ensures(self.f, (r, t), out)
    }

    fn call(&self, r: R, t: T) -> (out: R) {
        (self.f)(r, t)
    }
}

/// Spells out `pre` and `post` of a lifted step closure, so that a caller
/// holding a concrete closure can use them without unfolding the impl
/// itself.
pub proof fn lifted_step_spec<R, T, F: Fn(R, T) -> R>(l: LiftedStep<F>, r: R, t: T)
    ensures
        l.pre(r, t) == call_requires(l.f, (r, t)),
        forall|out: R| #[trigger] l.post(r, t, out) == call_ensures(l.f, (r, t), out),
{
}

} // verus!
