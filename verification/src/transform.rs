//! The two canonical transducers: mapping and filtering.

use vstd::prelude::*;

use crate::step::StepFn;
use crate::transducer::Transducer;
use crate::transducer::TransducerSpec;
use crate::transducer::emit_step;

verus! {

/// A transducer built from one transform function: each input element is
/// transformed before being folded.
#[derive(Clone, Copy)]
pub struct Mapping<F> {
    /// The transform applied to every element.
    pub f: F,
}

/// Constructs a [`Mapping`] transducer from the transform function `f`.
pub fn mapping<F>(f: F) -> (m: Mapping<F>)
    ensures
        m == (Mapping { f }),
{
    Mapping { f }
}

/// The step function `mapping(f).apply(step)` produces: it computes
/// `step(r, f(x))`.
#[derive(Clone, Copy)]
pub struct MapStep<F, S> {
    /// The transform applied to every element.
    pub f: F,
    /// The wrapped inner step function.
    pub inner: S,
}

impl<T, U, F: Fn(U) -> T> TransducerSpec<T, U> for Mapping<F> {
    /// Mapping emits exactly one element per input: a possible result of
    /// the transform.  It never drops an element.
    open spec fn emits(&self, u: U, e: Option<T>) -> bool {
        exists|t: T| #[trigger] call_ensures(self.f, (u,), t) && e == Some(t)
    }
}

impl<R, T, U, F: Fn(U) -> T, S: StepFn<R, T>> StepFn<R, U> for MapStep<F, S> {
    /// The transform must accept the element, and the inner step whatever
    /// the transform can make of it.
    open spec fn pre(&self, r: R, u: U) -> bool {
        &&& call_requires(self.f, (u,))
        &&& forall|t: T| #[trigger] call_ensures(self.f, (u,), t) ==> self.inner.pre(r, t)
    }

    /// The new accumulator comes from folding some possible transform
    /// result with the inner step.
    open spec fn post(&self, r: R, u: U, out: R) -> bool {
        exists|t: T| #[trigger] call_ensures(self.f, (u,), t) && self.inner.post(r, t, out)
    }

    fn call(&self, r: R, u: U) -> (out: R) {
        let t = (self.f)(u);
        self.inner.call(r, t)
    }
}

impl<R, T, U, F: Fn(U) -> T + Copy, S: StepFn<R, T>> Transducer<R, T, U, S> for Mapping<F> {
    type Step = MapStep<F, S>;

    open spec fn accepts(&self, step: S, r: R, u: U) -> bool {
        &&& call_requires(self.f, (u,))
        &&& forall|t: T| #[trigger] call_ensures(self.f, (u,), t) ==> step.pre(r, t)
    }

    fn apply(&self, step: S) -> (w: Self::Step) {
        let w = MapStep { f: self.f, inner: step };
        proof {
            assert forall|r: R, u: U, out: R| #[trigger] w.post(r, u, out) implies exists|
                e: Option<T>,
            | self.emits(u, e) && emit_step(step, e, r, out) by {
                let t = choose|t: T| call_ensures(self.f, (u,), t) && w.inner.post(r, t, out);
                assert(self.emits(u, Some(t)));
                assert(emit_step(step, Some(t), r, out));
            }
        }
        w
    }
}

/// Spells out what [`Mapping`] emits, so that a caller holding a concrete
/// transform closure can use it without unfolding the impl itself.
pub proof fn mapping_emits_spec<T, U, F: Fn(U) -> T>(m: Mapping<F>, u: U, e: Option<T>)
    ensures
        m.emits(u, e) == exists|t: T|
            #[trigger] call_ensures(m.f, (u,), t) && e == Some(t),
{
}

/// Spells out when the step wrapped by [`Mapping`] may be called, so that a
/// caller holding a concrete transform closure can use it without unfolding
/// the impl itself.
pub proof fn mapping_accepts_spec<R, T, U, F: Fn(U) -> T + Copy, S: StepFn<R, T>>(
    m: Mapping<F>,
    step: S,
    r: R,
    u: U,
)
    ensures
        m.accepts(step, r, u) == (call_requires(m.f, (u,)) && forall|t: T|
            #[trigger] call_ensures(m.f, (u,), t) ==> step.pre(r, t)),
{
}

/// Spells out `pre` and `post` of a [`MapStep`], so that a caller holding a
/// concrete transform closure can use them without unfolding the impl
/// itself.
pub proof fn map_step_spec<R, T, U, F: Fn(U) -> T, S: StepFn<R, T>>(
    ms: MapStep<F, S>,
    r: R,
    u: U,
)
    ensures
        ms.pre(r, u) == (call_requires(ms.f, (u,)) && forall|t: T|
            #[trigger] call_ensures(ms.f, (u,), t) ==> ms.inner.pre(r, t)),
        forall|out: R| #[trigger] ms.post(r, u, out) == exists|t: T|
            #[trigger] call_ensures(ms.f, (u,), t) && ms.inner.post(r, t, out),
{
}

/// A transducer built from one predicate: only elements satisfying the
/// predicate are folded; rejected elements pass the accumulator through
/// unchanged.
#[derive(Clone, Copy)]
pub struct Filtering<P> {
    /// The predicate that decides which elements are kept.
    pub p: P,
}

/// Constructs a [`Filtering`] transducer from the predicate `p`.
pub fn filtering<P>(p: P) -> (l: Filtering<P>)
    ensures
        l == (Filtering { p }),
{
    Filtering { p }
}

/// The step function `filtering(p).apply(step)` produces: it computes
/// `if p(&x) { step(r, x) } else { r }`.
#[derive(Clone, Copy)]
pub struct FilterStep<P, S> {
    /// The predicate that decides which elements are kept.
    pub p: P,
    /// The wrapped inner step function.
    pub inner: S,
}

impl<T, P: Fn(&T) -> bool> TransducerSpec<T, T> for Filtering<P> {
    /// Filtering emits the element itself when the predicate can accept it,
    /// and drops it when the predicate can reject it.
    open spec fn emits(&self, u: T, e: Option<T>) -> bool {
        exists|b: bool| #[trigger] call_ensures(self.p, (&u,), b) && e == (if b {
            Some(u)
        } else {
            None
        })
    }
}

impl<R, T, P: Fn(&T) -> bool, S: StepFn<R, T>> StepFn<R, T> for FilterStep<P, S> {
    /// The predicate must accept the element; the inner step is only ever
    /// needed for elements the predicate can let through.
    open spec fn pre(&self, r: R, t: T) -> bool {
        &&& call_requires(self.p, (&t,))
        &&& forall|b: bool| #[trigger] call_ensures(self.p, (&t,), b) && b ==> self.inner.pre(r, t)
    }

    /// On acceptance the inner step runs; on rejection the accumulator is
    /// handed back untouched.
    open spec fn post(&self, r: R, t: T, out: R) -> bool {
        exists|b: bool| #[trigger] call_ensures(self.p, (&t,), b) && (if b {
            self.inner.post(r, t, out)
        } else {
            out == r
        })
    }

    fn call(&self, r: R, t: T) -> (out: R) {
        if (self.p)(&t) {
            self.inner.call(r, t)
        } else {
            r
        }
    }
}

impl<R, T, P: Fn(&T) -> bool + Copy, S: StepFn<R, T>> Transducer<R, T, T, S> for Filtering<P> {
    type Step = FilterStep<P, S>;

    open spec fn accepts(&self, step: S, r: R, u: T) -> bool {
        &&& call_requires(self.p, (&u,))
        &&& forall|b: bool| #[trigger] call_ensures(self.p, (&u,), b) && b ==> step.pre(r, u)
    }

    fn apply(&self, step: S) -> (w: Self::Step) {
        let w = FilterStep { p: self.p, inner: step };
        proof {
            assert forall|r: R, u: T, out: R| #[trigger] w.post(r, u, out) implies exists|
                e: Option<T>,
            | self.emits(u, e) && emit_step(step, e, r, out) by {
                let b = choose|b: bool|
                    call_ensures(self.p, (&u,), b) && (if b {
                        w.inner.post(r, u, out)
                    } else {
                        out == r
                    });
                if b {
                    assert(self.emits(u, Some(u)));
                    assert(emit_step(step, Some(u), r, out));
                } else {
                    assert(self.emits(u, None::<T>));
                    assert(emit_step(step, None::<T>, r, out));
                }
            }
        }
        w
    }
}

/// Spells out when the step wrapped by [`Filtering`] may be called, so that
/// a caller holding a concrete predicate closure can use it without
/// unfolding the impl itself.
pub proof fn filtering_accepts_spec<R, T, P: Fn(&T) -> bool + Copy, S: StepFn<R, T>>(
    l: Filtering<P>,
    step: S,
    r: R,
    u: T,
)
    ensures
        l.accepts(step, r, u) == (call_requires(l.p, (&u,)) && forall|b: bool|
            #[trigger] call_ensures(l.p, (&u,), b) && b ==> step.pre(r, u)),
{
}

/// Spells out what [`Filtering`] emits, so that a caller holding a concrete
/// predicate closure can use it without unfolding the impl itself.
pub proof fn filtering_emits_spec<T, P: Fn(&T) -> bool>(
    l: Filtering<P>,
    u: T,
    e: Option<T>,
)
    ensures
        l.emits(u, e) == exists|b: bool|
            #[trigger] call_ensures(l.p, (&u,), b) && e == (if b {
                Some(u)
            } else {
                None
            }),
{
}

/// Spells out `pre` and `post` of a [`FilterStep`], so that a caller holding
/// a concrete predicate closure can use them without unfolding the impl
/// itself.
pub proof fn filter_step_spec<R, T, P: Fn(&T) -> bool, S: StepFn<R, T>>(
    fs: FilterStep<P, S>,
    r: R,
    t: T,
)
    ensures
        fs.pre(r, t) == (call_requires(fs.p, (&t,)) && forall|b: bool|
            #[trigger] call_ensures(fs.p, (&t,), b) && b ==> fs.inner.pre(r, t)),
        forall|out: R| #[trigger] fs.post(r, t, out) == exists|b: bool|
            #[trigger] call_ensures(fs.p, (&t,), b) && (if b {
                fs.inner.post(r, t, out)
            } else {
                out == r
            }),
{
}

} // verus!
