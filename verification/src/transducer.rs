//! The transducer contract and the driver that folds one over a vector.

use vstd::prelude::*;

use crate::step::Append;
use crate::step::StepFn;

verus! {

/// The spec-level behaviour of a transducer, one element at a time.
///
/// Processing one input element either emits one element to the inner step
/// function (`Some`) or drops the element (`None`).  `emits` is a relation,
/// not a function: a transducer built from a closure knows the closure only
/// through its `ensures`, which may admit several results.  It stands apart
/// from [`Transducer`] so that statements about what a transducer emits need
/// not mention an accumulator or a step function type.
pub trait TransducerSpec<T, U>: Sized {
    /// Processing the input `u` may emit `e`.
    spec fn emits(&self, u: U, e: Option<T>) -> bool;
}

/// What one call of a wrapped step function may do to an accumulator:
/// fold the emitted element with the inner step, or, when the element is
/// dropped, hand the accumulator back untouched.
pub open spec fn emit_step<R, T, S: StepFn<R, T>>(step: S, e: Option<T>, r: R, out: R) -> bool {
    match e {
        Some(t) => step.post(r, t, out),
        None => out == r,
    }
}

/// An abstract transformation/reduction of data.
///
/// A transducer represents a transformation like `map` or `filter`.  It
/// specifies how to manipulate the data, independent of the way in which
/// that data might arrive: its one operation, [`Transducer::apply`], wraps a
/// step function over the output element type `T` into a step function over
/// the input element type `U`.
pub trait Transducer<R, T, U, S: StepFn<R, T>>: TransducerSpec<T, U> {
    /// The type of the wrapped step function that `apply` produces.
    type Step: StepFn<R, U>;

    /// When the wrapped step function may be called on accumulator `r` and
    /// input `u`, given that `apply` wrapped the inner step `step`.
    spec fn accepts(&self, step: S, r: R, u: U) -> bool;

    /// Wrap `step` with this transducer's per-element logic.
    ///
    /// The wrapped step is callable wherever `accepts` holds, and each of
    /// its calls performs exactly one emission: it folds an emitted element
    /// with `step`, or hands the accumulator back unchanged.
    fn apply(&self, step: S) -> (w: Self::Step)
        ensures
            forall|r: R, u: U| self.accepts(step, r, u) ==> #[trigger] w.pre(r, u),
            forall|r: R, u: U, out: R| #[trigger] w.post(r, u, out) ==> exists|e: Option<T>|
                self.emits(u, e) && emit_step(step, e, r, out),
    ;
}

/// The input/output relation of a whole transduction: `output` is a possible
/// result of processing every element of `input`, in order, keeping each
/// element that `trans` emits and dropping the rest.
pub open spec fn transduction<T, U, Tr: TransducerSpec<T, U>>(
    trans: Tr,
    input: Seq<U>,
    output: Seq<T>,
) -> bool
    decreases input.len(),
{
    if input.len() == 0 {
        output == Seq::<T>::empty()
    } else {
        exists|e: Option<T>|
            trans.emits(input.last(), e) && (match e {
                Some(t) => output.len() > 0 && output.last() == t && transduction(
                    trans,
                    input.drop_last(),
                    output.drop_last(),
                ),
                None => transduction(trans, input.drop_last(), output),
            })
    }
}

/// Drives the full transformation of `v` through the transducer `trans`
/// into a concrete vector, by a left fold.
#[verifier::loop_isolation(false)]
pub fn transduce<T, U, Trans: Transducer<Vec<T>, T, U, Append>>(v: Vec<U>, trans: Trans) -> (out:
    Vec<T>)
    requires
        forall|r: Vec<T>, u: U| v@.contains(u) ==> #[trigger] trans.accepts(Append, r, u),
    ensures
        transduction(trans, v@, out@),
{
    let ghost vseq = v@;
    // The step function for a vector is simply append; transduce it into
    // the desired form.
    let step = trans.apply(Append);

    // The result is obtained by performing a left fold of the step
    // function, over a collection pre-sized to the input's length.
    let mut state: Vec<T> = Vec::with_capacity(v.len());
    proof {
        assert(vseq.take(0) == Seq::<U>::empty());
    }
    for u in it: v.into_iter()
        invariant
            it.seq() == vseq,
            transduction(trans, vseq.take(it.index() as int), state@),
    {
        let ghost idx = it.index() as int;
        let ghost prev = state;
        proof {
            assert(vseq.contains(u)) by {
                assert(vseq[idx] == u);
            }
            assert(trans.accepts(Append, state, u));
            assert(step.pre(state, u));
        }
        state = step.call(state, u);
        proof {
            let e = choose|e: Option<T>|
                trans.emits(u, e) && emit_step(Append, e, prev, state);
            let taken = vseq.take(idx + 1);
            assert(taken.drop_last() == vseq.take(idx)) by {
                assert(taken.drop_last() =~= vseq.take(idx));
            }
            assert(taken.last() == u);
            match e {
                Some(t) => {
                    assert(state@ == prev@.push(t));
                    assert(state@.drop_last() =~= prev@);
                    assert(transduction(trans, taken, state@));
                },
                None => {
                    assert(state == prev);
                    assert(transduction(trans, taken, state@));
                },
            }
        }
    }
    proof {
        assert(vseq.take(vseq.len() as int) == vseq) by {
            assert(vseq.take(vseq.len() as int) =~= vseq);
        }
    }
    state
}

} // verus!
