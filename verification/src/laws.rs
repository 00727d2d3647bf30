//! The laws of the library, stated and proved once and for all.

use vstd::prelude::*;

use crate::compose::Composed;
use crate::compose::UnaryFn;
use crate::step::StepFn;
use crate::transducer::TransducerSpec;
use crate::transducer::transduction;
use crate::transform::FilterStep;
use crate::transform::Filtering;
use crate::transform::Mapping;

verus! {

/// Composition associativity: the two nestings of `compose` over the same
/// three functions accept exactly the same inputs and admit exactly the same
/// argument/result pairs, so for every input both yield identical results.
///
/// `c1` is `compose(compose(f, g), h)` and `c2` is `compose(f, compose(g, h))`
/// over the same `f`, `g` and `h`, as the `requires` states field by field.
pub proof fn compose_associative<W, X, Y, Z, F, G, H>(
    c1: Composed<X, Composed<Y, F, G>, H>,
    c2: Composed<Y, F, Composed<X, G, H>>,
    w: W,
    z: Z,
) where H: UnaryFn<W, X>, G: UnaryFn<X, Y>, F: UnaryFn<Y, Z>
    requires
        c1.f.f == c2.f,
        c1.f.g == c2.g.f,
        c1.g == c2.g.g,
    ensures
        c1.pre(w) <==> c2.pre(w),
        c1.post(w, z) <==> c2.post(w, z),
{
    let f = c1.f.f;
    let g = c1.f.g;
    let h = c1.g;
    assert(c1.pre(w) ==> c2.pre(w)) by {
        if c1.pre(w) {
            assert forall|y: Y| #[trigger] c2.g.post(w, y) implies f.pre(y) by {
                let x = choose|x: X| h.post(w, x) && g.post(x, y);
                assert(c1.f.pre(x));
            }
            assert(c2.pre(w));
        }
    }
    assert(c2.pre(w) ==> c1.pre(w)) by {
        if c2.pre(w) {
            assert forall|x: X| #[trigger] h.post(w, x) implies c1.f.pre(x) by {
                assert forall|y: Y| #[trigger] g.post(x, y) implies f.pre(y) by {
                    assert(c2.g.post(w, y));
                }
            }
            assert(c1.pre(w));
        }
    }
    assert(c1.post(w, z) ==> c2.post(w, z)) by {
        if c1.post(w, z) {
            let x = choose|x: X| c1.g.post(w, x) && c1.f.post(x, z);
            let y = choose|y: Y| g.post(x, y) && f.post(y, z);
            assert(c2.g.post(w, y));
            assert(c2.post(w, z));
        }
    }
    assert(c2.post(w, z) ==> c1.post(w, z)) by {
        if c2.post(w, z) {
            let y = choose|y: Y| c2.g.post(w, y) && f.post(y, z);
            let x = choose|x: X| h.post(w, x) && g.post(x, y);
            assert(c1.f.post(x, z));
            assert(c1.post(w, z));
        }
    }
}

/// Composition identity law, left side: when `c.f` behaves as the identity
/// (always callable, and returning exactly its argument), `compose(c.f, f)`
/// accepts exactly `f`'s inputs and admits exactly `f`'s argument/result
/// pairs.
pub proof fn compose_identity_left<X, Y, F, I>(c: Composed<Y, I, F>, x: X, y: Y) where
    F: UnaryFn<X, Y>,
    I: UnaryFn<Y, Y>,

    requires
        forall|a: Y| #[trigger] c.f.pre(a),
        forall|a: Y| #[trigger] c.f.post(a, a),
        forall|a: Y, b: Y| #[trigger] c.f.post(a, b) ==> b == a,
    ensures
        c.pre(x) <==> c.g.pre(x),
        c.post(x, y) <==> c.g.post(x, y),
{
    assert(c.g.post(x, y) ==> c.post(x, y)) by {
        if c.g.post(x, y) {
            assert(c.f.post(y, y));
        }
    }
}

/// Composition identity law, right side: when `c.g` behaves as the identity,
/// `compose(f, c.g)` accepts exactly `f`'s inputs and admits exactly `f`'s
/// argument/result pairs.
pub proof fn compose_identity_right<X, Y, F, I>(c: Composed<X, F, I>, x: X, y: Y) where
    I: UnaryFn<X, X>,
    F: UnaryFn<X, Y>,

    requires
        forall|a: X| #[trigger] c.g.pre(a),
        forall|a: X| #[trigger] c.g.post(a, a),
        forall|a: X, b: X| #[trigger] c.g.post(a, b) ==> b == a,
    ensures
        c.pre(x) <==> c.f.pre(x),
        c.post(x, y) <==> c.f.post(x, y),
{
    assert(c.f.post(x, y) ==> c.post(x, y)) by {
        if c.f.post(x, y) {
            assert(c.g.post(x, x));
        }
    }
    assert(c.f.pre(x) ==> c.pre(x)) by {
        if c.f.pre(x) {
            assert forall|a: X| #[trigger] c.g.post(x, a) implies c.f.pre(a) by {
            }
        }
    }
    assert(c.pre(x) ==> c.f.pre(x)) by {
        if c.pre(x) {
            assert(c.g.post(x, x));
        }
    }
}

/// Mapping equivalence: when the transform's `ensures` pins its result to
/// the function `fm`, any transduction through `mapping(f)` yields exactly
/// the input sequence mapped through `fm`: same length, same order.
pub proof fn mapping_equivalence<T, U, F: Fn(U) -> T>(
    m: Mapping<F>,
    v: Seq<U>,
    out: Seq<T>,
    fm: spec_fn(U) -> T,
)
    requires
        transduction(m, v, out),
        forall|u: U, t: T| v.contains(u) && #[trigger] call_ensures(m.f, (u,), t) ==> t == fm(u),
    ensures
        out == v.map_values(fm),
    decreases v.len(),
{
    if v.len() == 0 {
        assert(out =~= v.map_values(fm));
    } else {
        assert(v.contains(v.last()));
        assert forall|u: U| v.drop_last().contains(u) implies v.contains(u) by {
            let i = choose|i: int| 0 <= i < v.drop_last().len() && v.drop_last()[i] == u;
            assert(v[i] == u);
        }
        let e = choose|e: Option<T>|
            m.emits(v.last(), e) && (match e {
                Some(t) => out.len() > 0 && out.last() == t && transduction(
                    m,
                    v.drop_last(),
                    out.drop_last(),
                ),
                None => transduction(m, v.drop_last(), out),
            });
        let t0 = choose|t0: T| call_ensures(m.f, (v.last(),), t0) && e == Some(t0);
        assert(t0 == fm(v.last()));
        match e {
            Some(t) => {
                mapping_equivalence(m, v.drop_last(), out.drop_last(), fm);
                assert(out.drop_last().len() == out.len() - 1);
                assert(v.drop_last().map_values(fm).len() == v.drop_last().len());
                assert(out.len() == v.len());
                assert forall|i: int| 0 <= i < out.len() implies out[i] == fm(v[i]) by {
                    if i < out.len() - 1 {
                        assert(out[i] == out.drop_last()[i]);
                        assert(out.drop_last()[i] == v.drop_last().map_values(fm)[i]);
                        assert(v.drop_last()[i] == v[i]);
                    } else {
                        assert(out[i] == out.last());
                    }
                }
                assert(out =~= v.map_values(fm));
            },
            None => {
                assert(false);
            },
        }
    }
}

/// Filtering equivalence: when the predicate's `ensures` pins its result to
/// the predicate `pr`, any transduction through `filtering(p)` yields exactly
/// the order-preserving subsequence of the input containing the elements
/// satisfying `pr`.
pub proof fn filtering_equivalence<T, P: Fn(&T) -> bool>(
    l: Filtering<P>,
    v: Seq<T>,
    out: Seq<T>,
    pr: spec_fn(T) -> bool,
)
    requires
        transduction(l, v, out),
        forall|t: T, b: bool| v.contains(t) && #[trigger] call_ensures(l.p, (&t,), b) ==> b == pr(
            t,
        ),
    ensures
        out == v.filter(pr),
    decreases v.len(),
{
    reveal(Seq::filter);
    if v.len() == 0 {
        assert(out =~= v.filter(pr));
    } else {
        assert(v.contains(v.last()));
        assert forall|t: T| v.drop_last().contains(t) implies v.contains(t) by {
            let i = choose|i: int| 0 <= i < v.drop_last().len() && v.drop_last()[i] == t;
            assert(v[i] == t);
        }
        let e = choose|e: Option<T>|
            l.emits(v.last(), e) && (match e {
                Some(t) => out.len() > 0 && out.last() == t && transduction(
                    l,
                    v.drop_last(),
                    out.drop_last(),
                ),
                None => transduction(l, v.drop_last(), out),
            });
        let b0 = choose|b0: bool|
            call_ensures(l.p, (&v.last(),), b0) && e == (if b0 {
                Some(v.last())
            } else {
                None
            });
        assert(b0 == pr(v.last()));
        match e {
            Some(t) => {
                filtering_equivalence(l, v.drop_last(), out.drop_last(), pr);
                assert(out =~= v.filter(pr));
            },
            None => {
                filtering_equivalence(l, v.drop_last(), out, pr);
            },
        }
    }
}

/// No side channel on rejection: when the predicate can only reject `t`,
/// the filtering step's contract alone forces the accumulator through
/// unchanged, and the step is callable with no demand at all on the wrapped
/// inner step.
pub proof fn filtering_rejection<R, T, P: Fn(&T) -> bool, S: StepFn<R, T>>(
    fs: FilterStep<P, S>,
    r: R,
    t: T,
    out: R,
)
    requires
        forall|b: bool| #[trigger] call_ensures(fs.p, (&t,), b) ==> !b,
    ensures
        fs.post(r, t, out) ==> out == r,
        call_requires(fs.p, (&t,)) ==> fs.pre(r, t),
{
}

/// Empty input: a transduction of the empty sequence yields the empty
/// sequence, whatever the transducer.
pub proof fn transduction_empty<T, U, Tr: TransducerSpec<T, U>>(trans: Tr, out: Seq<T>)
    requires
        transduction(trans, Seq::<U>::empty(), out),
    ensures
        out == Seq::<T>::empty(),
{
}

} // verus!
