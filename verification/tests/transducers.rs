use transducers::StepFn;
use transducers::Transducer;
use transducers::UnaryFn;
use transducers::LiftedStep;
use transducers::compose;
use transducers::filtering;
use transducers::lift;
use transducers::mapping;
use transducers::transduce;

#[test]
fn compose_is_associative() {
    let f = |x: i32| x * 2;
    let g = |x: i32| x + 2;
    let h = |x: i32| x * x;
    assert_eq!(compose(compose(lift(f), lift(g)), lift(h)).call(42), 3532);
    let f = |x: i32| x * 2;
    let g = |x: i32| x + 2;
    let h = |x: i32| x * x;
    assert_eq!(compose(lift(f), compose(lift(g), lift(h))).call(42), 3532);
}

#[test]
fn compose_typechecks() {
    let f = |x: Option<i16>| if let Some(n) = x { n } else { 0 };
    let g = |x: u16| i16::try_from(x).ok();
    let h = compose(lift(f), lift(g));
    assert_eq!(h.call(42), 42);
    assert_eq!(h.call(65535), 0);
}

#[test]
fn compose_with_id_is_id() {
    let id = |x: i32| x;
    let ff = |x: i32| x * 2;
    assert_eq!(ff(42), compose(lift(id), lift(ff)).call(42));
    let id = |x: i32| x;
    let ff = |x: i32| x * 2;
    assert_eq!(ff(42), compose(lift(ff), lift(id)).call(42));
}

#[test]
fn mapping_on_iter() {
    let f = |x: &i32| *x * 2;
    let g = |x: i32| x * 2;
    let m = mapping(f);
    let n = mapping(g);
    let v = vec![2i32, 3, 5, 7, 11];
    let refs: Vec<&i32> = v.iter().collect();
    let w = transduce(refs, m);
    let x = transduce(v, n);
    assert_eq!(w, vec![4i32, 6, 10, 14, 22]);
    assert_eq!(w, x);
}

#[test]
fn filtering_on_iter() {
    let p = |x: &i32| *x % 2 == 0;
    let q = |x: &i32| *x % 3 != 0;
    let f = filtering(p);
    let h = filtering(q);
    let v = vec![2i32, 3, 5, 6, 7, 11];
    let w = transduce(v.clone(), f);
    let x = transduce(v.clone(), h);
    assert_eq!(w, vec![2i32, 6]);
    assert_eq!(x, vec![2i32, 5, 7, 11]);
}

#[test]
fn mapping_changes_type() {
    let v: Vec<&str> = vec!["a", "bc", "def"];
    let lengths = transduce(v, mapping(|s: &str| s.len()));
    assert_eq!(lengths, vec![1usize, 2, 3]);
    let v2: Vec<usize> = vec![1, 2, 3];
    let words = transduce(v2, mapping(|n: usize| "x".repeat(n)));
    assert_eq!(words, vec!["x".to_string(), "xx".to_string(), "xxx".to_string()]);
}

#[test]
fn filtering_never_steps_rejected() {
    // A step function that fails the test if it ever sees a rejected element.
    let step = |r: Vec<i32>, t: i32| {
        assert!(t % 2 == 0, "step invoked on a rejected element");
        let mut r = r;
        r.push(t);
        r
    };
    let p = |x: &i32| *x % 2 == 0;
    let wrapped = filtering(p).apply(LiftedStep { f: step });
    let mut state: Vec<i32> = Vec::new();
    for t in [2i32, 3, 5, 6, 7, 11] {
        state = wrapped.call(state, t);
    }
    assert_eq!(state, vec![2i32, 6]);
}

#[test]
fn empty_input_yields_empty_output() {
    let mapped = transduce(Vec::<i32>::new(), mapping(|x: i32| x + 1));
    assert_eq!(mapped, Vec::<i32>::new());
    let filtered = transduce(Vec::<i32>::new(), filtering(|_x: &i32| true));
    assert_eq!(filtered, Vec::<i32>::new());
}

#[test]
fn lifted_calls_closure() {
    let inc = lift(|x: u64| x + 1);
    assert_eq!(inc.call(41), 42);
}

#[test]
fn mapping_keeps_order_and_length() {
    let v = vec![5i32, -3, 0, 7];
    let w = transduce(v, mapping(|x: i32| x - 1));
    assert_eq!(w, vec![4i32, -4, -1, 6]);
}

#[test]
fn filtering_keeps_all_or_none() {
    let v = vec![1i32, 2, 3];
    let all = transduce(v.clone(), filtering(|_x: &i32| true));
    assert_eq!(all, vec![1i32, 2, 3]);
    let none = transduce(v, filtering(|_x: &i32| false));
    assert_eq!(none, Vec::<i32>::new());
}

#[test]
fn compose_feeds_mapping() {
    // A composed function, wrapped back into a closure, used as a transform.
    let double = |x: i32| x * 2;
    let add_two = |x: i32| x + 2;
    let c = compose(lift(double), lift(add_two));
    let v = vec![1i32, 2, 3];
    let w = transduce(v, mapping(|x: i32| c.call(x)));
    assert_eq!(w, vec![6i32, 8, 10]);
}
