//! Computations as values.
//!
//! A computation is described by two predicates: the arguments it accepts and
//! the results it may yield for an accepted argument. Closures are wrapped so
//! that they can stand wherever a computation is expected, and the structures
//! of this module join computations without copying them.

use vstd::prelude::*;
use std::rc::Rc;
use std::marker::PhantomData;

verus! {

/// A computation of one argument.
pub trait Apply<A, B> {
    /// Whether the computation may be run on `arg`.
    spec fn accepts(&self, arg: &A) -> bool;

    /// Whether `out` is a result that the computation may give for `arg`.
    spec fn yields(&self, arg: &A, out: B) -> bool;

    fn apply(&self, arg: &A) -> (out: B)
        requires
            self.accepts(arg),
        ensures
            self.yields(arg, out),
    ;
}

/// A computation of two arguments.
pub trait Apply2<A, B, C> {
    /// Whether the computation may be run on `(first, second)`.
    spec fn accepts(&self, first: &A, second: &B) -> bool;

    /// Whether `out` is a result that the computation may give for `(first, second)`.
    spec fn yields(&self, first: &A, second: &B, out: C) -> bool;

    fn apply(&self, first: &A, second: &B) -> (out: C)
        requires
            self.accepts(first, second),
        ensures
            self.yields(first, second, out),
    ;
}

/// Hands out another handle to a shared value.
///
/// Wraps `Rc::clone`, which returns a pointer to the same allocation: the value
/// behind the new handle is the value behind the old one.
#[verifier::external_body]
pub(crate) fn share<T>(handle: &Rc<T>) -> (other: Rc<T>)
    ensures
        other == *handle,
{
    Rc::clone(handle)
}

/// A closure of one argument, as a computation.
pub struct FromFn<F> {
    pub f: F,
}

impl<A, B, F: Fn(&A) -> B> Apply<A, B> for FromFn<F> {
    open spec fn accepts(&self, arg: &A) -> bool {
        call_requires(self.f, (arg,))
    }

    open spec fn yields(&self, arg: &A, out: B) -> bool {
        call_ensures(self.f, (arg,), out)
    }

    fn apply(&self, arg: &A) -> (out: B) {
        (self.f)(arg)
    }
}

/// A closure of one argument that returns its result in a box, as a
/// computation that always gives a result: `Some` of what the closure returns.
pub struct FromBoxedFn<F> {
    pub f: F,
}

impl<A, B, F: Fn(&A) -> Box<B>> Apply<A, Option<B>> for FromBoxedFn<F> {
    open spec fn accepts(&self, arg: &A) -> bool {
        call_requires(self.f, (arg,))
    }

    open spec fn yields(&self, arg: &A, out: Option<B>) -> bool {
        out matches Some(given) && call_ensures(self.f, (arg,), Box::new(given))
    }

    fn apply(&self, arg: &A) -> (out: Option<B>) {
        Some(*(self.f)(arg))
    }
}

/// A closure of two arguments, as a computation.
pub struct FromFn2<F> {
    pub f: F,
}

impl<A, B, C, F: Fn(&A, &B) -> C> Apply2<A, B, C> for FromFn2<F> {
    open spec fn accepts(&self, first: &A, second: &B) -> bool {
        call_requires(self.f, (first, second))
    }

    open spec fn yields(&self, first: &A, second: &B, out: C) -> bool {
        call_ensures(self.f, (first, second), out)
    }

    fn apply(&self, first: &A, second: &B) -> (out: C) {
        (self.f)(first, second)
    }
}

/// A closure of two arguments that returns its result in a box, as a
/// computation that always gives a result: `Some` of what the closure returns.
pub struct FromBoxedFn2<F> {
    pub f: F,
}

impl<A, B, C, F: Fn(&A, &B) -> Box<C>> Apply2<A, B, Option<C>> for FromBoxedFn2<F> {
    open spec fn accepts(&self, first: &A, second: &B) -> bool {
        call_requires(self.f, (first, second))
    }

    open spec fn yields(&self, first: &A, second: &B, out: Option<C>) -> bool {
        out matches Some(given) && call_ensures(self.f, (first, second), Box::new(given))
    }

    fn apply(&self, first: &A, second: &B) -> (out: Option<C>) {
        Some(*(self.f)(first, second))
    }
}

/// The computation that gives nothing, whatever it is run on. It is the type
/// of a map or a hint that a relation does not have.
pub struct NoMap;

impl<A, B> Apply<A, Option<B>> for NoMap {
    open spec fn accepts(&self, arg: &A) -> bool {
        true
    }

    open spec fn yields(&self, arg: &A, out: Option<B>) -> bool {
        out is None
    }

    fn apply(&self, arg: &A) -> (out: Option<B>) {
        None
    }
}

impl<A, B, C> Apply2<A, B, Option<C>> for NoMap {
    open spec fn accepts(&self, first: &A, second: &B) -> bool {
        true
    }

    open spec fn yields(&self, first: &A, second: &B, out: Option<C>) -> bool {
        out is None
    }

    fn apply(&self, first: &A, second: &B) -> (out: Option<C>) {
        None
    }
}

/// `inner` followed by `outer`, through an intermediate value of type `X`.
/// Both parts are shared with whoever else holds them.
pub struct Chained<X, C0, C1> {
    pub inner: Rc<C0>,
    pub outer: Rc<C1>,
    pub through: PhantomData<X>,
}

impl<A, X, B, C0: Apply<A, X>, C1: Apply<X, B>> Apply<A, B> for Chained<X, C0, C1> {
    /// `inner` accepts the argument and `outer` accepts whatever `inner` may yield.
    open spec fn accepts(&self, arg: &A) -> bool {
        &&& self.inner.accepts(arg)
        &&& forall|mid: X| #[trigger] self.inner.yields(arg, mid) ==> self.outer.accepts(&mid)
    }

    /// `out` is what `outer` may yield for something that `inner` may yield.
    open spec fn yields(&self, arg: &A, out: B) -> bool {
        exists|mid: X| #[trigger] self.inner.yields(arg, mid) && self.outer.yields(&mid, out)
    }

    fn apply(&self, arg: &A) -> (out: B) {
        let mid = self.inner.apply(arg);
        self.outer.apply(&mid)
    }
}

/// `inner` followed by `outer`, where either may give nothing: the chain gives
/// what `outer` gives for what `inner` gives, and nothing where `inner` gives
/// nothing. Both parts are shared with whoever else holds them.
pub struct ChainedMap<X, C0, C1> {
    pub inner: Rc<C0>,
    pub outer: Rc<C1>,
    pub through: PhantomData<X>,
}

impl<A, X, B, C0: Apply<A, Option<X>>, C1: Apply<X, Option<B>>> Apply<A, Option<B>> for ChainedMap<
    X,
    C0,
    C1,
> {
    open spec fn accepts(&self, arg: &A) -> bool {
        &&& self.inner.accepts(arg)
        &&& forall|mid: X| #[trigger] self.inner.yields(arg, Some(mid)) ==> self.outer.accepts(&mid)
    }

    open spec fn yields(&self, arg: &A, out: Option<B>) -> bool {
        exists|step: Option<X>| #[trigger]
            self.inner.yields(arg, step) && match step {
                Some(mid) => self.outer.yields(&mid, out),
                None => out is None,
            }
    }

    fn apply(&self, arg: &A) -> (out: Option<B>) {
        match self.inner.apply(arg) {
            Some(mid) => self.outer.apply(&mid),
            None => None,
        }
    }
}

/// Whether `whole` behaves as `inner` followed by `outer`, where either may
/// give nothing.
pub open spec fn runs_map_chain<
    A,
    X,
    B,
    C: Apply<A, Option<B>>,
    C0: Apply<A, Option<X>>,
    C1: Apply<X, Option<B>>,
>(whole: C, inner: C0, outer: C1) -> bool {
    &&& forall|arg: &A| #[trigger]
        whole.accepts(arg) <==> {
            &&& inner.accepts(arg)
            &&& forall|mid: X| #[trigger] inner.yields(arg, Some(mid)) ==> outer.accepts(&mid)
        }
    &&& forall|arg: &A, out: Option<B>| #[trigger]
        whole.yields(arg, out) <==> exists|step: Option<X>| #[trigger]
            inner.yields(arg, step) && match step {
                Some(mid) => outer.yields(&mid, out),
                None => out is None,
            }
}

/// `left` and `right` run on the same argument; the two results are returned
/// as a pair of boxes. Both parts are shared with whoever else holds them.
pub struct Fanout<C0, C1> {
    pub left: Rc<C0>,
    pub right: Rc<C1>,
}

impl<A, B0, B1, C0: Apply<A, B0>, C1: Apply<A, B1>> Apply<A, (Box<B0>, Box<B1>)> for Fanout<
    C0,
    C1,
> {
    open spec fn accepts(&self, arg: &A) -> bool {
        self.left.accepts(arg) && self.right.accepts(arg)
    }

    open spec fn yields(&self, arg: &A, out: (Box<B0>, Box<B1>)) -> bool {
        self.left.yields(arg, *out.0) && self.right.yields(arg, *out.1)
    }

    fn apply(&self, arg: &A) -> (out: (Box<B0>, Box<B1>)) {
        let first = self.left.apply(arg);
        let second = self.right.apply(arg);
        (Box::new(first), Box::new(second))
    }
}

/// Whether the computation `c` behaves as the closure `f` does.
pub open spec fn runs_fn<A, B, C: Apply<A, B>, F: Fn(&A) -> B>(c: C, f: F) -> bool {
    &&& forall|arg: &A| #[trigger] c.accepts(arg) <==> call_requires(f, (arg,))
    &&& forall|arg: &A, out: B| #[trigger] c.yields(arg, out) <==> call_ensures(f, (arg,), out)
}

/// Whether the computation `c` accepts what the closure `f` accepts and
/// always gives what `f` returns in its box.
pub open spec fn runs_boxed_fn<A, B, C: Apply<A, Option<B>>, F: Fn(&A) -> Box<B>>(
    c: C,
    f: F,
) -> bool {
    &&& forall|arg: &A| #[trigger] c.accepts(arg) <==> call_requires(f, (arg,))
    &&& forall|arg: &A, out: Option<B>| #[trigger]
        c.yields(arg, out) <==> (out matches Some(given) && call_ensures(
            f,
            (arg,),
            Box::new(given),
        ))
}

/// Whether the computation `c` behaves as the closure `f` does.
pub open spec fn runs_fn2<A, B, R, C: Apply2<A, B, R>, F: Fn(&A, &B) -> R>(c: C, f: F) -> bool {
    &&& forall|first: &A, second: &B| #[trigger]
        c.accepts(first, second) <==> call_requires(f, (first, second))
    &&& forall|first: &A, second: &B, out: R| #[trigger]
        c.yields(first, second, out) <==> call_ensures(f, (first, second), out)
}

/// Whether the computation `c` accepts what the closure `f` accepts and
/// always gives what `f` returns in its box.
pub open spec fn runs_boxed_fn2<
    A,
    B,
    R,
    C: Apply2<A, B, Option<R>>,
    F: Fn(&A, &B) -> Box<R>,
>(c: C, f: F) -> bool {
    &&& forall|first: &A, second: &B| #[trigger]
        c.accepts(first, second) <==> call_requires(f, (first, second))
    &&& forall|first: &A, second: &B, out: Option<R>| #[trigger]
        c.yields(first, second, out) <==> (out matches Some(given) && call_ensures(
            f,
            (first, second),
            Box::new(given),
        ))
}

/// Whether `whole` behaves as `inner` followed by `outer`: it accepts what
/// `inner` accepts and maps to what `outer` accepts, and it yields what
/// `outer` yields for something that `inner` yields.
pub open spec fn runs_chain<A, X, B, C: Apply<A, B>, C0: Apply<A, X>, C1: Apply<X, B>>(
    whole: C,
    inner: C0,
    outer: C1,
) -> bool {
    &&& forall|arg: &A| #[trigger]
        whole.accepts(arg) <==> {
            &&& inner.accepts(arg)
            &&& forall|mid: X| #[trigger] inner.yields(arg, mid) ==> outer.accepts(&mid)
        }
    &&& forall|arg: &A, out: B| #[trigger]
        whole.yields(arg, out) <==> exists|mid: X| #[trigger]
            inner.yields(arg, mid) && outer.yields(&mid, out)
}

/// Whether `whole` behaves as `left` beside `right`: it accepts what both
/// accept, and yields a pair of what each yields.
pub open spec fn runs_fanout<
    A,
    B0,
    B1,
    C: Apply<A, (Box<B0>, Box<B1>)>,
    C0: Apply<A, B0>,
    C1: Apply<A, B1>,
>(whole: C, left: C0, right: C1) -> bool {
    &&& forall|arg: &A| #[trigger] whole.accepts(arg) <==> left.accepts(arg) && right.accepts(arg)
    &&& forall|arg: &A, out: (Box<B0>, Box<B1>)| #[trigger]
        whole.yields(arg, out) <==> left.yields(arg, *out.0) && right.yields(arg, *out.1)
}

/// The computation that returns a clone of its argument.
pub struct Duplicate;

impl<T: Clone> Apply<T, T> for Duplicate {
    open spec fn accepts(&self, arg: &T) -> bool {
        true
    }

    open spec fn yields(&self, arg: &T, out: T) -> bool {
        cloned(*arg, out)
    }

    fn apply(&self, arg: &T) -> (out: T) {
        arg.clone()
    }
}

/// Whether a clone of a value of type `T` is always equal to the value.
pub open spec fn clones_are_equal<T: Clone>() -> bool {
    forall|x: T, y: T| cloned(x, y) ==> x == y
}

/// Whether two computations behave alike: they accept the same arguments and
/// yield the same results.
pub open spec fn behave_alike<A, B, C: Apply<A, B>, D: Apply<A, B>>(c: C, d: D) -> bool {
    &&& forall|arg: &A| #[trigger] c.accepts(arg) <==> #[trigger] d.accepts(arg)
    &&& forall|arg: &A, out: B| #[trigger] c.yields(arg, out) <==> #[trigger] d.yields(arg, out)
}

/// A computation followed by the identity behaves as the computation alone,
/// where clones of its results are equal to the results.
pub proof fn lemma_chain_identity_after<A, B: Clone, W: Apply<A, B>, C: Apply<A, B>>(
    whole: W,
    c: C,
    identity: Duplicate,
)
    requires
        runs_chain::<A, B, B, W, C, Duplicate>(whole, c, identity),
        clones_are_equal::<B>(),
    ensures
        behave_alike::<A, B, W, C>(whole, c),
{
    assert forall|arg: &A, out: B| #[trigger] whole.yields(arg, out) <==> #[trigger] c.yields(
        arg,
        out,
    ) by {
        if whole.yields(arg, out) {
            let mid = choose|mid: B| #[trigger] c.yields(arg, mid) && identity.yields(&mid, out);
            assert(cloned(mid, out));
        }
        if c.yields(arg, out) {
            assert(identity.yields(&out, out));
        }
    }
}

/// A computation preceded by the identity behaves as the computation alone,
/// where clones of its arguments are equal to the arguments.
pub proof fn lemma_chain_identity_before<A: Clone, B, W: Apply<A, B>, C: Apply<A, B>>(
    whole: W,
    c: C,
    identity: Duplicate,
)
    requires
        runs_chain::<A, A, B, W, Duplicate, C>(whole, identity, c),
        clones_are_equal::<A>(),
    ensures
        behave_alike::<A, B, W, C>(whole, c),
{
    assert forall|arg: &A| #[trigger] whole.accepts(arg) <==> #[trigger] c.accepts(arg) by {
        assert(identity.yields(arg, *arg));
        if c.accepts(arg) {
            assert forall|mid: A| #[trigger] identity.yields(arg, mid) implies c.accepts(&mid) by {
                assert(cloned(*arg, mid));
            }
        }
    }
    assert forall|arg: &A, out: B| #[trigger] whole.yields(arg, out) <==> #[trigger] c.yields(
        arg,
        out,
    ) by {
        if whole.yields(arg, out) {
            let mid = choose|mid: A| #[trigger] identity.yields(arg, mid) && c.yields(&mid, out);
            assert(cloned(*arg, mid));
        }
        if c.yields(arg, out) {
            assert(identity.yields(arg, *arg));
        }
    }
}

/// Chaining is associative: `a` then `b`, followed by `c`, behaves as `a`
/// followed by `b` then `c`.
pub proof fn lemma_chain_associative<
    A,
    X,
    Y,
    B,
    C0: Apply<A, X>,
    C1: Apply<X, Y>,
    C2: Apply<Y, B>,
    W01: Apply<A, Y>,
    W12: Apply<X, B>,
    L: Apply<A, B>,
    R: Apply<A, B>,
>(a: C0, b: C1, c: C2, a_b: W01, b_c: W12, left: L, right: R)
    requires
        runs_chain::<A, X, Y, W01, C0, C1>(a_b, a, b),
        runs_chain::<X, Y, B, W12, C1, C2>(b_c, b, c),
        runs_chain::<A, Y, B, L, W01, C2>(left, a_b, c),
        runs_chain::<A, X, B, R, C0, W12>(right, a, b_c),
    ensures
        behave_alike::<A, B, L, R>(left, right),
{
    assert forall|arg: &A| #[trigger] left.accepts(arg) <==> #[trigger] right.accepts(arg) by {
        if left.accepts(arg) {
            assert(a_b.accepts(arg));
            assert forall|x: X| #[trigger] a.yields(arg, x) implies b_c.accepts(&x) by {
                assert forall|y: Y| #[trigger] b.yields(&x, y) implies c.accepts(&y) by {
                    assert(a_b.yields(arg, y));
                }
            }
        }
        if right.accepts(arg) {
            assert forall|x: X| #[trigger] a.yields(arg, x) implies b.accepts(&x) by {
                assert(b_c.accepts(&x));
            }
            assert(a_b.accepts(arg));
            assert forall|y: Y| #[trigger] a_b.yields(arg, y) implies c.accepts(&y) by {
                let x = choose|x: X| #[trigger] a.yields(arg, x) && b.yields(&x, y);
                assert(b_c.accepts(&x));
            }
        }
    }
    assert forall|arg: &A, out: B| #[trigger] left.yields(arg, out) <==> #[trigger] right.yields(
        arg,
        out,
    ) by {
        if left.yields(arg, out) {
            let y = choose|y: Y| #[trigger] a_b.yields(arg, y) && c.yields(&y, out);
            let x = choose|x: X| #[trigger] a.yields(arg, x) && b.yields(&x, y);
            assert(b_c.yields(&x, out));
        }
        if right.yields(arg, out) {
            let x = choose|x: X| #[trigger] a.yields(arg, x) && b_c.yields(&x, out);
            let y = choose|y: Y| #[trigger] b.yields(&x, y) && c.yields(&y, out);
            assert(a_b.yields(arg, y));
        }
    }
}

} // verus!
