//! Domains, metrics and measures; functions; relations; and the bundles and
//! combinators built from them.

use vstd::prelude::*;
use std::rc::Rc;
use std::marker::PhantomData;
use vstd::std_specs::cmp::PartialEqSpec;
use crate::dom::{BoxDomain, PairDomain};
use crate::error::{Error, ErrorVariant, Fallible};
use crate::func::{
    runs_boxed_fn2, runs_chain, runs_fanout, runs_fn, share, Apply, Apply2, Chained, ChainedMap,
    Fanout, FromBoxedFn2, FromFn, FromFn2, NoMap,
};
use crate::relation::{
    chooses, ChainHint, ChainedRelation, ComposedRelation, ConstantBackward, ConstantForward,
    ConstantRelation, PrivacyRelation, StabilityRelation,
};
use crate::traits::DistanceCast;

verus! {

/// A set of values of one type, the carrier, that may enter or leave a function.
///
/// Two domains of one kind are equal when they are configured alike; `==`
/// decides it.
pub trait Domain: Clone + PartialEq {
    /// The type whose values the domain selects.
    type Carrier;

    /// Whether `member` computes `member_spec`. It does unless the carrier's own
    /// comparisons are left unspecified.
    spec fn obeys_member_spec() -> bool;

    /// Whether `val` belongs to the domain.
    spec fn member_spec(&self, val: &Self::Carrier) -> bool;

    /// Tests `val` for membership.
    fn member(&self, val: &Self::Carrier) -> (r: bool)
        ensures
            Self::obeys_member_spec() ==> r == self.member_spec(val),
    ;

    /// Whether a domain that `==` finds equal to another, and a clone of a
    /// domain, has the members of the other. It does unless the carrier's own
    /// equality or clones are left unspecified.
    spec fn obeys_domain_laws() -> bool;

    /// Equal domains, and a domain and its clone, have the same members.
    proof fn lemma_same_members(&self, other: &Self, val: &Self::Carrier)
        requires
            Self::obeys_domain_laws(),
            self.eq_spec(other) || cloned(*self, *other),
        ensures
            self.member_spec(val) == other.member_spec(val),
    ;
}

/// Membership is a function of the domain and the value: whatever two runs of
/// `member` on one domain and one value return, they return the same.
pub proof fn lemma_member_deterministic<D: Domain>(
    domain: &D,
    val: &D::Carrier,
    first: bool,
    second: bool,
)
    requires
        D::obeys_member_spec(),
        call_ensures(D::member, (domain, val), first),
        call_ensures(D::member, (domain, val), second),
    ensures
        first == second,
        first == domain.member_spec(val),
{
}

/// A way to measure the distance between two members of a domain.
pub trait Metric: Clone {
    type Distance;
}

/// A way to measure the distance between two distributions.
pub trait Measure: Clone {
    type Distance;
}

/// A metric on datasets. One instance is as good as another.
pub trait DatasetMetric: Metric {
    fn new() -> Self;
}

/// A metric on aggregates. One instance is as good as another.
pub trait SensitivityMetric: Metric {
    fn new() -> Self;
}

/// A computation from the carrier of `DI` to the carrier of `DO`.
///
/// The computation is shared: a clone, a chain or a composition holds the same
/// computation, not a copy of it.
pub struct Function<DI: Domain, DO: Domain, C> {
    pub function: Rc<C>,
    pub domains: PhantomData<(DI, DO)>,
}

impl<DI: Domain, DO: Domain, C> Clone for Function<DI, DO, C> {
    fn clone(&self) -> (r: Self)
        ensures
            r.function == self.function,
    {
        Function { function: share(&self.function), domains: PhantomData }
    }
}

impl<DI: Domain, DO: Domain, F: Fn(&DI::Carrier) -> DO::Carrier> Function<DI, DO, FromFn<F>> {
    /// The function that runs `function`.
    pub fn new(function: F) -> (r: Self)
        ensures
            r.function.f == function,
            r.runs(function),
    {
        Function { function: Rc::new(FromFn { f: function }), domains: PhantomData }
    }
}

impl<DI: Domain, DO: Domain, C: Apply<DI::Carrier, DO::Carrier>> Function<DI, DO, C> {
    /// The function that runs `computation`.
    pub fn new_from(computation: C) -> (r: Self)
        ensures
            *r.function == computation,
    {
        Function { function: Rc::new(computation), domains: PhantomData }
    }

    /// Whether the function behaves as the closure `f` does.
    pub open spec fn runs<F: Fn(&DI::Carrier) -> DO::Carrier>(&self, f: F) -> bool {
        runs_fn::<DI::Carrier, DO::Carrier, C, F>(*self.function, f)
    }

    /// Whether the function may be evaluated at `arg`.
    pub open spec fn accepts(&self, arg: &DI::Carrier) -> bool {
        self.function.accepts(arg)
    }

    /// Whether `out` is a value that the function may take at `arg`.
    pub open spec fn yields(&self, arg: &DI::Carrier, out: DO::Carrier) -> bool {
        self.function.yields(arg, out)
    }

    /// Evaluates the function at `arg`.
    pub fn eval(&self, arg: &DI::Carrier) -> (out: DO::Carrier)
        requires
            self.accepts(arg),
        ensures
            self.yields(arg, out),
    {
        self.function.apply(arg)
    }

    /// Evaluates the function at `arg` and hands the value over on the heap.
    pub fn eval_ffi(&self, arg: &DI::Carrier) -> (out: Box<DO::Carrier>)
        requires
            self.accepts(arg),
        ensures
            self.yields(arg, *out),
    {
        Box::new(self.function.apply(arg))
    }
}

impl<DI: Domain, DO: Domain, X, C0: Apply<DI::Carrier, X>, C1: Apply<X, DO::Carrier>> Function<
    DI,
    DO,
    Chained<X, C0, C1>,
> {
    /// Whether this is `function0` followed by `function1`: it shares their
    /// computations and behaves as the one followed by the other.
    pub open spec fn is_chain_of<XD: Domain<Carrier = X>>(
        &self,
        function1: &Function<XD, DO, C1>,
        function0: &Function<DI, XD, C0>,
    ) -> bool {
        &&& self.function.inner == function0.function
        &&& self.function.outer == function1.function
        &&& runs_chain::<DI::Carrier, X, DO::Carrier, _, _, _>(
            *self.function,
            *function0.function,
            *function1.function,
        )
    }

    /// `function0` followed by `function1`. The result shares both computations.
    pub fn make_chain<XD: Domain<Carrier = X>>(
        function1: &Function<XD, DO, C1>,
        function0: &Function<DI, XD, C0>,
    ) -> (r: Self)
        ensures
            r.is_chain_of(function1, function0),
    {
        let chained = Chained {
            inner: share(&function0.function),
            outer: share(&function1.function),
            through: PhantomData,
        };
        Function { function: Rc::new(chained), domains: PhantomData }
    }
}

impl<
    DI: Domain,
    DO0: Domain,
    DO1: Domain,
    C0: Apply<DI::Carrier, DO0::Carrier>,
    C1: Apply<DI::Carrier, DO1::Carrier>,
> Function<DI, PairDomain<BoxDomain<DO0>, BoxDomain<DO1>>, Fanout<C0, C1>> {
    /// Whether this is `function0` beside `function1`: it shares their
    /// computations and behaves as the two on one argument.
    pub open spec fn is_composition_of(
        &self,
        function0: &Function<DI, DO0, C0>,
        function1: &Function<DI, DO1, C1>,
    ) -> bool {
        &&& self.function.left == function0.function
        &&& self.function.right == function1.function
        &&& runs_fanout::<DI::Carrier, DO0::Carrier, DO1::Carrier, _, _, _>(
            *self.function,
            *function0.function,
            *function1.function,
        )
    }

    /// `function0` beside `function1`: both run on the same argument. The result
    /// shares both computations.
    pub fn make_composition(
        function0: &Function<DI, DO0, C0>,
        function1: &Function<DI, DO1, C1>,
    ) -> (r: Self)
        ensures
            r.is_composition_of(function0, function1),
    {
        let fanout = Fanout { left: share(&function0.function), right: share(&function1.function) };
        Function { function: Rc::new(fanout), domains: PhantomData }
    }
}

/// Whether `function` maps between the two domains: it may be evaluated at
/// every member of `input_domain`, and whatever it yields there is a member of
/// `output_domain`.
pub open spec fn maps_between<DI: Domain, DO: Domain, C: Apply<DI::Carrier, DO::Carrier>>(
    function: C,
    input_domain: DI,
    output_domain: DO,
) -> bool {
    forall|arg: &DI::Carrier| #[trigger]
        input_domain.member_spec(arg) ==> {
            &&& function.accepts(arg)
            &&& forall|out: DO::Carrier| #[trigger]
                function.yields(arg, out) ==> output_domain.member_spec(&out)
        }
}

/// A chain of two functions that map between domains maps from the input
/// domain of the first to the output domain of the second, where every member
/// of the first's output domain is a member of the second's input domain.
pub proof fn lemma_chain_maps_between<
    DI: Domain,
    DX: Domain,
    DO: Domain,
    C0: Apply<DI::Carrier, DX::Carrier>,
    C1: Apply<DX::Carrier, DO::Carrier>,
    W: Apply<DI::Carrier, DO::Carrier>,
>(whole: W, inner: C0, outer: C1, input_domain: DI, reached: DX, expected: DX, output_domain: DO)
    requires
        runs_chain::<DI::Carrier, DX::Carrier, DO::Carrier, W, C0, C1>(whole, inner, outer),
        maps_between(inner, input_domain, reached),
        maps_between(outer, expected, output_domain),
        forall|mid: &DX::Carrier| #[trigger] reached.member_spec(mid) ==> expected.member_spec(mid),
    ensures
        maps_between(whole, input_domain, output_domain),
{
    assert forall|arg: &DI::Carrier| #[trigger] input_domain.member_spec(arg) implies {
        &&& whole.accepts(arg)
        &&& forall|out: DO::Carrier| #[trigger]
            whole.yields(arg, out) ==> output_domain.member_spec(&out)
    } by {
        assert forall|mid: DX::Carrier| #[trigger] inner.yields(arg, mid) implies outer.accepts(
            &mid,
        ) by {
            assert(reached.member_spec(&mid));
        }
        assert forall|out: DO::Carrier| #[trigger]
            whole.yields(arg, out) implies output_domain.member_spec(&out) by {
            let mid = choose|mid: DX::Carrier| #[trigger]
                inner.yields(arg, mid) && outer.yields(&mid, out);
            assert(reached.member_spec(&mid));
        }
    }
}

/// Two functions that map from one domain, run side by side, map from that
/// domain to the pair of their output domains, each in a box.
pub proof fn lemma_composition_maps_between<
    DI: Domain,
    DO0: Domain,
    DO1: Domain,
    C0: Apply<DI::Carrier, DO0::Carrier>,
    C1: Apply<DI::Carrier, DO1::Carrier>,
    W: Apply<DI::Carrier, (Box<DO0::Carrier>, Box<DO1::Carrier>)>,
>(
    whole: W,
    left: C0,
    right: C1,
    input_domain: DI,
    output_domain: PairDomain<BoxDomain<DO0>, BoxDomain<DO1>>,
)
    requires
        runs_fanout::<DI::Carrier, DO0::Carrier, DO1::Carrier, W, C0, C1>(whole, left, right),
        maps_between(left, input_domain, output_domain.0.element_domain()),
        maps_between(right, input_domain, output_domain.1.element_domain()),
    ensures
        maps_between(whole, input_domain, output_domain),
{
}

/// A rule that proposes, for an input distance of a transformation and an
/// output distance of the measurement that follows it, the distance to assume
/// between the two.
pub struct HintMt<MI: Metric, MX: Metric, MO: Measure, H> {
    pub hint: Rc<H>,
    pub spaces: PhantomData<(MI, MX, MO)>,
}

impl<MI: Metric, MX: Metric, MO: Measure, H> Clone for HintMt<MI, MX, MO, H> {
    fn clone(&self) -> (r: Self)
        ensures
            r.hint == self.hint,
    {
        HintMt { hint: share(&self.hint), spaces: PhantomData }
    }
}

impl<MI: Metric, MX: Metric, MO: Measure, F: Fn(&MI::Distance, &MO::Distance) -> Box<
    MX::Distance,
>> HintMt<MI, MX, MO, FromBoxedFn2<F>> {
    /// The hint that runs `hint`.
    pub fn new(hint: F) -> (r: Self)
        ensures
            r.hint.f == hint,
            runs_boxed_fn2::<MI::Distance, MO::Distance, MX::Distance, _, _>(*r.hint, hint),
    {
        HintMt { hint: Rc::new(FromBoxedFn2 { f: hint }), spaces: PhantomData }
    }
}

impl<MI: Metric, MX: Metric, MO: Measure, H: Apply2<
    MI::Distance,
    MO::Distance,
    Option<MX::Distance>,
>> HintMt<MI, MX, MO, H> {
    /// The intermediate distance proposed for `input_distance` and
    /// `output_distance`, of a hint that proposes one there.
    pub fn eval(&self, input_distance: &MI::Distance, output_distance: &MO::Distance) -> (mid:
        MX::Distance)
        requires
            self.hint.accepts(input_distance, output_distance),
            forall|proposed: Option<MX::Distance>| #[trigger]
                self.hint.yields(input_distance, output_distance, proposed) ==> proposed is Some,
        ensures
            self.hint.yields(input_distance, output_distance, Some(mid)),
    {
        match self.hint.apply(input_distance, output_distance) {
            Some(mid) => mid,
            None => vstd::pervasive::unreached(),
        }
    }
}

/// A rule that proposes, for an input distance of a transformation and an
/// output distance of the transformation that follows it, the distance to
/// assume between the two.
pub struct HintTt<MI: Metric, MO: Metric, MX: Metric, H> {
    pub hint: Rc<H>,
    pub spaces: PhantomData<(MI, MO, MX)>,
}

impl<MI: Metric, MO: Metric, MX: Metric, H> Clone for HintTt<MI, MO, MX, H> {
    fn clone(&self) -> (r: Self)
        ensures
            r.hint == self.hint,
    {
        HintTt { hint: share(&self.hint), spaces: PhantomData }
    }
}

impl<MI: Metric, MO: Metric, MX: Metric, F: Fn(&MI::Distance, &MO::Distance) -> Box<
    MX::Distance,
>> HintTt<MI, MO, MX, FromBoxedFn2<F>> {
    /// The hint that runs `hint`.
    pub fn new(hint: F) -> (r: Self)
        ensures
            r.hint.f == hint,
            runs_boxed_fn2::<MI::Distance, MO::Distance, MX::Distance, _, _>(*r.hint, hint),
    {
        HintTt { hint: Rc::new(FromBoxedFn2 { f: hint }), spaces: PhantomData }
    }
}

impl<MI: Metric, MO: Metric, MX: Metric, H: Apply2<
    MI::Distance,
    MO::Distance,
    Option<MX::Distance>,
>> HintTt<MI, MO, MX, H> {
    /// The intermediate distance proposed for `input_distance` and
    /// `output_distance`, of a hint that proposes one there.
    pub fn eval(&self, input_distance: &MI::Distance, output_distance: &MO::Distance) -> (mid:
        MX::Distance)
        requires
            self.hint.accepts(input_distance, output_distance),
            forall|proposed: Option<MX::Distance>| #[trigger]
                self.hint.yields(input_distance, output_distance, proposed) ==> proposed is Some,
        ensures
            self.hint.yields(input_distance, output_distance, Some(mid)),
    {
        match self.hint.apply(input_distance, output_distance) {
            Some(mid) => mid,
            None => vstd::pervasive::unreached(),
        }
    }
}

/// A rule that proposes, for an input distance and an output distance of two
/// measurements run side by side, the shares of the output distance to grant
/// to the first and to the second.
pub struct HintMm<MI: Metric, MO: Measure, H> {
    pub hint: Rc<H>,
    pub spaces: PhantomData<(MI, MO)>,
}

impl<MI: Metric, MO: Measure, H> Clone for HintMm<MI, MO, H> {
    fn clone(&self) -> (r: Self)
        ensures
            r.hint == self.hint,
    {
        HintMm { hint: share(&self.hint), spaces: PhantomData }
    }
}

impl<MI: Metric, MO: Measure, F: Fn(&MI::Distance, &MO::Distance) -> Box<
    (MO::Distance, MO::Distance),
>> HintMm<MI, MO, FromBoxedFn2<F>> {
    /// The hint that runs `hint`.
    pub fn new(hint: F) -> (r: Self)
        ensures
            r.hint.f == hint,
            runs_boxed_fn2::<MI::Distance, MO::Distance, (MO::Distance, MO::Distance), _, _>(
                *r.hint,
                hint,
            ),
    {
        HintMm { hint: Rc::new(FromBoxedFn2 { f: hint }), spaces: PhantomData }
    }
}

impl<MI: Metric, MO: Measure, H: Apply2<
    MI::Distance,
    MO::Distance,
    Option<(MO::Distance, MO::Distance)>,
>> HintMm<MI, MO, H> {
    /// The shares proposed for `input_distance` and `output_distance`, of a
    /// hint that proposes shares there.
    pub fn eval(&self, input_distance: &MI::Distance, output_distance: &MO::Distance) -> (shares: (
        MO::Distance,
        MO::Distance,
    ))
        requires
            self.hint.accepts(input_distance, output_distance),
            forall|proposed: Option<(MO::Distance, MO::Distance)>| #[trigger]
                self.hint.yields(input_distance, output_distance, proposed) ==> proposed is Some,
        ensures
            self.hint.yields(input_distance, output_distance, Some(shares)),
    {
        match self.hint.apply(input_distance, output_distance) {
            Some(shares) => shares,
            None => vstd::pervasive::unreached(),
        }
    }
}

/// A randomized mechanism with its privacy guarantee.
///
/// The function is expected to accept every member of the input domain and to
/// yield members of the output domain; whoever builds the bundle answers for it.
pub struct Measurement<DI: Domain, DO: Domain, MI: Metric, MO: Measure, C, R, BM> {
    pub input_domain: Box<DI>,
    pub output_domain: Box<DO>,
    pub function: Function<DI, DO, C>,
    pub input_metric: Box<MI>,
    pub output_measure: Box<MO>,
    pub privacy_relation: PrivacyRelation<MI, MO, R, BM>,
}

impl<
    DI: Domain,
    DO: Domain,
    MI: Metric,
    MO: Measure,
    F: Fn(&DI::Carrier) -> DO::Carrier,
    P: Fn(&MI::Distance, &MO::Distance) -> bool,
> Measurement<DI, DO, MI, MO, FromFn<F>, FromFn2<P>, NoMap> {
    /// The measurement that computes `function` and is as private as
    /// `privacy_relation` tells.
    pub fn new(
        input_domain: DI,
        output_domain: DO,
        function: F,
        input_metric: MI,
        output_measure: MO,
        privacy_relation: P,
    ) -> (r: Self)
        ensures
            *r.input_domain == input_domain,
            *r.output_domain == output_domain,
            r.function.function.f == function,
            r.function.runs(function),
            *r.input_metric == input_metric,
            *r.output_measure == output_measure,
            r.privacy_relation.relation.f == privacy_relation,
            r.privacy_relation.decides_as(privacy_relation),
            r.privacy_relation.backward_map is None,
    {
        let input_domain = Box::new(input_domain);
        let output_domain = Box::new(output_domain);
        let function = Function::new(function);
        let input_metric = Box::new(input_metric);
        let output_measure = Box::new(output_measure);
        let privacy_relation = PrivacyRelation::new(privacy_relation);
        Measurement {
            input_domain,
            output_domain,
            function,
            input_metric,
            output_measure,
            privacy_relation,
        }
    }
}

impl<
    DI: Domain,
    DO: Domain,
    MI: Metric,
    MO: Measure,
    C: Apply<DI::Carrier, DO::Carrier>,
    R,
    BM,
> Measurement<DI, DO, MI, MO, C, R, BM> {
    /// Whether the function maps between the domains of the bundle: it may be
    /// evaluated at every member of the input domain, and yields members of
    /// the output domain there.
    pub open spec fn respects_domains(&self) -> bool {
        maps_between(*self.function.function, *self.input_domain, *self.output_domain)
    }
}

/// A deterministic map with its stability guarantee.
///
/// The function is expected to accept every member of the input domain and to
/// yield members of the output domain; whoever builds the bundle answers for it.
pub struct Transformation<DI: Domain, DO: Domain, MI: Metric, MO: Metric, C, R, FM, BM> {
    pub input_domain: Box<DI>,
    pub output_domain: Box<DO>,
    pub function: Function<DI, DO, C>,
    pub input_metric: Box<MI>,
    pub output_metric: Box<MO>,
    pub stability_relation: StabilityRelation<MI, MO, R, FM, BM>,
}

impl<
    DI: Domain,
    DO: Domain,
    MI: Metric,
    MO: Metric,
    F: Fn(&DI::Carrier) -> DO::Carrier,
    P: Fn(&MI::Distance, &MO::Distance) -> bool,
> Transformation<DI, DO, MI, MO, FromFn<F>, FromFn2<P>, NoMap, NoMap> {
    /// The transformation that computes `function` and is as stable as
    /// `stability_relation` tells.
    pub fn new(
        input_domain: DI,
        output_domain: DO,
        function: F,
        input_metric: MI,
        output_metric: MO,
        stability_relation: P,
    ) -> (r: Self)
        ensures
            *r.input_domain == input_domain,
            *r.output_domain == output_domain,
            r.function.function.f == function,
            r.function.runs(function),
            *r.input_metric == input_metric,
            *r.output_metric == output_metric,
            r.stability_relation.relation.f == stability_relation,
            r.stability_relation.decides_as(stability_relation),
            r.stability_relation.forward_map is None,
            r.stability_relation.backward_map is None,
    {
        Transformation {
            input_domain: Box::new(input_domain),
            output_domain: Box::new(output_domain),
            function: Function::new(function),
            input_metric: Box::new(input_metric),
            output_metric: Box::new(output_metric),
            stability_relation: StabilityRelation::new(stability_relation),
        }
    }
}

impl<
    DI: Domain,
    DO: Domain,
    MI: Metric,
    MO: Metric,
    F: Fn(&DI::Carrier) -> DO::Carrier,
> Transformation<
    DI,
    DO,
    MI,
    MO,
    FromFn<F>,
    ConstantRelation<MI::Distance, MO::Distance>,
    ConstantForward<MI::Distance, MO::Distance>,
    ConstantBackward<MI::Distance, MO::Distance>,
> where MI::Distance: DistanceCast, MO::Distance: DistanceCast {
    /// The transformation that computes `function` and is stable with the
    /// constant `stability_constant`.
    pub fn new_constant_stability(
        input_domain: DI,
        output_domain: DO,
        function: F,
        input_metric: MI,
        output_metric: MO,
        stability_constant: MO::Distance,
    ) -> (r: Self)
        ensures
            *r.input_domain == input_domain,
            *r.output_domain == output_domain,
            r.function.function.f == function,
            r.function.runs(function),
            *r.input_metric == input_metric,
            *r.output_metric == output_metric,
            r.stability_relation.relation.constant == stability_constant,
            r.stability_relation.forward_map matches Some(f) && f.constant == stability_constant,
            r.stability_relation.backward_map matches Some(b) && b.constant == stability_constant,
    {
        Transformation {
            input_domain: Box::new(input_domain),
            output_domain: Box::new(output_domain),
            function: Function::new(function),
            input_metric: Box::new(input_metric),
            output_metric: Box::new(output_metric),
            stability_relation: StabilityRelation::new_from_constant(stability_constant),
        }
    }
}

impl<
    DI: Domain,
    DO: Domain,
    MI: Metric,
    MO: Metric,
    C: Apply<DI::Carrier, DO::Carrier>,
    R,
    FM,
    BM,
> Transformation<DI, DO, MI, MO, C, R, FM, BM> {
    /// Whether the function maps between the domains of the bundle: it may be
    /// evaluated at every member of the input domain, and yields members of
    /// the output domain there.
    pub open spec fn respects_domains(&self) -> bool {
        maps_between(*self.function.function, *self.input_domain, *self.output_domain)
    }
}

/// A transformation from and to one metric that is stable with a constant.
pub type ConstantStable<DI, DO, M, C> = Transformation<
    DI,
    DO,
    M,
    M,
    C,
    ConstantRelation<<M as Metric>::Distance, <M as Metric>::Distance>,
    ConstantForward<<M as Metric>::Distance, <M as Metric>::Distance>,
    ConstantBackward<<M as Metric>::Distance, <M as Metric>::Distance>,
>;

fn clone_boxed<T: Clone>(t: &Box<T>) -> (r: Box<T>)
    ensures
        cloned(**t, *r),
{
    t.clone()
}

fn domains_equal<D: Domain>(d0: &Box<D>, d1: &Box<D>) -> (r: bool)
    ensures
        D::obeys_eq_spec() ==> r == (**d0).eq_spec(&**d1),
{
    **d0 == **d1
}

/// What a combinator needs of one domain and one measure where their types
/// are not known to it: whether two such domains are equal, and copies.
pub struct MeasureGlue<D: Domain, M: Measure> {
    pub kinds: PhantomData<(D, M)>,
}

impl<D: Domain, M: Measure> Clone for MeasureGlue<D, M> {
    fn clone(&self) -> (r: Self) {
        MeasureGlue { kinds: PhantomData }
    }
}

impl<D: Domain, M: Measure> MeasureGlue<D, M> {
    pub fn new() -> (r: Self) {
        MeasureGlue { kinds: PhantomData }
    }

    /// Whether `d0 == d1`, as the domain's own equality decides.
    pub fn domain_eq(&self, d0: &Box<D>, d1: &Box<D>) -> (r: bool)
        ensures
            D::obeys_eq_spec() ==> r == (**d0).eq_spec(&**d1),
    {
        domains_equal(d0, d1)
    }

    /// A copy of `d`, as the domain's own `clone` makes it.
    pub fn domain_clone(&self, d: &Box<D>) -> (r: Box<D>)
        ensures
            cloned(**d, *r),
    {
        clone_boxed(d)
    }

    /// A copy of `m`, as the measure's own `clone` makes it.
    pub fn measure_clone(&self, m: &Box<M>) -> (r: Box<M>)
        ensures
            cloned(**m, *r),
    {
        clone_boxed(m)
    }
}

/// What a combinator needs of one domain and one metric where their types
/// are not known to it: whether two such domains are equal, and copies.
pub struct MetricGlue<D: Domain, M: Metric> {
    pub kinds: PhantomData<(D, M)>,
}

impl<D: Domain, M: Metric> Clone for MetricGlue<D, M> {
    fn clone(&self) -> (r: Self) {
        MetricGlue { kinds: PhantomData }
    }
}

impl<D: Domain, M: Metric> MetricGlue<D, M> {
    pub fn new() -> (r: Self) {
        MetricGlue { kinds: PhantomData }
    }

    /// Whether `d0 == d1`, as the domain's own equality decides.
    pub fn domain_eq(&self, d0: &Box<D>, d1: &Box<D>) -> (r: bool)
        ensures
            D::obeys_eq_spec() ==> r == (**d0).eq_spec(&**d1),
    {
        domains_equal(d0, d1)
    }

    /// A copy of `d`, as the domain's own `clone` makes it.
    pub fn domain_clone(&self, d: &Box<D>) -> (r: Box<D>)
        ensures
            cloned(**d, *r),
    {
        clone_boxed(d)
    }

    /// A copy of `m`, as the metric's own `clone` makes it.
    pub fn metric_clone(&self, m: &Box<M>) -> (r: Box<M>)
        ensures
            cloned(**m, *r),
    {
        clone_boxed(m)
    }
}

/// Chains a transformation into a measurement.
pub struct ChainMT;

/// Whether `chain` is `transformation0` followed by `measurement1`: it maps
/// from the domain and metric of the first to the domain and measure of the
/// second, computes the first's function followed by the second's, and its
/// privacy relation is the chain of the first's stability relation and the
/// second's privacy relation that goes by the hint it holds.
pub open spec fn is_chain_mt<
    DI: Domain,
    DX: Domain,
    DO: Domain,
    MI: Metric,
    MX: Metric,
    MO: Measure,
    C0: Apply<DI::Carrier, DX::Carrier>,
    C1: Apply<DX::Carrier, DO::Carrier>,
    R0: Apply2<MI::Distance, MX::Distance, bool>,
    R1: Apply2<MX::Distance, MO::Distance, bool>,
    F0: Apply<MI::Distance, Option<MX::Distance>>,
    B0: Apply<MX::Distance, Option<MI::Distance>>,
    B1: Apply<MO::Distance, Option<MX::Distance>>,
    H: Apply2<MI::Distance, MO::Distance, Option<MX::Distance>>,
>(
    chain: Measurement<
        DI,
        DO,
        MI,
        MO,
        Chained<DX::Carrier, C0, C1>,
        ChainedRelation<MX::Distance, R0, R1, ChainHint<H, F0, B1>>,
        ChainedMap<MX::Distance, B1, B0>,
    >,
    measurement1: Measurement<DX, DO, MX, MO, C1, R1, B1>,
    transformation0: Transformation<DI, DX, MI, MX, C0, R0, F0, B0>,
) -> bool {
    &&& cloned(*transformation0.input_domain, *chain.input_domain)
    &&& cloned(*measurement1.output_domain, *chain.output_domain)
    &&& chain.function.is_chain_of(&measurement1.function, &transformation0.function)
    &&& cloned(*transformation0.input_metric, *chain.input_metric)
    &&& cloned(*measurement1.output_measure, *chain.output_measure)
    &&& chain.privacy_relation.is_chain_of(
        &measurement1.privacy_relation,
        &transformation0.stability_relation,
    )
}

/// What chaining `transformation0` into `measurement1` with `hint` gives: an
/// error where the two do not meet at equal domains; else an error where
/// there is no hint and no map to derive a bound from; else the chain, whose
/// privacy relation goes by the hint, or else by the forward map of the
/// stability relation, or else by the backward map of the privacy relation.
pub open spec fn chain_mt_outcome<
    DI: Domain,
    DX: Domain,
    DO: Domain,
    MI: Metric,
    MX: Metric,
    MO: Measure,
    C0: Apply<DI::Carrier, DX::Carrier>,
    C1: Apply<DX::Carrier, DO::Carrier>,
    R0: Apply2<MI::Distance, MX::Distance, bool>,
    R1: Apply2<MX::Distance, MO::Distance, bool>,
    F0: Apply<MI::Distance, Option<MX::Distance>>,
    B0: Apply<MX::Distance, Option<MI::Distance>>,
    B1: Apply<MO::Distance, Option<MX::Distance>>,
    H: Apply2<MI::Distance, MO::Distance, Option<MX::Distance>>,
>(
    r: Fallible<Measurement<
        DI,
        DO,
        MI,
        MO,
        Chained<DX::Carrier, C0, C1>,
        ChainedRelation<MX::Distance, R0, R1, ChainHint<H, F0, B1>>,
        ChainedMap<MX::Distance, B1, B0>,
    >>,
    measurement1: Measurement<DX, DO, MX, MO, C1, R1, B1>,
    transformation0: Transformation<DI, DX, MI, MX, C0, R0, F0, B0>,
    hint: Option<Rc<H>>,
) -> bool {
    let meet = (*transformation0.output_domain).eq_spec(&*measurement1.input_domain);
    let derivable = !(hint is None && transformation0.stability_relation.forward_map is None
        && measurement1.privacy_relation.backward_map is None);
    &&& DX::obeys_eq_spec() ==> (r is Ok <==> meet && derivable)
    &&& DX::obeys_eq_spec() ==> (r matches Err(e) ==> e.variant == (if meet {
        ErrorVariant::BoundNotDerivable
    } else {
        ErrorVariant::DomainMismatch
    }))
    &&& r matches Err(e) ==> e.variant == ErrorVariant::BoundNotDerivable || e.variant
        == ErrorVariant::DomainMismatch
    &&& r matches Ok(chain) ==> {
        &&& is_chain_mt(chain, measurement1, transformation0)
        &&& chooses::<MI::Distance, MO::Distance, MX::Distance, H, F0, B1>(
            *chain.privacy_relation.relation.hint,
            hint,
            transformation0.stability_relation.forward_map,
            measurement1.privacy_relation.backward_map,
        )
    }
}

/// The shared computation of a hint, if there is a hint.
pub open spec fn hint_mt_of<MI: Metric, MX: Metric, MO: Measure, H>(
    hint: Option<&HintMt<MI, MX, MO, H>>,
) -> Option<Rc<H>> {
    match hint {
        Some(h) => Some(h.hint),
        None => None,
    }
}

/// The measurement that runs `transformation0` and then `measurement1`.
///
/// The two must meet at equal domains; otherwise the chain is refused. Its
/// privacy relation is the chain of the transformation's stability relation
/// and the measurement's privacy relation. That chain goes by `hint`, or else
/// by a map of the relations; where there is neither, no bound can be derived
/// and the chain is refused as well.
pub fn make_chain_mt_glue<
    DI: Domain,
    DX: Domain,
    DO: Domain,
    MI: Metric,
    MX: Metric,
    MO: Measure,
    C0: Apply<DI::Carrier, DX::Carrier>,
    C1: Apply<DX::Carrier, DO::Carrier>,
    R0: Apply2<MI::Distance, MX::Distance, bool>,
    R1: Apply2<MX::Distance, MO::Distance, bool>,
    F0: Apply<MI::Distance, Option<MX::Distance>>,
    B0: Apply<MX::Distance, Option<MI::Distance>>,
    B1: Apply<MO::Distance, Option<MX::Distance>>,
    H: Apply2<MI::Distance, MO::Distance, Option<MX::Distance>>,
>(
    measurement1: &Measurement<DX, DO, MX, MO, C1, R1, B1>,
    transformation0: &Transformation<DI, DX, MI, MX, C0, R0, F0, B0>,
    hint: Option<&HintMt<MI, MX, MO, H>>,
    input_glue: &MetricGlue<DI, MI>,
    x_glue: &MetricGlue<DX, MX>,
    output_glue: &MeasureGlue<DO, MO>,
) -> (r: Fallible<Measurement<
        DI,
        DO,
        MI,
        MO,
        Chained<DX::Carrier, C0, C1>,
        ChainedRelation<MX::Distance, R0, R1, ChainHint<H, F0, B1>>,
        ChainedMap<MX::Distance, B1, B0>,
    >>)
    ensures
        chain_mt_outcome(r, *measurement1, *transformation0, hint_mt_of(hint)),
{
    if !x_glue.domain_eq(&transformation0.output_domain, &measurement1.input_domain) {
        return Err(
            Error::new(
                ErrorVariant::DomainMismatch,
                "the transformation's output domain is not the measurement's input domain",
            ),
        );
    }
    let privacy_relation = match PrivacyRelation::make_chain(
        &measurement1.privacy_relation,
        &transformation0.stability_relation,
        hint,
    ) {
        Ok(relation) => relation,
        Err(e) => {
            return Err(e);
        },
    };
    let input_domain = input_glue.domain_clone(&transformation0.input_domain);
    let output_domain = output_glue.domain_clone(&measurement1.output_domain);
    let function = Function::make_chain(&measurement1.function, &transformation0.function);
    let input_metric = input_glue.metric_clone(&transformation0.input_metric);
    let output_measure = output_glue.measure_clone(&measurement1.output_measure);
    Ok(
        Measurement {
            input_domain,
            output_domain,
            function,
            input_metric,
            output_measure,
            privacy_relation,
        },
    )
}

impl ChainMT {
    /// The measurement that runs `transformation0` and then `measurement1`,
    /// without a hint.
    pub fn make2<
        DI: Domain,
        DX: Domain,
        DO: Domain,
        MI: Metric,
        MX: Metric,
        MO: Measure,
        C0: Apply<DI::Carrier, DX::Carrier>,
        C1: Apply<DX::Carrier, DO::Carrier>,
        R0: Apply2<MI::Distance, MX::Distance, bool>,
        R1: Apply2<MX::Distance, MO::Distance, bool>,
        F0: Apply<MI::Distance, Option<MX::Distance>>,
        B0: Apply<MX::Distance, Option<MI::Distance>>,
        B1: Apply<MO::Distance, Option<MX::Distance>>,
    >(
        measurement1: &Measurement<DX, DO, MX, MO, C1, R1, B1>,
        transformation0: &Transformation<DI, DX, MI, MX, C0, R0, F0, B0>,
    ) -> (r: Fallible<Measurement<
            DI,
            DO,
            MI,
            MO,
            Chained<DX::Carrier, C0, C1>,
            ChainedRelation<MX::Distance, R0, R1, ChainHint<NoMap, F0, B1>>,
            ChainedMap<MX::Distance, B1, B0>,
        >>)
        ensures
            chain_mt_outcome(r, *measurement1, *transformation0, None),
    {
        let input_glue = MetricGlue::<DI, MI>::new();
        let x_glue = MetricGlue::<DX, MX>::new();
        let output_glue = MeasureGlue::<DO, MO>::new();
        let hint: Option<&HintMt<MI, MX, MO, NoMap>> = None;
        make_chain_mt_glue(
            measurement1,
            transformation0,
            hint,
            &input_glue,
            &x_glue,
            &output_glue,
        )
    }

    /// The measurement that runs `transformation0` and then `measurement1`,
    /// without a hint.
    pub fn make<
        DI: Domain,
        DX: Domain,
        DO: Domain,
        MI: Metric,
        MX: Metric,
        MO: Measure,
        C0: Apply<DI::Carrier, DX::Carrier>,
        C1: Apply<DX::Carrier, DO::Carrier>,
        R0: Apply2<MI::Distance, MX::Distance, bool>,
        R1: Apply2<MX::Distance, MO::Distance, bool>,
        F0: Apply<MI::Distance, Option<MX::Distance>>,
        B0: Apply<MX::Distance, Option<MI::Distance>>,
        B1: Apply<MO::Distance, Option<MX::Distance>>,
    >(
        measurement1: &Measurement<DX, DO, MX, MO, C1, R1, B1>,
        transformation0: &Transformation<DI, DX, MI, MX, C0, R0, F0, B0>,
    ) -> (r: Fallible<Measurement<
            DI,
            DO,
            MI,
            MO,
            Chained<DX::Carrier, C0, C1>,
            ChainedRelation<MX::Distance, R0, R1, ChainHint<NoMap, F0, B1>>,
            ChainedMap<MX::Distance, B1, B0>,
        >>)
        ensures
            chain_mt_outcome(r, *measurement1, *transformation0, None),
    {
        Self::make2(measurement1, transformation0)
    }
}

/// Chaining keeps the bundles' promise: where the transformation and the
/// measurement map between their domains and meet at equal domains, the chain
/// maps between its own.
pub proof fn lemma_chain_mt_respects_domains<
    DI: Domain,
    DX: Domain,
    DO: Domain,
    MI: Metric,
    MX: Metric,
    MO: Measure,
    C0: Apply<DI::Carrier, DX::Carrier>,
    C1: Apply<DX::Carrier, DO::Carrier>,
    R0: Apply2<MI::Distance, MX::Distance, bool>,
    R1: Apply2<MX::Distance, MO::Distance, bool>,
    F0: Apply<MI::Distance, Option<MX::Distance>>,
    B0: Apply<MX::Distance, Option<MI::Distance>>,
    B1: Apply<MO::Distance, Option<MX::Distance>>,
    H: Apply2<MI::Distance, MO::Distance, Option<MX::Distance>>,
>(
    chain: Measurement<
        DI,
        DO,
        MI,
        MO,
        Chained<DX::Carrier, C0, C1>,
        ChainedRelation<MX::Distance, R0, R1, ChainHint<H, F0, B1>>,
        ChainedMap<MX::Distance, B1, B0>,
    >,
    measurement1: Measurement<DX, DO, MX, MO, C1, R1, B1>,
    transformation0: Transformation<DI, DX, MI, MX, C0, R0, F0, B0>,
)
    requires
        is_chain_mt(chain, measurement1, transformation0),
        (*transformation0.output_domain).eq_spec(&*measurement1.input_domain),
        transformation0.respects_domains(),
        measurement1.respects_domains(),
        DI::obeys_domain_laws(),
        DX::obeys_domain_laws(),
        DO::obeys_domain_laws(),
    ensures
        chain.respects_domains(),
{
    let whole = *chain.function.function;
    let inner = *transformation0.function.function;
    let outer = *measurement1.function.function;
    lemma_joined_maps_between(
        whole,
        inner,
        outer,
        *transformation0.input_domain,
        *transformation0.output_domain,
        *measurement1.input_domain,
        *measurement1.output_domain,
        *chain.input_domain,
        *chain.output_domain,
    );
}

/// Chains a transformation into a transformation.
pub struct ChainTT;

/// Whether `chain` is `transformation0` followed by `transformation1`: it maps
/// from the domain and metric of the first to those of the second, computes
/// the first's function followed by the second's, and its relation is the
/// chain of the two relations that goes by the hint it holds.
pub open spec fn is_chain_tt<
    DI: Domain,
    DX: Domain,
    DO: Domain,
    MI: Metric,
    MX: Metric,
    MO: Metric,
    C0: Apply<DI::Carrier, DX::Carrier>,
    C1: Apply<DX::Carrier, DO::Carrier>,
    R0: Apply2<MI::Distance, MX::Distance, bool>,
    R1: Apply2<MX::Distance, MO::Distance, bool>,
    F0: Apply<MI::Distance, Option<MX::Distance>>,
    F1: Apply<MX::Distance, Option<MO::Distance>>,
    B0: Apply<MX::Distance, Option<MI::Distance>>,
    B1: Apply<MO::Distance, Option<MX::Distance>>,
    H: Apply2<MI::Distance, MO::Distance, Option<MX::Distance>>,
>(
    chain: Transformation<
    DI,
    DO,
    MI,
    MO,
    Chained<DX::Carrier, C0, C1>,
    ChainedRelation<MX::Distance, R0, R1, ChainHint<H, F0, B1>>,
    ChainedMap<MX::Distance, F0, F1>,
    ChainedMap<MX::Distance, B1, B0>,
>,
    transformation1: Transformation<DX, DO, MX, MO, C1, R1, F1, B1>,
    transformation0: Transformation<DI, DX, MI, MX, C0, R0, F0, B0>,
) -> bool {
    &&& cloned(*transformation0.input_domain, *chain.input_domain)
    &&& cloned(*transformation1.output_domain, *chain.output_domain)
    &&& chain.function.is_chain_of(&transformation1.function, &transformation0.function)
    &&& cloned(*transformation0.input_metric, *chain.input_metric)
    &&& cloned(*transformation1.output_metric, *chain.output_metric)
    &&& chain.stability_relation.is_chain_of(
        &transformation1.stability_relation,
        &transformation0.stability_relation,
        *chain.stability_relation.relation.hint,
    )
}

/// What chaining `transformation0` into `transformation1` with `hint` gives:
/// an error where the two do not meet at equal domains; else an error where
/// there is no hint and no map to derive a bound from; else the chain, whose
/// relation goes by the hint, or else by the forward map of the first
/// relation, or else by the backward map of the second.
pub open spec fn chain_tt_outcome<
    DI: Domain,
    DX: Domain,
    DO: Domain,
    MI: Metric,
    MX: Metric,
    MO: Metric,
    C0: Apply<DI::Carrier, DX::Carrier>,
    C1: Apply<DX::Carrier, DO::Carrier>,
    R0: Apply2<MI::Distance, MX::Distance, bool>,
    R1: Apply2<MX::Distance, MO::Distance, bool>,
    F0: Apply<MI::Distance, Option<MX::Distance>>,
    F1: Apply<MX::Distance, Option<MO::Distance>>,
    B0: Apply<MX::Distance, Option<MI::Distance>>,
    B1: Apply<MO::Distance, Option<MX::Distance>>,
    H: Apply2<MI::Distance, MO::Distance, Option<MX::Distance>>,
>(
    r: Fallible<Transformation<
    DI,
    DO,
    MI,
    MO,
    Chained<DX::Carrier, C0, C1>,
    ChainedRelation<MX::Distance, R0, R1, ChainHint<H, F0, B1>>,
    ChainedMap<MX::Distance, F0, F1>,
    ChainedMap<MX::Distance, B1, B0>,
>>,
    transformation1: Transformation<DX, DO, MX, MO, C1, R1, F1, B1>,
    transformation0: Transformation<DI, DX, MI, MX, C0, R0, F0, B0>,
    hint: Option<Rc<H>>,
) -> bool {
    let meet = (*transformation0.output_domain).eq_spec(&*transformation1.input_domain);
    let derivable = !(hint is None && transformation0.stability_relation.forward_map is None
        && transformation1.stability_relation.backward_map is None);
    &&& DX::obeys_eq_spec() ==> (r is Ok <==> meet && derivable)
    &&& DX::obeys_eq_spec() ==> (r matches Err(e) ==> e.variant == (if meet {
        ErrorVariant::BoundNotDerivable
    } else {
        ErrorVariant::DomainMismatch
    }))
    &&& r matches Err(e) ==> e.variant == ErrorVariant::BoundNotDerivable || e.variant
        == ErrorVariant::DomainMismatch
    &&& r matches Ok(chain) ==> {
        &&& is_chain_tt(chain, transformation1, transformation0)
        &&& chooses::<MI::Distance, MO::Distance, MX::Distance, H, F0, B1>(
            *chain.stability_relation.relation.hint,
            hint,
            transformation0.stability_relation.forward_map,
            transformation1.stability_relation.backward_map,
        )
    }
}

/// The shared computation of a hint, if there is a hint.
pub open spec fn hint_of<MI: Metric, MO: Metric, MX: Metric, H>(
    hint: Option<&HintTt<MI, MO, MX, H>>,
) -> Option<Rc<H>> {
    match hint {
        Some(h) => Some(h.hint),
        None => None,
    }
}

impl ChainTT {
    /// The transformation that runs `transformation0` and then `transformation1`.
    ///
    /// The two must meet at equal domains; otherwise the chain is refused.
    /// Its relation is the chain of the two relations. That chain goes by
    /// `hint`, or else by a map of the relations; where there is neither, no
    /// bound can be derived and the chain is refused as well.
    pub fn make_chain_tt_glue<
    DI: Domain,
    DX: Domain,
    DO: Domain,
    MI: Metric,
    MX: Metric,
    MO: Metric,
    C0: Apply<DI::Carrier, DX::Carrier>,
    C1: Apply<DX::Carrier, DO::Carrier>,
    R0: Apply2<MI::Distance, MX::Distance, bool>,
    R1: Apply2<MX::Distance, MO::Distance, bool>,
    F0: Apply<MI::Distance, Option<MX::Distance>>,
    F1: Apply<MX::Distance, Option<MO::Distance>>,
    B0: Apply<MX::Distance, Option<MI::Distance>>,
    B1: Apply<MO::Distance, Option<MX::Distance>>,
    H: Apply2<MI::Distance, MO::Distance, Option<MX::Distance>>,
>(
        transformation1: &Transformation<DX, DO, MX, MO, C1, R1, F1, B1>,
        transformation0: &Transformation<DI, DX, MI, MX, C0, R0, F0, B0>,
        hint: Option<&HintTt<MI, MO, MX, H>>,
        input_glue: &MetricGlue<DI, MI>,
        x_glue: &MetricGlue<DX, MX>,
        output_glue: &MetricGlue<DO, MO>,
    ) -> (r: Fallible<Transformation<
    DI,
    DO,
    MI,
    MO,
    Chained<DX::Carrier, C0, C1>,
    ChainedRelation<MX::Distance, R0, R1, ChainHint<H, F0, B1>>,
    ChainedMap<MX::Distance, F0, F1>,
    ChainedMap<MX::Distance, B1, B0>,
>>)
        ensures
            chain_tt_outcome(r, *transformation1, *transformation0, hint_of(hint)),
    {
        if !x_glue.domain_eq(&transformation0.output_domain, &transformation1.input_domain) {
            return Err(
                Error::new(
                    ErrorVariant::DomainMismatch,
                    "the first transformation's output domain is not the second's input domain",
                ),
            );
        }
        let stability_relation = match StabilityRelation::make_chain(
            &transformation1.stability_relation,
            &transformation0.stability_relation,
            hint,
        ) {
            Ok(relation) => relation,
            Err(e) => {
                return Err(e);
            },
        };
        let input_domain = input_glue.domain_clone(&transformation0.input_domain);
        let output_domain = output_glue.domain_clone(&transformation1.output_domain);
        let function = Function::make_chain(&transformation1.function, &transformation0.function);
        let input_metric = input_glue.metric_clone(&transformation0.input_metric);
        let output_metric = output_glue.metric_clone(&transformation1.output_metric);
        Ok(
            Transformation {
                input_domain,
                output_domain,
                function,
                input_metric,
                output_metric,
                stability_relation,
            },
        )
    }

    /// The transformation that runs `transformation0` and then
    /// `transformation1`, without a hint.
    pub fn make2<
    DI: Domain,
    DX: Domain,
    DO: Domain,
    MI: Metric,
    MX: Metric,
    MO: Metric,
    C0: Apply<DI::Carrier, DX::Carrier>,
    C1: Apply<DX::Carrier, DO::Carrier>,
    R0: Apply2<MI::Distance, MX::Distance, bool>,
    R1: Apply2<MX::Distance, MO::Distance, bool>,
    F0: Apply<MI::Distance, Option<MX::Distance>>,
    F1: Apply<MX::Distance, Option<MO::Distance>>,
    B0: Apply<MX::Distance, Option<MI::Distance>>,
    B1: Apply<MO::Distance, Option<MX::Distance>>,
>(
        transformation1: &Transformation<DX, DO, MX, MO, C1, R1, F1, B1>,
        transformation0: &Transformation<DI, DX, MI, MX, C0, R0, F0, B0>,
    ) -> (r: Fallible<Transformation<
    DI,
    DO,
    MI,
    MO,
    Chained<DX::Carrier, C0, C1>,
    ChainedRelation<MX::Distance, R0, R1, ChainHint<NoMap, F0, B1>>,
    ChainedMap<MX::Distance, F0, F1>,
    ChainedMap<MX::Distance, B1, B0>,
>>)
        ensures
            chain_tt_outcome(r, *transformation1, *transformation0, None),
    {
        let input_glue = MetricGlue::<DI, MI>::new();
        let x_glue = MetricGlue::<DX, MX>::new();
        let output_glue = MetricGlue::<DO, MO>::new();
        let hint: Option<&HintTt<MI, MO, MX, NoMap>> = None;
        Self::make_chain_tt_glue(
            transformation1,
            transformation0,
            hint,
            &input_glue,
            &x_glue,
            &output_glue,
        )
    }

    /// The transformation that runs `transformation0` and then
    /// `transformation1`, without a hint.
    pub fn make<
    DI: Domain,
    DX: Domain,
    DO: Domain,
    MI: Metric,
    MX: Metric,
    MO: Metric,
    C0: Apply<DI::Carrier, DX::Carrier>,
    C1: Apply<DX::Carrier, DO::Carrier>,
    R0: Apply2<MI::Distance, MX::Distance, bool>,
    R1: Apply2<MX::Distance, MO::Distance, bool>,
    F0: Apply<MI::Distance, Option<MX::Distance>>,
    F1: Apply<MX::Distance, Option<MO::Distance>>,
    B0: Apply<MX::Distance, Option<MI::Distance>>,
    B1: Apply<MO::Distance, Option<MX::Distance>>,
>(
        transformation1: &Transformation<DX, DO, MX, MO, C1, R1, F1, B1>,
        transformation0: &Transformation<DI, DX, MI, MX, C0, R0, F0, B0>,
    ) -> (r: Fallible<Transformation<
    DI,
    DO,
    MI,
    MO,
    Chained<DX::Carrier, C0, C1>,
    ChainedRelation<MX::Distance, R0, R1, ChainHint<NoMap, F0, B1>>,
    ChainedMap<MX::Distance, F0, F1>,
    ChainedMap<MX::Distance, B1, B0>,
>>)
        ensures
            chain_tt_outcome(r, *transformation1, *transformation0, None),
    {
        Self::make2(transformation1, transformation0)
    }
}

/// Chaining keeps the bundles' promise: where two transformations map
/// between their domains and meet at equal domains, the chain maps between
/// its own.
pub proof fn lemma_chain_tt_respects_domains<
    DI: Domain,
    DX: Domain,
    DO: Domain,
    MI: Metric,
    MX: Metric,
    MO: Metric,
    C0: Apply<DI::Carrier, DX::Carrier>,
    C1: Apply<DX::Carrier, DO::Carrier>,
    R0: Apply2<MI::Distance, MX::Distance, bool>,
    R1: Apply2<MX::Distance, MO::Distance, bool>,
    F0: Apply<MI::Distance, Option<MX::Distance>>,
    F1: Apply<MX::Distance, Option<MO::Distance>>,
    B0: Apply<MX::Distance, Option<MI::Distance>>,
    B1: Apply<MO::Distance, Option<MX::Distance>>,
    H: Apply2<MI::Distance, MO::Distance, Option<MX::Distance>>,
>(
    chain: Transformation<
        DI,
        DO,
        MI,
        MO,
        Chained<DX::Carrier, C0, C1>,
        ChainedRelation<MX::Distance, R0, R1, ChainHint<H, F0, B1>>,
        ChainedMap<MX::Distance, F0, F1>,
        ChainedMap<MX::Distance, B1, B0>,
    >,
    transformation1: Transformation<DX, DO, MX, MO, C1, R1, F1, B1>,
    transformation0: Transformation<DI, DX, MI, MX, C0, R0, F0, B0>,
)
    requires
        is_chain_tt(chain, transformation1, transformation0),
        (*transformation0.output_domain).eq_spec(&*transformation1.input_domain),
        transformation0.respects_domains(),
        transformation1.respects_domains(),
        DI::obeys_domain_laws(),
        DX::obeys_domain_laws(),
        DO::obeys_domain_laws(),
    ensures
        chain.respects_domains(),
{
    let whole = *chain.function.function;
    let inner = *transformation0.function.function;
    let outer = *transformation1.function.function;
    lemma_joined_maps_between(
        whole,
        inner,
        outer,
        *transformation0.input_domain,
        *transformation0.output_domain,
        *transformation1.input_domain,
        *transformation1.output_domain,
        *chain.input_domain,
        *chain.output_domain,
    );
}

/// Runs two measurements on the same input.
pub struct Composition;

/// Whether `composition` is `measurement0` beside `measurement1`: its input
/// side is that of the first, its output domain is the pair of the two output
/// domains, each in a box, its function runs both functions, its measure is
/// that of the first, and its privacy relation is that of the two relations
/// side by side, by the strategy it holds.
pub open spec fn is_composition<
    DI: Domain,
    DO0: Domain,
    DO1: Domain,
    MI: Metric,
    MO: Measure,
    C0: Apply<DI::Carrier, DO0::Carrier>,
    C1: Apply<DI::Carrier, DO1::Carrier>,
    R0: Apply2<MI::Distance, MO::Distance, bool>,
    R1: Apply2<MI::Distance, MO::Distance, bool>,
    BM0,
    BM1,
    S: Apply2<MI::Distance, MO::Distance, Option<(MO::Distance, MO::Distance)>>,
>(
    composition: Measurement<
        DI,
        PairDomain<BoxDomain<DO0>, BoxDomain<DO1>>,
        MI,
        MO,
        Fanout<C0, C1>,
        ComposedRelation<R0, R1, S>,
        NoMap,
    >,
    measurement0: Measurement<DI, DO0, MI, MO, C0, R0, BM0>,
    measurement1: Measurement<DI, DO1, MI, MO, C1, R1, BM1>,
) -> bool {
    &&& cloned(*measurement0.input_domain, *composition.input_domain)
    &&& cloned(*measurement0.output_domain, composition.output_domain.0.element_domain())
    &&& cloned(*measurement1.output_domain, composition.output_domain.1.element_domain())
    &&& composition.function.is_composition_of(&measurement0.function, &measurement1.function)
    &&& cloned(*measurement0.input_metric, *composition.input_metric)
    &&& cloned(*measurement0.output_measure, *composition.output_measure)
    &&& composition.privacy_relation.is_composition_of(
        &measurement0.privacy_relation,
        &measurement1.privacy_relation,
        composition.privacy_relation.relation.strategy,
    )
}

/// What composing `measurement0` with `measurement1` by `strategy` gives: an
/// error where the two do not have equal input domains; else an error where
/// there is no strategy to derive a bound by; else the composition, whose
/// privacy relation goes by the strategy.
pub open spec fn composition_outcome<
    DI: Domain,
    DO0: Domain,
    DO1: Domain,
    MI: Metric,
    MO: Measure,
    C0: Apply<DI::Carrier, DO0::Carrier>,
    C1: Apply<DI::Carrier, DO1::Carrier>,
    R0: Apply2<MI::Distance, MO::Distance, bool>,
    R1: Apply2<MI::Distance, MO::Distance, bool>,
    BM0,
    BM1,
    S: Apply2<MI::Distance, MO::Distance, Option<(MO::Distance, MO::Distance)>>,
>(
    r: Fallible<Measurement<
        DI,
        PairDomain<BoxDomain<DO0>, BoxDomain<DO1>>,
        MI,
        MO,
        Fanout<C0, C1>,
        ComposedRelation<R0, R1, S>,
        NoMap,
    >>,
    measurement0: Measurement<DI, DO0, MI, MO, C0, R0, BM0>,
    measurement1: Measurement<DI, DO1, MI, MO, C1, R1, BM1>,
    strategy: Option<Rc<S>>,
) -> bool {
    let meet = (*measurement0.input_domain).eq_spec(&*measurement1.input_domain);
    &&& DI::obeys_eq_spec() ==> (r is Ok <==> meet && strategy is Some)
    &&& DI::obeys_eq_spec() ==> (r matches Err(e) ==> e.variant == (if meet {
        ErrorVariant::BoundNotDerivable
    } else {
        ErrorVariant::DomainMismatch
    }))
    &&& r matches Err(e) ==> e.variant == ErrorVariant::BoundNotDerivable || e.variant
        == ErrorVariant::DomainMismatch
    &&& r matches Ok(composition) ==> {
        &&& is_composition(composition, measurement0, measurement1)
        &&& strategy == Some(composition.privacy_relation.relation.strategy)
    }
}

/// The shared computation of a strategy, if there is a strategy.
pub open spec fn strategy_of<MI: Metric, MO: Measure, S>(
    strategy: Option<&HintMm<MI, MO, S>>,
) -> Option<Rc<S>> {
    match strategy {
        Some(s) => Some(s.hint),
        None => None,
    }
}

/// The measurement that runs `measurement0` and `measurement1` on the same
/// input and returns both results.
///
/// The two must have equal input domains; otherwise the composition is
/// refused. Its privacy relation holds where, for the shares of the output
/// distance that `strategy` proposes, each measurement is as private as its
/// share. Without a strategy no bound can be derived, and the composition is
/// refused as well.
pub fn make_composition_glue<
    DI: Domain,
    DO0: Domain,
    DO1: Domain,
    MI: Metric,
    MO: Measure,
    C0: Apply<DI::Carrier, DO0::Carrier>,
    C1: Apply<DI::Carrier, DO1::Carrier>,
    R0: Apply2<MI::Distance, MO::Distance, bool>,
    R1: Apply2<MI::Distance, MO::Distance, bool>,
    BM0,
    BM1,
    S: Apply2<MI::Distance, MO::Distance, Option<(MO::Distance, MO::Distance)>>,
>(
    measurement0: &Measurement<DI, DO0, MI, MO, C0, R0, BM0>,
    measurement1: &Measurement<DI, DO1, MI, MO, C1, R1, BM1>,
    strategy: Option<&HintMm<MI, MO, S>>,
    input_glue: &MetricGlue<DI, MI>,
    output_glue0: &MeasureGlue<DO0, MO>,
    output_glue1: &MeasureGlue<DO1, MO>,
) -> (r: Fallible<Measurement<
        DI,
        PairDomain<BoxDomain<DO0>, BoxDomain<DO1>>,
        MI,
        MO,
        Fanout<C0, C1>,
        ComposedRelation<R0, R1, S>,
        NoMap,
    >>)
    ensures
        composition_outcome(r, *measurement0, *measurement1, strategy_of(strategy)),
{
    if !input_glue.domain_eq(&measurement0.input_domain, &measurement1.input_domain) {
        return Err(
            Error::new(
                ErrorVariant::DomainMismatch,
                "the two measurements do not have the same input domain",
            ),
        );
    }
    let privacy_relation = match PrivacyRelation::make_composition(
        &measurement0.privacy_relation,
        &measurement1.privacy_relation,
        strategy,
    ) {
        Ok(relation) => relation,
        Err(e) => {
            return Err(e);
        },
    };
    let input_domain = input_glue.domain_clone(&measurement0.input_domain);
    let output_domain0 = output_glue0.domain_clone(&measurement0.output_domain);
    let output_domain0 = BoxDomain::new(output_domain0);
    let output_domain1 = output_glue1.domain_clone(&measurement1.output_domain);
    let output_domain1 = BoxDomain::new(output_domain1);
    let output_domain = PairDomain::new(output_domain0, output_domain1);
    let output_domain = Box::new(output_domain);
    let function = Function::make_composition(&measurement0.function, &measurement1.function);
    let input_metric = input_glue.metric_clone(&measurement0.input_metric);
    let output_measure = output_glue0.measure_clone(&measurement0.output_measure);
    Ok(
        Measurement {
            input_domain,
            output_domain,
            function,
            input_metric,
            output_measure,
            privacy_relation,
        },
    )
}

impl Composition {
    /// The measurement that runs `measurement0` and `measurement1` on the same
    /// input and returns both results, with the privacy relation that goes by
    /// `strategy`.
    pub fn make2<
        DI: Domain,
        DO0: Domain,
        DO1: Domain,
        MI: Metric,
        MO: Measure,
        C0: Apply<DI::Carrier, DO0::Carrier>,
        C1: Apply<DI::Carrier, DO1::Carrier>,
        R0: Apply2<MI::Distance, MO::Distance, bool>,
        R1: Apply2<MI::Distance, MO::Distance, bool>,
        BM0,
        BM1,
        S: Apply2<MI::Distance, MO::Distance, Option<(MO::Distance, MO::Distance)>>,
    >(
        measurement0: &Measurement<DI, DO0, MI, MO, C0, R0, BM0>,
        measurement1: &Measurement<DI, DO1, MI, MO, C1, R1, BM1>,
        strategy: Option<&HintMm<MI, MO, S>>,
    ) -> (r: Fallible<Measurement<
            DI,
            PairDomain<BoxDomain<DO0>, BoxDomain<DO1>>,
            MI,
            MO,
            Fanout<C0, C1>,
            ComposedRelation<R0, R1, S>,
            NoMap,
        >>)
        ensures
            composition_outcome(r, *measurement0, *measurement1, strategy_of(strategy)),
    {
        let input_glue = MetricGlue::<DI, MI>::new();
        let output_glue0 = MeasureGlue::<DO0, MO>::new();
        let output_glue1 = MeasureGlue::<DO1, MO>::new();
        make_composition_glue(
            measurement0,
            measurement1,
            strategy,
            &input_glue,
            &output_glue0,
            &output_glue1,
        )
    }

    /// The measurement that runs `measurement0` and `measurement1` on the same
    /// input and returns both results, with the privacy relation that goes by
    /// `strategy`.
    pub fn make<
        DI: Domain,
        DO0: Domain,
        DO1: Domain,
        MI: Metric,
        MO: Measure,
        C0: Apply<DI::Carrier, DO0::Carrier>,
        C1: Apply<DI::Carrier, DO1::Carrier>,
        R0: Apply2<MI::Distance, MO::Distance, bool>,
        R1: Apply2<MI::Distance, MO::Distance, bool>,
        BM0,
        BM1,
        S: Apply2<MI::Distance, MO::Distance, Option<(MO::Distance, MO::Distance)>>,
    >(
        measurement0: &Measurement<DI, DO0, MI, MO, C0, R0, BM0>,
        measurement1: &Measurement<DI, DO1, MI, MO, C1, R1, BM1>,
        strategy: Option<&HintMm<MI, MO, S>>,
    ) -> (r: Fallible<Measurement<
            DI,
            PairDomain<BoxDomain<DO0>, BoxDomain<DO1>>,
            MI,
            MO,
            Fanout<C0, C1>,
            ComposedRelation<R0, R1, S>,
            NoMap,
        >>)
        ensures
            composition_outcome(r, *measurement0, *measurement1, strategy_of(strategy)),
    {
        Self::make2(measurement0, measurement1, strategy)
    }
}

/// Composition keeps the bundles' promise: where two measurements map between
/// their domains, their composition maps between its own.
pub proof fn lemma_composition_respects_domains<
    DI: Domain,
    DO0: Domain,
    DO1: Domain,
    MI: Metric,
    MO: Measure,
    C0: Apply<DI::Carrier, DO0::Carrier>,
    C1: Apply<DI::Carrier, DO1::Carrier>,
    R0: Apply2<MI::Distance, MO::Distance, bool>,
    R1: Apply2<MI::Distance, MO::Distance, bool>,
    BM0,
    BM1,
    S: Apply2<MI::Distance, MO::Distance, Option<(MO::Distance, MO::Distance)>>,
>(
    composition: Measurement<
        DI,
        PairDomain<BoxDomain<DO0>, BoxDomain<DO1>>,
        MI,
        MO,
        Fanout<C0, C1>,
        ComposedRelation<R0, R1, S>,
        NoMap,
    >,
    measurement0: Measurement<DI, DO0, MI, MO, C0, R0, BM0>,
    measurement1: Measurement<DI, DO1, MI, MO, C1, R1, BM1>,
)
    requires
        is_composition(composition, measurement0, measurement1),
        (*measurement0.input_domain).eq_spec(&*measurement1.input_domain),
        measurement0.respects_domains(),
        measurement1.respects_domains(),
        DI::obeys_domain_laws(),
        DO0::obeys_domain_laws(),
        DO1::obeys_domain_laws(),
    ensures
        composition.respects_domains(),
{
    let whole = *composition.function.function;
    let left = *measurement0.function.function;
    let right = *measurement1.function.function;
    let input_domain = *composition.input_domain;
    let output_domain = *composition.output_domain;
    assert forall|arg: &DI::Carrier| #[trigger] input_domain.member_spec(arg) implies {
        &&& whole.accepts(arg)
        &&& forall|out: (Box<DO0::Carrier>, Box<DO1::Carrier>)| #[trigger]
            whole.yields(arg, out) ==> output_domain.member_spec(&out)
    } by {
        measurement0.input_domain.lemma_same_members(&input_domain, arg);
        measurement0.input_domain.lemma_same_members(&*measurement1.input_domain, arg);
        assert forall|out: (Box<DO0::Carrier>, Box<DO1::Carrier>)| #[trigger]
            whole.yields(arg, out) implies output_domain.member_spec(&out) by {
            measurement0.output_domain.lemma_same_members(
                &output_domain.0.element_domain(),
                &*out.0,
            );
            measurement1.output_domain.lemma_same_members(
                &output_domain.1.element_domain(),
                &*out.1,
            );
        }
    }
}

/// A chain of two functions that map between domains maps between clones of
/// the outer domains, where the inner domains are equal.
proof fn lemma_joined_maps_between<
    DI: Domain,
    DX: Domain,
    DO: Domain,
    C0: Apply<DI::Carrier, DX::Carrier>,
    C1: Apply<DX::Carrier, DO::Carrier>,
    W: Apply<DI::Carrier, DO::Carrier>,
>(
    whole: W,
    inner: C0,
    outer: C1,
    first_input: DI,
    first_output: DX,
    second_input: DX,
    second_output: DO,
    input_domain: DI,
    output_domain: DO,
)
    requires
        runs_chain::<DI::Carrier, DX::Carrier, DO::Carrier, W, C0, C1>(whole, inner, outer),
        maps_between(inner, first_input, first_output),
        maps_between(outer, second_input, second_output),
        first_output.eq_spec(&second_input),
        cloned(first_input, input_domain),
        cloned(second_output, output_domain),
        DI::obeys_domain_laws(),
        DX::obeys_domain_laws(),
        DO::obeys_domain_laws(),
    ensures
        maps_between(whole, input_domain, output_domain),
{
    assert forall|mid: &DX::Carrier| #[trigger]
        first_output.member_spec(mid) implies second_input.member_spec(mid) by {
        first_output.lemma_same_members(&second_input, mid);
    }
    lemma_chain_maps_between(
        whole,
        inner,
        outer,
        first_input,
        first_output,
        second_input,
        second_output,
    );
    assert forall|arg: &DI::Carrier| #[trigger] input_domain.member_spec(arg) implies {
        &&& whole.accepts(arg)
        &&& forall|out: DO::Carrier| #[trigger]
            whole.yields(arg, out) ==> output_domain.member_spec(&out)
    } by {
        first_input.lemma_same_members(&input_domain, arg);
        assert forall|out: DO::Carrier| #[trigger]
            whole.yields(arg, out) implies output_domain.member_spec(&out) by {
            second_output.lemma_same_members(&output_domain, &out);
        }
    }
}

} // verus!
