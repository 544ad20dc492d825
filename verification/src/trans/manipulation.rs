//! Transformations that pass data on, bound it or change its type.

use vstd::prelude::*;
use std::cmp::Ordering;
use std::marker::PhantomData;
use std::ops::Bound;
use vstd::laws_cmp::obeys_cmp_partial_ord;
use vstd::std_specs::cmp::PartialOrdSpec;
use crate::dom::{above, below, contradictory, AllDomain, IntervalDomain, VectorDomain};
use crate::error::{ErrorVariant, Fallible};
use crate::func::{
    behave_alike, clones_are_equal, lemma_chain_identity_after, lemma_chain_identity_before, Apply,
    Apply2, Chained, ChainedMap, Duplicate,
};
use crate::kernel::{
    is_chain_tt, maps_between, ConstantStable, DatasetMetric, Domain, Function, Metric,
    Transformation,
};
use crate::relation::{
    ChainHint, ChainedRelation, ConstantBackward, ConstantForward, ConstantRelation,
    StabilityRelation,
};
use crate::traits::{CastFrom, DistanceCast};
use crate::trans::{MakeTransformation0, MakeTransformation2};

verus! {

/// Makes the transformation that passes its input on unchanged.
pub struct Identity;

/// Whether `t` is stable with the constant one: its relation and both of its
/// maps are built from a constant that stands for one.
pub open spec fn one_stable<DI: Domain, DO: Domain, M: Metric, C>(
    t: ConstantStable<DI, DO, M, C>,
) -> bool where M::Distance: DistanceCast {
    &&& t.stability_relation.relation.constant.value() == 1
    &&& t.stability_relation.forward_map matches Some(f) && f.constant.value() == 1
    &&& t.stability_relation.backward_map matches Some(b) && b.constant.value() == 1
}

impl<D: Domain, M: Metric> MakeTransformation2<D, M> for Identity where
    D::Carrier: Clone,
    M::Distance: DistanceCast,
 {
    type Output = ConstantStable<D, D, M, Duplicate>;

    /// The identity on `domain`, which is stable with the constant one in `metric`.
    fn make2(domain: D, metric: M) -> (r: Fallible<Self::Output>)
        ensures
            r matches Ok(t) && {
                &&& cloned(domain, *t.input_domain)
                &&& *t.output_domain == domain
                &&& cloned(metric, *t.input_metric)
                &&& *t.output_metric == metric
                &&& one_stable(t)
                &&& clones_are_equal::<D::Carrier>() && D::obeys_domain_laws()
                    ==> t.respects_domains()
            },
    {
        let copy = domain.clone();
        proof {
            if clones_are_equal::<D::Carrier>() && D::obeys_domain_laws() {
                assert forall|arg: &D::Carrier| #[trigger] copy.member_spec(arg) implies forall|
                    out: D::Carrier,
                | #[trigger] cloned(*arg, out) ==> domain.member_spec(&out) by {
                    domain.lemma_same_members(&copy, arg);
                }
            }
        }
        Ok(
            Transformation {
                input_domain: Box::new(copy),
                output_domain: Box::new(domain),
                function: Function::new_from(Duplicate),
                input_metric: Box::new(metric.clone()),
                output_metric: Box::new(metric),
                stability_relation: StabilityRelation::new_from_constant(M::Distance::one()),
            },
        )
    }

    /// The identity on `domain`, which is stable with the constant one in `metric`.
    fn make(domain: D, metric: M) -> (r: Fallible<Self::Output>)
        ensures
            r matches Ok(t) && {
                &&& cloned(domain, *t.input_domain)
                &&& *t.output_domain == domain
                &&& cloned(metric, *t.input_metric)
                &&& *t.output_metric == metric
                &&& one_stable(t)
                &&& clones_are_equal::<D::Carrier>() && D::obeys_domain_laws()
                    ==> t.respects_domains()
            },
    {
        Self::make2(domain, metric)
    }
}

/// A transformation chained into the identity on its output domain computes
/// what the transformation computes, where clones of its results are equal to
/// the results.
pub proof fn lemma_chain_into_identity<
    DI: Domain,
    DX: Domain,
    MI: Metric,
    MX: Metric,
    C0: Apply<DI::Carrier, DX::Carrier>,
    R0: Apply2<MI::Distance, MX::Distance, bool>,
    F0: Apply<MI::Distance, Option<MX::Distance>>,
    B0: Apply<MX::Distance, Option<MI::Distance>>,
    H: Apply2<MI::Distance, MX::Distance, Option<MX::Distance>>,
>(
    chain: Transformation<
        DI,
        DX,
        MI,
        MX,
        Chained<DX::Carrier, C0, Duplicate>,
        ChainedRelation<
            MX::Distance,
            R0,
            ConstantRelation<MX::Distance, MX::Distance>,
            ChainHint<H, F0, ConstantBackward<MX::Distance, MX::Distance>>,
        >,
        ChainedMap<MX::Distance, F0, ConstantForward<MX::Distance, MX::Distance>>,
        ChainedMap<MX::Distance, ConstantBackward<MX::Distance, MX::Distance>, B0>,
    >,
    identity: ConstantStable<DX, DX, MX, Duplicate>,
    transformation: Transformation<DI, DX, MI, MX, C0, R0, F0, B0>,
) where DX::Carrier: Clone, MX::Distance: DistanceCast
    requires
        is_chain_tt(chain, identity, transformation),
        clones_are_equal::<DX::Carrier>(),
    ensures
        behave_alike::<DI::Carrier, DX::Carrier, _, _>(
            *chain.function.function,
            *transformation.function.function,
        ),
{
    let whole = *chain.function.function;
    let inner = *transformation.function.function;
    let outer = *identity.function.function;
    lemma_chain_identity_after::<DI::Carrier, DX::Carrier, _, _>(whole, inner, outer);
}

/// The identity on a transformation's input domain chained into the
/// transformation computes what the transformation computes, where clones of
/// its arguments are equal to the arguments.
pub proof fn lemma_chain_from_identity<
    DX: Domain,
    DO: Domain,
    MX: Metric,
    MO: Metric,
    C1: Apply<DX::Carrier, DO::Carrier>,
    R1: Apply2<MX::Distance, MO::Distance, bool>,
    F1: Apply<MX::Distance, Option<MO::Distance>>,
    B1: Apply<MO::Distance, Option<MX::Distance>>,
    H: Apply2<MX::Distance, MO::Distance, Option<MX::Distance>>,
>(
    chain: Transformation<
        DX,
        DO,
        MX,
        MO,
        Chained<DX::Carrier, Duplicate, C1>,
        ChainedRelation<
            MX::Distance,
            ConstantRelation<MX::Distance, MX::Distance>,
            R1,
            ChainHint<H, ConstantForward<MX::Distance, MX::Distance>, B1>,
        >,
        ChainedMap<MX::Distance, ConstantForward<MX::Distance, MX::Distance>, F1>,
        ChainedMap<MX::Distance, B1, ConstantBackward<MX::Distance, MX::Distance>>,
    >,
    transformation: Transformation<DX, DO, MX, MO, C1, R1, F1, B1>,
    identity: ConstantStable<DX, DX, MX, Duplicate>,
) where DX::Carrier: Clone, MX::Distance: DistanceCast
    requires
        is_chain_tt(chain, transformation, identity),
        clones_are_equal::<DX::Carrier>(),
    ensures
        behave_alike::<DX::Carrier, DO::Carrier, _, _>(
            *chain.function.function,
            *transformation.function.function,
        ),
{
    let whole = *chain.function.function;
    let inner = *identity.function.function;
    let outer = *transformation.function.function;
    lemma_chain_identity_before::<DX::Carrier, DO::Carrier, _, _>(whole, outer, inner);
}

/// Whether the order of `T` is total: any two values compare, a value equals
/// itself, and swapping the sides of a comparison swaps its outcome.
pub open spec fn totally_ordered<T: PartialOrd>() -> bool {
    &&& obeys_cmp_partial_ord::<T>()
    &&& forall|x: T, y: T| #[trigger] x.partial_cmp_spec(&y) is Some
    &&& forall|x: T| #[trigger] x.partial_cmp_spec(&x) == Some(Ordering::Equal)
    &&& forall|x: T, y: T| #[trigger]
        x.partial_cmp_spec(&y) == Some(Ordering::Less) <==> y.partial_cmp_spec(&x) == Some(
            Ordering::Greater,
        )
    &&& forall|x: T, y: T| #[trigger]
        x.partial_cmp_spec(&y) == Some(Ordering::Equal) ==> y.partial_cmp_spec(&x) == Some(
            Ordering::Equal,
        )
}

/// What `x` is clamped to: `lower` where `x` is less, `upper` where `x` is
/// greater, and `x` itself otherwise.
pub open spec fn clamped<T: PartialOrd>(lower: T, upper: T, x: T) -> T {
    if x.partial_cmp_spec(&lower) == Some(Ordering::Less) {
        lower
    } else if x.partial_cmp_spec(&upper) == Some(Ordering::Greater) {
        upper
    } else {
        x
    }
}

/// In a total order, what a value is clamped to lies between the bounds,
/// where the lower bound is not the greater one.
pub proof fn lemma_clamped_lies_between<T: PartialOrd>(lower: T, upper: T, x: T)
    requires
        totally_ordered::<T>(),
        lower.partial_cmp_spec(&upper) != Some(Ordering::Greater),
    ensures
        above(Bound::Included(lower), clamped(lower, upper, x)),
        below(Bound::Included(upper), clamped(lower, upper, x)),
{
    assert(lower.partial_cmp_spec(&upper) is Some);
    assert(x.partial_cmp_spec(&lower) is Some);
    assert(x.partial_cmp_spec(&upper) is Some);
    assert(lower.partial_cmp_spec(&lower) == Some(Ordering::Equal));
    assert(upper.partial_cmp_spec(&upper) == Some(Ordering::Equal));
    assert(upper.partial_cmp_spec(&lower) is Some);
}

fn clamp<T: Clone + PartialOrd>(lower: &T, upper: &T, x: &T) -> (r: T)
    ensures
        T::obeys_partial_cmp_spec() ==> cloned(clamped(*lower, *upper, *x), r),
{
    (if *x < *lower {
        lower
    } else if *x > *upper {
        upper
    } else {
        x
    }).clone()
}

/// The computation that clamps a value to the range from `lower` to `upper`.
pub struct ClampOne<T> {
    pub lower: T,
    pub upper: T,
}

impl<T: Clone + PartialOrd> Apply<T, T> for ClampOne<T> {
    open spec fn accepts(&self, arg: &T) -> bool {
        true
    }

    open spec fn yields(&self, arg: &T, out: T) -> bool {
        T::obeys_partial_cmp_spec() ==> cloned(clamped(self.lower, self.upper, *arg), out)
    }

    fn apply(&self, arg: &T) -> (out: T) {
        clamp(&self.lower, &self.upper, arg)
    }
}

/// The computation that clamps each element of a vector to the range from
/// `lower` to `upper`.
pub struct ClampEach<T> {
    pub lower: T,
    pub upper: T,
}

impl<T: Clone + PartialOrd> Apply<Vec<T>, Vec<T>> for ClampEach<T> {
    open spec fn accepts(&self, arg: &Vec<T>) -> bool {
        true
    }

    open spec fn yields(&self, arg: &Vec<T>, out: Vec<T>) -> bool {
        &&& out@.len() == arg@.len()
        &&& T::obeys_partial_cmp_spec() ==> forall|i: int|
            0 <= i < arg@.len() ==> cloned(
                clamped(self.lower, self.upper, arg@[i]),
                #[trigger] out@[i],
            )
    }

    fn apply(&self, arg: &Vec<T>) -> (out: Vec<T>) {
        let mut out: Vec<T> = Vec::new();
        let mut i: usize = 0;
        while i < arg.len()
            invariant
                0 <= i <= arg@.len(),
                out@.len() == i,
                T::obeys_partial_cmp_spec() ==> forall|j: int|
                    0 <= j < i ==> cloned(
                        clamped(self.lower, self.upper, arg@[j]),
                        #[trigger] out@[j],
                    ),
            decreases arg@.len() - i,
        {
            out.push(clamp(&self.lower, &self.upper, &arg[i]));
            i += 1;
        }
        out
    }
}

/// Makes the transformation that clamps data to a range.
pub struct Clamp<M, T> {
    metric: PhantomData<M>,
    data: PhantomData<T>,
}

impl<M: DatasetMetric, T: Clone + PartialOrd> MakeTransformation2<T, T> for Clamp<M, Vec<T>> where
    M::Distance: DistanceCast,
 {
    type Output = ConstantStable<
        VectorDomain<AllDomain<T>>,
        VectorDomain<IntervalDomain<T>>,
        M,
        ClampEach<T>,
    >;

    /// The transformation that clamps each element of a vector to the range
    /// from `lower` to `upper`, unless `lower` is greater than `upper`.
    fn make2(lower: T, upper: T) -> (r: Fallible<Self::Output>)
        ensures
            obeys_cmp_partial_ord::<T>() && clones_are_equal::<T>() ==> (r is Err
                <==> lower.partial_cmp_spec(&upper) == Some(Ordering::Greater)),
            r matches Err(e) ==> e.variant == ErrorVariant::MakeTransformation,
            r matches Ok(t) ==> {
                &&& t.output_domain.element_domain.lower() matches Bound::Included(l) && cloned(
                    lower,
                    l,
                )
                &&& t.output_domain.element_domain.upper() matches Bound::Included(u) && cloned(
                    upper,
                    u,
                )
                &&& t.function.function.lower == lower
                &&& t.function.function.upper == upper
                &&& one_stable(t)
                &&& totally_ordered::<T>() && clones_are_equal::<T>() ==> t.respects_domains()
            },
    {
        let l = lower.clone();
        let u = upper.clone();
        assert(cloned(lower, l) && cloned(upper, u));
        let interval = match IntervalDomain::new(Bound::Included(l), Bound::Included(u)) {
            Ok(interval) => interval,
            Err(e) => {
                return Err(e);
            },
        };
        proof {
            if totally_ordered::<T>() && clones_are_equal::<T>() {
                reveal(obeys_cmp_partial_ord);
                assert forall|x: T, out: T| #[trigger]
                    cloned(clamped(lower, upper, x), out) implies interval.member_spec(&out) by {
                    lemma_clamped_lies_between(lower, upper, x);
                }
            }
        }
        Ok(
            Transformation {
                input_domain: Box::new(VectorDomain::new_all()),
                output_domain: Box::new(VectorDomain::new(interval)),
                function: Function::new_from(ClampEach { lower, upper }),
                input_metric: Box::new(M::new()),
                output_metric: Box::new(M::new()),
                stability_relation: StabilityRelation::new_from_constant(M::Distance::one()),
            },
        )
    }

    /// The transformation that clamps each element of a vector to the range
    /// from `lower` to `upper`, unless `lower` is greater than `upper`.
    fn make(lower: T, upper: T) -> (r: Fallible<Self::Output>)
        ensures
            obeys_cmp_partial_ord::<T>() && clones_are_equal::<T>() ==> (r is Err
                <==> lower.partial_cmp_spec(&upper) == Some(Ordering::Greater)),
            r matches Err(e) ==> e.variant == ErrorVariant::MakeTransformation,
            r matches Ok(t) ==> {
                &&& t.output_domain.element_domain.lower() matches Bound::Included(l) && cloned(
                    lower,
                    l,
                )
                &&& t.output_domain.element_domain.upper() matches Bound::Included(u) && cloned(
                    upper,
                    u,
                )
                &&& t.function.function.lower == lower
                &&& t.function.function.upper == upper
                &&& one_stable(t)
                &&& totally_ordered::<T>() && clones_are_equal::<T>() ==> t.respects_domains()
            },
    {
        Self::make2(lower, upper)
    }
}

/// Makes the transformation that forgets that data lies in a range.
pub struct Unclamp<M, T> {
    metric: PhantomData<M>,
    data: PhantomData<T>,
}

impl<M: DatasetMetric, T: Clone + PartialOrd> MakeTransformation2<T, T> for Unclamp<
    M,
    Vec<T>,
> where M::Distance: DistanceCast {
    type Output = ConstantStable<
        VectorDomain<IntervalDomain<T>>,
        VectorDomain<AllDomain<T>>,
        M,
        Duplicate,
    >;

    /// The transformation that passes on a vector whose elements lie in the
    /// range from `lower` to `upper`, unless `lower` is greater than `upper`.
    fn make2(lower: T, upper: T) -> (r: Fallible<Self::Output>)
        ensures
            obeys_cmp_partial_ord::<T>() ==> (r is Err <==> lower.partial_cmp_spec(&upper) == Some(
                Ordering::Greater,
            )),
            r matches Err(e) ==> e.variant == ErrorVariant::MakeTransformation,
            r matches Ok(t) ==> {
                &&& t.input_domain.element_domain.lower() == Bound::Included(lower)
                &&& t.input_domain.element_domain.upper() == Bound::Included(upper)
                &&& one_stable(t)
                &&& t.respects_domains()
            },
    {
        let interval = match IntervalDomain::new(Bound::Included(lower), Bound::Included(upper)) {
            Ok(interval) => interval,
            Err(e) => {
                return Err(e);
            },
        };
        Ok(
            Transformation {
                input_domain: Box::new(VectorDomain::new(interval)),
                output_domain: Box::new(VectorDomain::new_all()),
                function: Function::new_from(Duplicate),
                input_metric: Box::new(M::new()),
                output_metric: Box::new(M::new()),
                stability_relation: StabilityRelation::new_from_constant(M::Distance::one()),
            },
        )
    }

    /// The transformation that passes on a vector whose elements lie in the
    /// range from `lower` to `upper`, unless `lower` is greater than `upper`.
    fn make(lower: T, upper: T) -> (r: Fallible<Self::Output>)
        ensures
            obeys_cmp_partial_ord::<T>() ==> (r is Err <==> lower.partial_cmp_spec(&upper) == Some(
                Ordering::Greater,
            )),
            r matches Err(e) ==> e.variant == ErrorVariant::MakeTransformation,
            r matches Ok(t) ==> {
                &&& t.input_domain.element_domain.lower() == Bound::Included(lower)
                &&& t.input_domain.element_domain.upper() == Bound::Included(upper)
                &&& one_stable(t)
                &&& t.respects_domains()
            },
    {
        Self::make2(lower, upper)
    }
}

/// Whether `out` is what `v` is cast to: the counterpart of a clone of `v`, or
/// a default value where the clone has no counterpart.
pub open spec fn casts_to<TI: Clone, TO: CastFrom<TI> + Default>(v: TI, out: TO) -> bool {
    exists|copy: TI, cast: Option<TO>|
        {
            &&& cloned(v, copy)
            &&& #[trigger] TO::casts(copy, cast)
            &&& match cast {
                Some(x) => out == x,
                None => call_ensures(TO::default, (), out),
            }
        }
}

fn cast_or_default<TI: Clone, TO: CastFrom<TI> + Default>(v: &TI) -> (out: TO)
    ensures
        casts_to(*v, out),
{
    let copy = v.clone();
    assert(cloned(*v, copy));
    match TO::cast(copy) {
        Ok(x) => {
            assert(TO::casts(copy, Some(x)));
            x
        },
        Err(_) => {
            assert(TO::casts(copy, None));
            TO::default()
        },
    }
}

/// The computation that casts each element of a vector, and puts a default
/// value where an element has no counterpart.
pub struct CastEach<TI, TO> {
    pub from: PhantomData<TI>,
    pub to: PhantomData<TO>,
}

impl<TI: Clone, TO: CastFrom<TI> + Default> Apply<Vec<TI>, Vec<TO>> for CastEach<TI, TO> {
    open spec fn accepts(&self, arg: &Vec<TI>) -> bool {
        true
    }

    open spec fn yields(&self, arg: &Vec<TI>, out: Vec<TO>) -> bool {
        &&& out@.len() == arg@.len()
        &&& forall|i: int| 0 <= i < arg@.len() ==> casts_to(arg@[i], #[trigger] out@[i])
    }

    fn apply(&self, arg: &Vec<TI>) -> (out: Vec<TO>) {
        let mut out: Vec<TO> = Vec::new();
        let mut i: usize = 0;
        while i < arg.len()
            invariant
                0 <= i <= arg@.len(),
                out@.len() == i,
                forall|j: int| 0 <= j < i ==> casts_to(arg@[j], #[trigger] out@[j]),
            decreases arg@.len() - i,
        {
            out.push(cast_or_default(&arg[i]));
            i += 1;
        }
        out
    }
}

/// Makes the transformation that changes the type of data.
pub struct Cast<M, TI, TO> {
    metric: PhantomData<M>,
    data_input: PhantomData<TI>,
    data_output: PhantomData<TO>,
}

impl<
    M: DatasetMetric<Distance = u32>,
    TI: Clone,
    TO: CastFrom<TI> + Default,
> MakeTransformation0 for Cast<M, Vec<TI>, Vec<TO>> {
    type Output = ConstantStable<
        VectorDomain<AllDomain<TI>>,
        VectorDomain<AllDomain<TO>>,
        M,
        CastEach<TI, TO>,
    >;

    /// The transformation that casts each element of a vector.
    fn make0() -> (r: Fallible<Self::Output>)
        ensures
            r matches Ok(t) && one_stable(t) && t.respects_domains(),
    {
        let one: u32 = 1;
        Ok(
            Transformation {
                input_domain: Box::new(VectorDomain::new_all()),
                output_domain: Box::new(VectorDomain::new_all()),
                function: Function::new_from(CastEach { from: PhantomData, to: PhantomData }),
                input_metric: Box::new(M::new()),
                output_metric: Box::new(M::new()),
                stability_relation: StabilityRelation::new_from_constant(one),
            },
        )
    }

    /// The transformation that casts each element of a vector.
    fn make() -> (r: Fallible<Self::Output>)
        ensures
            r matches Ok(t) && one_stable(t) && t.respects_domains(),
    {
        Self::make0()
    }
}

impl<M: DatasetMetric, T: Clone + PartialOrd> MakeTransformation2<T, T> for Clamp<M, T> where
    M::Distance: DistanceCast,
 {
    type Output = ConstantStable<AllDomain<T>, IntervalDomain<T>, M, ClampOne<T>>;

    /// The transformation that clamps a value to the range from `lower` to
    /// `upper`, unless `lower` is greater than `upper`.
    fn make2(lower: T, upper: T) -> (r: Fallible<Self::Output>)
        ensures
            obeys_cmp_partial_ord::<T>() && clones_are_equal::<T>() ==> (r is Err
                <==> lower.partial_cmp_spec(&upper) == Some(Ordering::Greater)),
            r matches Err(e) ==> e.variant == ErrorVariant::MakeTransformation,
            r matches Ok(t) ==> {
                &&& t.output_domain.lower() matches Bound::Included(l) && cloned(lower, l)
                &&& t.output_domain.upper() matches Bound::Included(u) && cloned(upper, u)
                &&& t.function.function.lower == lower
                &&& t.function.function.upper == upper
                &&& one_stable(t)
                &&& totally_ordered::<T>() && clones_are_equal::<T>() ==> t.respects_domains()
            },
    {
        let l = lower.clone();
        let u = upper.clone();
        assert(cloned(lower, l) && cloned(upper, u));
        let interval = match IntervalDomain::new(Bound::Included(l), Bound::Included(u)) {
            Ok(interval) => interval,
            Err(e) => {
                return Err(e);
            },
        };
        proof {
            if totally_ordered::<T>() && clones_are_equal::<T>() {
                reveal(obeys_cmp_partial_ord);
                assert forall|x: T, out: T| #[trigger]
                    cloned(clamped(lower, upper, x), out) implies interval.member_spec(&out) by {
                    lemma_clamped_lies_between(lower, upper, x);
                }
            }
        }
        Ok(
            Transformation {
                input_domain: Box::new(AllDomain::new()),
                output_domain: Box::new(interval),
                function: Function::new_from(ClampOne { lower, upper }),
                input_metric: Box::new(M::new()),
                output_metric: Box::new(M::new()),
                stability_relation: StabilityRelation::new_from_constant(M::Distance::one()),
            },
        )
    }

    /// The transformation that clamps a value to the range from `lower` to
    /// `upper`, unless `lower` is greater than `upper`.
    fn make(lower: T, upper: T) -> (r: Fallible<Self::Output>)
        ensures
            obeys_cmp_partial_ord::<T>() && clones_are_equal::<T>() ==> (r is Err
                <==> lower.partial_cmp_spec(&upper) == Some(Ordering::Greater)),
            r matches Err(e) ==> e.variant == ErrorVariant::MakeTransformation,
            r matches Ok(t) ==> {
                &&& t.output_domain.lower() matches Bound::Included(l) && cloned(lower, l)
                &&& t.output_domain.upper() matches Bound::Included(u) && cloned(upper, u)
                &&& t.function.function.lower == lower
                &&& t.function.function.upper == upper
                &&& one_stable(t)
                &&& totally_ordered::<T>() && clones_are_equal::<T>() ==> t.respects_domains()
            },
    {
        Self::make2(lower, upper)
    }
}

impl<M: DatasetMetric, T: Clone + PartialOrd> MakeTransformation2<Bound<T>, Bound<T>> for Unclamp<
    M,
    T,
> where M::Distance: DistanceCast {
    type Output = ConstantStable<IntervalDomain<T>, AllDomain<T>, M, Duplicate>;

    /// The transformation that passes on a value that lies between `lower` and
    /// `upper`, unless the two are contradictory.
    fn make2(lower: Bound<T>, upper: Bound<T>) -> (r: Fallible<Self::Output>)
        ensures
            obeys_cmp_partial_ord::<T>() ==> (r is Err <==> contradictory(lower, upper)),
            r matches Err(e) ==> e.variant == ErrorVariant::MakeTransformation,
            r matches Ok(t) ==> {
                &&& t.input_domain.lower() == lower
                &&& t.input_domain.upper() == upper
                &&& one_stable(t)
                &&& t.respects_domains()
            },
    {
        let interval = match IntervalDomain::new(lower, upper) {
            Ok(interval) => interval,
            Err(e) => {
                return Err(e);
            },
        };
        Ok(
            Transformation {
                input_domain: Box::new(interval),
                output_domain: Box::new(AllDomain::new()),
                function: Function::new_from(Duplicate),
                input_metric: Box::new(M::new()),
                output_metric: Box::new(M::new()),
                stability_relation: StabilityRelation::new_from_constant(M::Distance::one()),
            },
        )
    }

    /// The transformation that passes on a value that lies between `lower` and
    /// `upper`, unless the two are contradictory.
    fn make(lower: Bound<T>, upper: Bound<T>) -> (r: Fallible<Self::Output>)
        ensures
            obeys_cmp_partial_ord::<T>() ==> (r is Err <==> contradictory(lower, upper)),
            r matches Err(e) ==> e.variant == ErrorVariant::MakeTransformation,
            r matches Ok(t) ==> {
                &&& t.input_domain.lower() == lower
                &&& t.input_domain.upper() == upper
                &&& one_stable(t)
                &&& t.respects_domains()
            },
    {
        Self::make2(lower, upper)
    }
}

/// The computation that casts a value, and gives a default value where the
/// value has no counterpart.
pub struct CastOne<TI, TO> {
    pub from: PhantomData<TI>,
    pub to: PhantomData<TO>,
}

impl<TI: Clone, TO: CastFrom<TI> + Default> Apply<TI, TO> for CastOne<TI, TO> {
    open spec fn accepts(&self, arg: &TI) -> bool {
        true
    }

    open spec fn yields(&self, arg: &TI, out: TO) -> bool {
        casts_to(*arg, out)
    }

    fn apply(&self, arg: &TI) -> (out: TO) {
        cast_or_default(arg)
    }
}

impl<M: DatasetMetric, TI: Clone, TO: CastFrom<TI> + Default> MakeTransformation0 for Cast<
    M,
    TI,
    TO,
> where M::Distance: DistanceCast {
    type Output = ConstantStable<AllDomain<TI>, AllDomain<TO>, M, CastOne<TI, TO>>;

    /// The transformation that casts a value.
    fn make0() -> (r: Fallible<Self::Output>)
        ensures
            r matches Ok(t) && one_stable(t) && t.respects_domains(),
    {
        Ok(
            Transformation {
                input_domain: Box::new(AllDomain::new()),
                output_domain: Box::new(AllDomain::new()),
                function: Function::new_from(CastOne { from: PhantomData, to: PhantomData }),
                input_metric: Box::new(M::new()),
                output_metric: Box::new(M::new()),
                stability_relation: StabilityRelation::new_from_constant(M::Distance::one()),
            },
        )
    }

    /// The transformation that casts a value.
    fn make() -> (r: Fallible<Self::Output>)
        ensures
            r matches Ok(t) && one_stable(t) && t.respects_domains(),
    {
        Self::make0()
    }
}

} // verus!
