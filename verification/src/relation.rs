//! Relations between input and output distances, and how they chain.
//!
//! A relation is a predicate on a pair of distances. It may come with a forward
//! map, from an input distance to an output distance that the relation admits,
//! and with a backward map in the other direction. A map gives a distance, or
//! nothing where no such distance can be expressed; a chain that goes by a map
//! does not hold where the map gives nothing. Relations are expected to be
//! monotone in the output distance; nothing here enforces it.

use vstd::prelude::*;
use std::rc::Rc;
use std::marker::PhantomData;
use crate::error::{Error, ErrorVariant, Fallible};
use crate::func::{
    runs_boxed_fn, runs_fn2, runs_map_chain, share, Apply, Apply2, ChainedMap, FromBoxedFn, FromFn2,
    NoMap,
};
use crate::kernel::{HintMm, HintMt, HintTt, Measure, Metric};
use crate::traits::{number_as, wide_max, wide_min, DistanceCast};

verus! {

/// Whether `map` is present and runs the closure `f`, or both are absent.
pub open spec fn wraps<A, B, F: Fn(&A) -> Box<B>>(
    map: Option<Rc<FromBoxedFn<F>>>,
    f: Option<F>,
) -> bool {
    match f {
        Some(f) => map matches Some(m) && m.f == f && runs_boxed_fn::<A, B, _, _>(*m, f),
        None => map is None,
    }
}

/// A predicate on an input distance and an output distance that tells whether
/// a measurement is that private, with an optional backward map.
pub struct PrivacyRelation<MI: Metric, MO: Measure, R, BM> {
    pub relation: Rc<R>,
    pub backward_map: Option<Rc<BM>>,
    pub spaces: PhantomData<(MI, MO)>,
}

impl<MI: Metric, MO: Measure, R, BM> Clone for PrivacyRelation<MI, MO, R, BM> {
    fn clone(&self) -> (r: Self)
        ensures
            r.relation == self.relation,
            r.backward_map == self.backward_map,
    {
        PrivacyRelation {
            relation: share(&self.relation),
            backward_map: share_option(&self.backward_map),
            spaces: PhantomData,
        }
    }
}

impl<MI: Metric, MO: Measure, F: Fn(&MI::Distance, &MO::Distance) -> bool> PrivacyRelation<
    MI,
    MO,
    FromFn2<F>,
    NoMap,
> {
    /// The relation decided by `relation`, without a map.
    pub fn new(relation: F) -> (r: Self)
        ensures
            r.relation.f == relation,
            r.decides_as(relation),
            r.backward_map is None,
    {
        PrivacyRelation {
            relation: Rc::new(FromFn2 { f: relation }),
            backward_map: None,
            spaces: PhantomData,
        }
    }
}

impl<
    MI: Metric,
    MO: Measure,
    F: Fn(&MI::Distance, &MO::Distance) -> bool,
    G: Fn(&MO::Distance) -> Box<MI::Distance>,
> PrivacyRelation<MI, MO, FromFn2<F>, FromBoxedFn<G>> {
    /// The relation decided by `relation`, with `backward_map` if one is given.
    pub fn new_all(relation: F, backward_map: Option<G>) -> (r: Self)
        ensures
            r.relation.f == relation,
            r.decides_as(relation),
            wraps::<MO::Distance, MI::Distance, G>(r.backward_map, backward_map),
    {
        PrivacyRelation {
            relation: Rc::new(FromFn2 { f: relation }),
            backward_map: wrap_option::<MO::Distance, MI::Distance, G>(backward_map),
            spaces: PhantomData,
        }
    }
}

impl<MI: Metric, MO: Measure, R: Apply2<MI::Distance, MO::Distance, bool>, BM> PrivacyRelation<
    MI,
    MO,
    R,
    BM,
> {
    /// Whether the relation is decided as the closure `f` decides.
    pub open spec fn decides_as<F: Fn(&MI::Distance, &MO::Distance) -> bool>(&self, f: F) -> bool {
        runs_fn2::<MI::Distance, MO::Distance, bool, R, F>(*self.relation, f)
    }

    /// Whether the relation can be decided at the two distances.
    pub open spec fn accepts(
        &self,
        input_distance: &MI::Distance,
        output_distance: &MO::Distance,
    ) -> bool {
        self.relation.accepts(input_distance, output_distance)
    }

    /// Whether `holds` is an answer that the relation may give at the two distances.
    pub open spec fn yields(
        &self,
        input_distance: &MI::Distance,
        output_distance: &MO::Distance,
        holds: bool,
    ) -> bool {
        self.relation.yields(input_distance, output_distance, holds)
    }

    /// Decides the relation at the two distances.
    pub fn eval(&self, input_distance: &MI::Distance, output_distance: &MO::Distance) -> (holds:
        bool)
        requires
            self.accepts(input_distance, output_distance),
        ensures
            self.yields(input_distance, output_distance, holds),
    {
        self.relation.apply(input_distance, output_distance)
    }
}

/// A predicate on an input distance and an output distance that tells whether
/// a transformation is that stable, with an optional map in either direction.
pub struct StabilityRelation<MI: Metric, MO: Metric, R, FM, BM> {
    pub relation: Rc<R>,
    pub forward_map: Option<Rc<FM>>,
    pub backward_map: Option<Rc<BM>>,
    pub spaces: PhantomData<(MI, MO)>,
}

impl<MI: Metric, MO: Metric, R, FM, BM> Clone for StabilityRelation<MI, MO, R, FM, BM> {
    fn clone(&self) -> (r: Self)
        ensures
            r.relation == self.relation,
            r.forward_map == self.forward_map,
            r.backward_map == self.backward_map,
    {
        StabilityRelation {
            relation: share(&self.relation),
            forward_map: share_option(&self.forward_map),
            backward_map: share_option(&self.backward_map),
            spaces: PhantomData,
        }
    }
}

impl<MI: Metric, MO: Metric, F: Fn(&MI::Distance, &MO::Distance) -> bool> StabilityRelation<
    MI,
    MO,
    FromFn2<F>,
    NoMap,
    NoMap,
> {
    /// The relation decided by `relation`, without maps.
    pub fn new(relation: F) -> (r: Self)
        ensures
            r.relation.f == relation,
            r.decides_as(relation),
            r.forward_map is None,
            r.backward_map is None,
    {
        StabilityRelation {
            relation: Rc::new(FromFn2 { f: relation }),
            forward_map: None,
            backward_map: None,
            spaces: PhantomData,
        }
    }
}

impl<
    MI: Metric,
    MO: Metric,
    F: Fn(&MI::Distance, &MO::Distance) -> bool,
    G: Fn(&MI::Distance) -> Box<MO::Distance>,
    H: Fn(&MO::Distance) -> Box<MI::Distance>,
> StabilityRelation<MI, MO, FromFn2<F>, FromBoxedFn<G>, FromBoxedFn<H>> {
    /// The relation decided by `relation`, with the maps that are given.
    pub fn new_all(relation: F, forward_map: Option<G>, backward_map: Option<H>) -> (r: Self)
        ensures
            r.relation.f == relation,
            r.decides_as(relation),
            wraps::<MI::Distance, MO::Distance, G>(r.forward_map, forward_map),
            wraps::<MO::Distance, MI::Distance, H>(r.backward_map, backward_map),
    {
        StabilityRelation {
            relation: Rc::new(FromFn2 { f: relation }),
            forward_map: wrap_option::<MI::Distance, MO::Distance, G>(forward_map),
            backward_map: wrap_option::<MO::Distance, MI::Distance, H>(backward_map),
            spaces: PhantomData,
        }
    }
}

impl<MI: Metric, MO: Metric, R: Apply2<MI::Distance, MO::Distance, bool>, FM, BM> StabilityRelation<
    MI,
    MO,
    R,
    FM,
    BM,
> {
    /// Whether the relation is decided as the closure `f` decides.
    pub open spec fn decides_as<F: Fn(&MI::Distance, &MO::Distance) -> bool>(&self, f: F) -> bool {
        runs_fn2::<MI::Distance, MO::Distance, bool, R, F>(*self.relation, f)
    }

    /// Whether the relation can be decided at the two distances.
    pub open spec fn accepts(
        &self,
        input_distance: &MI::Distance,
        output_distance: &MO::Distance,
    ) -> bool {
        self.relation.accepts(input_distance, output_distance)
    }

    /// Whether `holds` is an answer that the relation may give at the two distances.
    pub open spec fn yields(
        &self,
        input_distance: &MI::Distance,
        output_distance: &MO::Distance,
        holds: bool,
    ) -> bool {
        self.relation.yields(input_distance, output_distance, holds)
    }

    /// Decides the relation at the two distances.
    pub fn eval(&self, input_distance: &MI::Distance, output_distance: &MO::Distance) -> (holds:
        bool)
        requires
            self.accepts(input_distance, output_distance),
        ensures
            self.yields(input_distance, output_distance, holds),
    {
        self.relation.apply(input_distance, output_distance)
    }
}

/// The quotient of `x` by `d`, rounded towards zero.
pub open spec fn quotient(x: int, d: int) -> int
    recommends
        d != 0,
{
    if x >= 0 && d > 0 {
        x / d
    } else if x < 0 && d < 0 {
        (-x) / (-d)
    } else if x < 0 {
        -((-x) / d)
    } else {
        -(x / (-d))
    }
}

/// The relation of an operator that is stable with a constant: it holds of
/// `(d_in, d_out)` when `d_out` is at least `d_in` times the constant.
pub struct ConstantRelation<QI, QO> {
    pub constant: QO,
    pub input: PhantomData<QI>,
}

impl<QI: DistanceCast, QO: DistanceCast> Apply2<QI, QO, bool> for ConstantRelation<QI, QO> {
    open spec fn accepts(&self, d_in: &QI, d_out: &QO) -> bool {
        true
    }

    open spec fn yields(&self, d_in: &QI, d_out: &QO, holds: bool) -> bool {
        holds == (d_out.value() >= d_in.value() * self.constant.value())
    }

    fn apply(&self, d_in: &QI, d_out: &QO) -> (holds: bool) {
        let a: i128 = d_in.to_wide();
        let c: i128 = self.constant.to_wide();
        let b: i128 = d_out.to_wide();
        proof {
            QI::lemma_range(a as int);
            QO::lemma_range(c as int);
            QO::lemma_range(b as int);
            lemma_product_range(a as int, c as int);
        }
        match a.checked_mul(c) {
            Some(product) => b >= product,
            None => false,
        }
    }
}

/// The forward map of an operator that is stable with a constant: the input
/// distance times the constant, and nothing where the output metric cannot
/// express the product.
pub struct ConstantForward<QI, QO> {
    pub constant: QO,
    pub input: PhantomData<QI>,
}

impl<QI: DistanceCast, QO: DistanceCast> Apply<QI, Option<QO>> for ConstantForward<QI, QO> {
    open spec fn accepts(&self, d_in: &QI) -> bool {
        true
    }

    open spec fn yields(&self, d_in: &QI, d_out: Option<QO>) -> bool {
        d_out == number_as::<QO>(d_in.value() * self.constant.value())
    }

    fn apply(&self, d_in: &QI) -> (d_out: Option<QO>) {
        let a: i128 = d_in.to_wide();
        let c: i128 = self.constant.to_wide();
        proof {
            QI::lemma_range(a as int);
            QO::lemma_range(c as int);
            lemma_product_range(a as int, c as int);
            QO::lemma_range(a * c);
        }
        match a.checked_mul(c) {
            Some(product) => QO::from_wide(product),
            None => None,
        }
    }
}

/// What the backward map of a constant gives for an output distance that
/// stands for `d_out`: the quotient by the constant, rounded towards zero, and
/// nothing where the constant is zero or the input metric cannot express the
/// quotient.
pub open spec fn backward_bound<QI: DistanceCast>(d_out: int, constant: int) -> Option<QI> {
    if constant == 0 {
        None
    } else {
        number_as::<QI>(quotient(d_out, constant))
    }
}

/// The backward map of an operator that is stable with a constant: the output
/// distance divided by the constant and rounded towards zero, and nothing
/// where the constant is zero or the input metric cannot express the quotient.
pub struct ConstantBackward<QI, QO> {
    pub constant: QO,
    pub input: PhantomData<QI>,
}

impl<QI: DistanceCast, QO: DistanceCast> Apply<QO, Option<QI>> for ConstantBackward<QI, QO> {
    open spec fn accepts(&self, d_out: &QO) -> bool {
        true
    }

    open spec fn yields(&self, d_out: &QO, d_in: Option<QI>) -> bool {
        d_in == backward_bound::<QI>(d_out.value(), self.constant.value())
    }

    fn apply(&self, d_out: &QO) -> (d_in: Option<QI>) {
        let b: i128 = d_out.to_wide();
        let c: i128 = self.constant.to_wide();
        if c == 0 {
            return None;
        }
        proof {
            QO::lemma_range(b as int);
            QO::lemma_range(c as int);
            lemma_quotient_range(b as int, c as int);
        }
        match b.checked_div(c) {
            Some(q) => QI::from_wide(q),
            None => None,
        }
    }
}

impl<MI: Metric, MO: Metric> StabilityRelation<
    MI,
    MO,
    ConstantRelation<MI::Distance, MO::Distance>,
    ConstantForward<MI::Distance, MO::Distance>,
    ConstantBackward<MI::Distance, MO::Distance>,
> where MI::Distance: DistanceCast, MO::Distance: DistanceCast {
    /// The relation of an operator that is stable with the constant `c`, with
    /// both of its maps.
    pub fn new_from_constant(c: MO::Distance) -> (r: Self)
        ensures
            r.relation.constant == c,
            r.forward_map matches Some(f) && f.constant == c,
            r.backward_map matches Some(b) && b.constant == c,
    {
        StabilityRelation {
            relation: Rc::new(ConstantRelation { constant: c, input: PhantomData }),
            forward_map: Some(Rc::new(ConstantForward { constant: c, input: PhantomData })),
            backward_map: Some(Rc::new(ConstantBackward { constant: c, input: PhantomData })),
            spaces: PhantomData,
        }
    }
}

/// The relation built from a constant holds of `(d_in, d_out)` exactly when
/// `d_out` is at least `d_in` times the constant, and it can be decided at
/// every pair of distances.
pub proof fn lemma_constant_relation<QI: DistanceCast, QO: DistanceCast>(
    relation: ConstantRelation<QI, QO>,
    d_in: QI,
    d_out: QO,
    holds: bool,
)
    ensures
        relation.accepts(&d_in, &d_out),
        relation.yields(&d_in, &d_out, holds) <==> (holds <==> d_out.value() >= d_in.value()
            * relation.constant.value()),
{
}

/// Where the forward map built from a constant gives an output distance, the
/// relation built from the same constant holds of it; and the map gives one
/// wherever the output metric can express the product.
pub proof fn lemma_constant_forward_holds<QI: DistanceCast, QO: DistanceCast>(
    relation: ConstantRelation<QI, QO>,
    forward_map: ConstantForward<QI, QO>,
    d_in: QI,
    d_out: Option<QO>,
)
    requires
        relation.constant == forward_map.constant,
        forward_map.yields(&d_in, d_out),
    ensures
        d_out is Some <==> QO::representable(d_in.value() * relation.constant.value()),
        d_out matches Some(bound) ==> relation.yields(&d_in, &bound, true),
{
    QO::lemma_range(d_in.value() * relation.constant.value());
}

/// Where the backward map built from a positive constant gives an input
/// distance for an output distance that is not negative, the relation built
/// from the same constant holds of the two.
pub proof fn lemma_constant_backward_holds<QI: DistanceCast, QO: DistanceCast>(
    relation: ConstantRelation<QI, QO>,
    backward_map: ConstantBackward<QI, QO>,
    d_in: QI,
    d_out: QO,
)
    requires
        relation.constant == backward_map.constant,
        relation.constant.value() > 0,
        d_out.value() >= 0,
        backward_map.yields(&d_out, Some(d_in)),
    ensures
        relation.yields(&d_in, &d_out, true),
{
    let c = relation.constant.value();
    let b = d_out.value();
    QI::lemma_range(quotient(b, c));
    assert((b / c) * c <= b) by (nonlinear_arith)
        requires
            b >= 0,
            c > 0,
    ;
}

/// The relation built from a constant is monotone in the output distance.
pub proof fn lemma_constant_relation_monotone<QI: DistanceCast, QO: DistanceCast>(
    relation: ConstantRelation<QI, QO>,
    d_in: QI,
    d_out: QO,
    larger: QO,
)
    requires
        relation.yields(&d_in, &d_out, true),
        larger.value() >= d_out.value(),
    ensures
        relation.yields(&d_in, &larger, true),
{
}

/// The hint that a chain of two relations goes by: one that was supplied, the
/// forward map of the first relation, or the backward map of the second. It
/// proposes a distance in between, or nothing.
pub enum ChainHint<H, F0, B1> {
    Supplied(Rc<H>),
    Forward(Rc<F0>),
    Backward(Rc<B1>),
}

impl<
    QI,
    QO,
    QX,
    H: Apply2<QI, QO, Option<QX>>,
    F0: Apply<QI, Option<QX>>,
    B1: Apply<QO, Option<QX>>,
> Apply2<QI, QO, Option<QX>> for ChainHint<H, F0, B1> {
    open spec fn accepts(&self, d_in: &QI, d_out: &QO) -> bool {
        match self {
            ChainHint::Supplied(hint) => hint.accepts(d_in, d_out),
            ChainHint::Forward(map) => map.accepts(d_in),
            ChainHint::Backward(map) => map.accepts(d_out),
        }
    }

    open spec fn yields(&self, d_in: &QI, d_out: &QO, d_mid: Option<QX>) -> bool {
        match self {
            ChainHint::Supplied(hint) => hint.yields(d_in, d_out, d_mid),
            ChainHint::Forward(map) => map.yields(d_in, d_mid),
            ChainHint::Backward(map) => map.yields(d_out, d_mid),
        }
    }

    fn apply(&self, d_in: &QI, d_out: &QO) -> (d_mid: Option<QX>) {
        match self {
            ChainHint::Supplied(hint) => hint.apply(d_in, d_out),
            ChainHint::Forward(map) => map.apply(d_in),
            ChainHint::Backward(map) => map.apply(d_out),
        }
    }
}

/// Whether the two relations, by way of what the hint proposed, answer
/// `holds`: where nothing was proposed the answer is no; where `d_mid` was
/// proposed it is whether `first` holds of `(d_in, d_mid)` and `second` holds
/// of `(d_mid, d_out)`.
pub open spec fn answers_by<QI, QO, X, R0: Apply2<QI, X, bool>, R1: Apply2<X, QO, bool>>(
    first: R0,
    second: R1,
    d_in: &QI,
    d_out: &QO,
    proposed: Option<X>,
    holds: bool,
) -> bool {
    match proposed {
        None => !holds,
        Some(d_mid) => exists|holds0: bool| #[trigger]
            first.yields(d_in, &d_mid, holds0) && if holds0 {
                second.yields(&d_mid, d_out, holds)
            } else {
                !holds
            },
    }
}

/// The relation of two operators in a row. It holds of `(d_in, d_out)` when
/// the hint proposes an intermediate distance `d_mid`, `first` holds of
/// `(d_in, d_mid)` and `second` holds of `(d_mid, d_out)`. Where the hint
/// proposes nothing, it does not hold.
pub struct ChainedRelation<X, R0, R1, H> {
    pub first: Rc<R0>,
    pub second: Rc<R1>,
    pub hint: Rc<H>,
    pub through: PhantomData<X>,
}

impl<
    QI,
    QO,
    X,
    R0: Apply2<QI, X, bool>,
    R1: Apply2<X, QO, bool>,
    H: Apply2<QI, QO, Option<X>>,
> Apply2<QI, QO, bool> for ChainedRelation<X, R0, R1, H> {
    /// The hint accepts the two distances, `first` can be decided at whatever
    /// the hint proposes, and so can `second` where `first` holds.
    open spec fn accepts(&self, d_in: &QI, d_out: &QO) -> bool {
        &&& self.hint.accepts(d_in, d_out)
        &&& forall|d_mid: X| #[trigger]
            self.hint.yields(d_in, d_out, Some(d_mid)) ==> {
                &&& self.first.accepts(d_in, &d_mid)
                &&& self.first.yields(d_in, &d_mid, true) ==> self.second.accepts(&d_mid, d_out)
            }
    }

    open spec fn yields(&self, d_in: &QI, d_out: &QO, holds: bool) -> bool {
        exists|proposed: Option<X>| #[trigger]
            self.hint.yields(d_in, d_out, proposed) && answers_by(
                *self.first,
                *self.second,
                d_in,
                d_out,
                proposed,
                holds,
            )
    }

    fn apply(&self, d_in: &QI, d_out: &QO) -> (holds: bool) {
        match self.hint.apply(d_in, d_out) {
            Some(d_mid) => {
                let holds0 = self.first.apply(d_in, &d_mid);
                if holds0 {
                    self.second.apply(&d_mid, d_out)
                } else {
                    false
                }
            },
            None => false,
        }
    }
}

/// Whether `whole` behaves as the chain of the relations `first` and `second`
/// that goes by `hint`.
///
/// It can be decided where the hint accepts the two distances, `first` can be
/// decided at whatever the hint proposes, and so can `second` where `first`
/// holds. It holds where the hint proposes a distance `d_mid`, `first` holds
/// of `(d_in, d_mid)` and `second` holds of `(d_mid, d_out)`; it does not hold
/// where the hint proposes nothing.
pub open spec fn runs_hinted_chain<
    QI,
    QO,
    X,
    R: Apply2<QI, QO, bool>,
    R0: Apply2<QI, X, bool>,
    R1: Apply2<X, QO, bool>,
    H: Apply2<QI, QO, Option<X>>,
>(whole: R, first: R0, second: R1, hint: H) -> bool {
    &&& forall|d_in: &QI, d_out: &QO| #[trigger]
        whole.accepts(d_in, d_out) <==> {
            &&& hint.accepts(d_in, d_out)
            &&& forall|d_mid: X| #[trigger]
                hint.yields(d_in, d_out, Some(d_mid)) ==> {
                    &&& first.accepts(d_in, &d_mid)
                    &&& first.yields(d_in, &d_mid, true) ==> second.accepts(&d_mid, d_out)
                }
        }
    &&& forall|d_in: &QI, d_out: &QO, holds: bool| #[trigger]
        whole.yields(d_in, d_out, holds) <==> exists|proposed: Option<X>| #[trigger]
            hint.yields(d_in, d_out, proposed) && answers_by(
                first,
                second,
                d_in,
                d_out,
                proposed,
                holds,
            )
}

/// A chain of relations is sound: where it holds of `(d_in, d_out)`, there is
/// a distance in between of which, with `d_in`, the first relation holds, and
/// of which, with `d_out`, the second holds.
pub proof fn lemma_chain_is_sound<
    QI,
    QO,
    X,
    R: Apply2<QI, QO, bool>,
    R0: Apply2<QI, X, bool>,
    R1: Apply2<X, QO, bool>,
    H: Apply2<QI, QO, Option<X>>,
>(whole: R, first: R0, second: R1, hint: H, d_in: QI, d_out: QO)
    requires
        runs_hinted_chain::<QI, QO, X, R, R0, R1, H>(whole, first, second, hint),
        whole.yields(&d_in, &d_out, true),
    ensures
        exists|d_mid: X| #[trigger]
            first.yields(&d_in, &d_mid, true) && second.yields(&d_mid, &d_out, true),
{
    let proposed = choose|proposed: Option<X>| #[trigger]
        hint.yields(&d_in, &d_out, proposed) && answers_by(
            first,
            second,
            &d_in,
            &d_out,
            proposed,
            true,
        );
    let d_mid = proposed->Some_0;
    assert(first.yields(&d_in, &d_mid, true) && second.yields(&d_mid, &d_out, true));
}

/// A chain of relations that can each be decided everywhere, by way of a hint
/// that accepts every pair of distances, can be decided everywhere.
pub proof fn lemma_chain_is_total<
    QI,
    QO,
    X,
    R: Apply2<QI, QO, bool>,
    R0: Apply2<QI, X, bool>,
    R1: Apply2<X, QO, bool>,
    H: Apply2<QI, QO, Option<X>>,
>(whole: R, first: R0, second: R1, hint: H, d_in: QI, d_out: QO)
    requires
        runs_hinted_chain::<QI, QO, X, R, R0, R1, H>(whole, first, second, hint),
        forall|a: &QI, b: &QO| #[trigger] hint.accepts(a, b),
        forall|a: &QI, b: &X| #[trigger] first.accepts(a, b),
        forall|a: &X, b: &QO| #[trigger] second.accepts(a, b),
    ensures
        whole.accepts(&d_in, &d_out),
{
}

/// The chain of two relations built from constants, by way of the first's
/// forward map, can be decided at every pair of distances. It holds of
/// `(d_in, d_out)` exactly when the distance in between, `d_in` times the
/// first constant, can be expressed and `d_out` is at least `d_in` times both
/// constants.
pub proof fn lemma_constant_chain<
    QI: DistanceCast,
    QX: DistanceCast,
    QO: DistanceCast,
    R: Apply2<QI, QO, bool>,
    H: Apply2<QI, QO, Option<QX>>,
    B1: Apply<QO, Option<QX>>,
>(
    whole: R,
    first: ConstantRelation<QI, QX>,
    second: ConstantRelation<QX, QO>,
    forward_map: ConstantForward<QI, QX>,
    hint: ChainHint<H, ConstantForward<QI, QX>, B1>,
    d_in: QI,
    d_out: QO,
    holds: bool,
)
    requires
        runs_hinted_chain::<QI, QO, QX, _, _, _, _>(whole, first, second, hint),
        chooses::<QI, QO, QX, H, ConstantForward<QI, QX>, B1>(
            hint,
            None,
            Some(Rc::new(forward_map)),
            None,
        ),
        forward_map.constant == first.constant,
    ensures
        whole.accepts(&d_in, &d_out),
        whole.yields(&d_in, &d_out, holds) <==> (holds <==> {
            &&& QX::representable(d_in.value() * first.constant.value())
            &&& d_out.value() >= d_in.value() * first.constant.value() * second.constant.value()
        }),
{
    let between = d_in.value() * first.constant.value();
    QX::lemma_range(between);
    let proposed = number_as::<QX>(between);
    assert(forward_map.yields(&d_in, proposed));
    assert(Apply2::<QI, QO, Option<QX>>::yields(&hint, &d_in, &d_out, proposed));
    let here = QX::representable(between) && d_out.value() >= between * second.constant.value();
    if let Some(d_mid) = proposed {
        assert(first.yields(&d_in, &d_mid, true));
        assert(second.yields(&d_mid, &d_out, here));
    }
    assert(answers_by(first, second, &d_in, &d_out, proposed, here));
    assert(whole.yields(&d_in, &d_out, here));
    if whole.yields(&d_in, &d_out, holds) {
        let other = choose|other: Option<QX>| #[trigger]
            Apply2::<QI, QO, Option<QX>>::yields(&hint, &d_in, &d_out, other) && answers_by(
                first,
                second,
                &d_in,
                &d_out,
                other,
                holds,
            );
        assert(forward_map.yields(&d_in, other));
        assert(other == proposed);
    }
}

/// Whether `chain` is `outer` after `inner` where both are present, and absent
/// where either is.
pub open spec fn chains<A, X, B, C0: Apply<A, Option<X>>, C1: Apply<X, Option<B>>>(
    chain: Option<Rc<ChainedMap<X, C0, C1>>>,
    inner: Option<Rc<C0>>,
    outer: Option<Rc<C1>>,
) -> bool {
    match (inner, outer) {
        (Some(i), Some(o)) => {
            &&& chain matches Some(c)
            &&& c.inner == i
            &&& c.outer == o
            &&& runs_map_chain::<A, X, B, _, _, _>(*c, *i, *o)
        },
        _ => chain is None,
    }
}

/// Whether `chosen` is the hint that a chain goes by, and behaves as it:
/// `hint` if there is one, else the forward map of the first relation if there
/// is one, else the backward map of the second.
pub open spec fn chooses<
    QI,
    QO,
    X,
    H: Apply2<QI, QO, Option<X>>,
    F0: Apply<QI, Option<X>>,
    B1: Apply<QO, Option<X>>,
>(
    chosen: ChainHint<H, F0, B1>,
    hint: Option<Rc<H>>,
    forward_map0: Option<Rc<F0>>,
    backward_map1: Option<Rc<B1>>,
) -> bool {
    match (hint, forward_map0, backward_map1) {
        (Some(h), _, _) => {
            &&& chosen == ChainHint::<H, F0, B1>::Supplied(h)
            &&& forall|d_in: &QI, d_out: &QO| #[trigger]
                Apply2::<QI, QO, Option<X>>::accepts(&chosen, d_in, d_out) <==> h.accepts(
                    d_in,
                    d_out,
                )
            &&& forall|d_in: &QI, d_out: &QO, d_mid: Option<X>| #[trigger]
                Apply2::<QI, QO, Option<X>>::yields(&chosen, d_in, d_out, d_mid) <==> h.yields(
                    d_in,
                    d_out,
                    d_mid,
                )
        },
        (None, Some(f), _) => {
            &&& chosen == ChainHint::<H, F0, B1>::Forward(f)
            &&& forall|d_in: &QI, d_out: &QO| #[trigger]
                Apply2::<QI, QO, Option<X>>::accepts(&chosen, d_in, d_out) <==> f.accepts(d_in)
            &&& forall|d_in: &QI, d_out: &QO, d_mid: Option<X>| #[trigger]
                Apply2::<QI, QO, Option<X>>::yields(&chosen, d_in, d_out, d_mid) <==> f.yields(
                    d_in,
                    d_mid,
                )
        },
        (None, None, Some(b)) => {
            &&& chosen == ChainHint::<H, F0, B1>::Backward(b)
            &&& forall|d_in: &QI, d_out: &QO| #[trigger]
                Apply2::<QI, QO, Option<X>>::accepts(&chosen, d_in, d_out) <==> b.accepts(d_out)
            &&& forall|d_in: &QI, d_out: &QO, d_mid: Option<X>| #[trigger]
                Apply2::<QI, QO, Option<X>>::yields(&chosen, d_in, d_out, d_mid) <==> b.yields(
                    d_out,
                    d_mid,
                )
        },
        (None, None, None) => false,
    }
}

fn chain_option_maps<A, X, B, C0: Apply<A, Option<X>>, C1: Apply<X, Option<B>>>(
    map1: &Option<Rc<C1>>,
    map0: &Option<Rc<C0>>,
) -> (chain: Option<Rc<ChainedMap<X, C0, C1>>>)
    ensures
        chains::<A, X, B, C0, C1>(chain, *map0, *map1),
{
    if let (Some(map0), Some(map1)) = (map0, map1) {
        Some(Rc::new(ChainedMap { inner: share(map0), outer: share(map1), through: PhantomData }))
    } else {
        None
    }
}

impl<
    MI: Metric,
    MO: Metric,
    X,
    R0: Apply2<MI::Distance, X, bool>,
    R1: Apply2<X, MO::Distance, bool>,
    H: Apply2<MI::Distance, MO::Distance, Option<X>>,
    F0: Apply<MI::Distance, Option<X>>,
    F1: Apply<X, Option<MO::Distance>>,
    B0: Apply<X, Option<MI::Distance>>,
    B1: Apply<MO::Distance, Option<X>>,
> StabilityRelation<
    MI,
    MO,
    ChainedRelation<X, R0, R1, H>,
    ChainedMap<X, F0, F1>,
    ChainedMap<X, B1, B0>,
> {
    /// Whether this is the chain of `relation0` and `relation1` that goes by `hint`.
    pub open spec fn is_chain_of<MX: Metric<Distance = X>>(
        &self,
        relation1: &StabilityRelation<MX, MO, R1, F1, B1>,
        relation0: &StabilityRelation<MI, MX, R0, F0, B0>,
        hint: H,
    ) -> bool {
        &&& self.relation.first == relation0.relation
        &&& self.relation.second == relation1.relation
        &&& *self.relation.hint == hint
        &&& runs_hinted_chain::<MI::Distance, MO::Distance, X, _, _, _, _>(
            *self.relation,
            *relation0.relation,
            *relation1.relation,
            hint,
        )
        &&& chains::<MI::Distance, X, MO::Distance, F0, F1>(
            self.forward_map,
            relation0.forward_map,
            relation1.forward_map,
        )
        &&& chains::<MO::Distance, X, MI::Distance, B1, B0>(
            self.backward_map,
            relation1.backward_map,
            relation0.backward_map,
        )
    }

    /// The relation of `relation0` followed by `relation1`, with `hint` to
    /// propose the distance in between. A map of the chain exists where both
    /// relations have the map of that direction.
    pub fn make_chain_hint<MX: Metric<Distance = X>>(
        relation1: &StabilityRelation<MX, MO, R1, F1, B1>,
        relation0: &StabilityRelation<MI, MX, R0, F0, B0>,
        hint: &HintTt<MI, MO, MX, H>,
    ) -> (r: Self)
        ensures
            r.is_chain_of(relation1, relation0, *hint.hint),
    {
        let relation = ChainedRelation {
            first: share(&relation0.relation),
            second: share(&relation1.relation),
            hint: share(&hint.hint),
            through: PhantomData,
        };
        let forward_map = chain_option_maps::<MI::Distance, X, MO::Distance, F0, F1>(
            &relation1.forward_map,
            &relation0.forward_map,
        );
        let backward_map = chain_option_maps::<MO::Distance, X, MI::Distance, B1, B0>(
            &relation0.backward_map,
            &relation1.backward_map,
        );
        StabilityRelation {
            relation: Rc::new(relation),
            forward_map,
            backward_map,
            spaces: PhantomData,
        }
    }
}

impl<
    MI: Metric,
    MO: Metric,
    X,
    R0: Apply2<MI::Distance, X, bool>,
    R1: Apply2<X, MO::Distance, bool>,
    H: Apply2<MI::Distance, MO::Distance, Option<X>>,
    F0: Apply<MI::Distance, Option<X>>,
    F1: Apply<X, Option<MO::Distance>>,
    B0: Apply<X, Option<MI::Distance>>,
    B1: Apply<MO::Distance, Option<X>>,
> StabilityRelation<
    MI,
    MO,
    ChainedRelation<X, R0, R1, ChainHint<H, F0, B1>>,
    ChainedMap<X, F0, F1>,
    ChainedMap<X, B1, B0>,
> {
    /// The relation of `relation0` followed by `relation1`.
    ///
    /// The distance in between is proposed by `hint` if there is one, else by
    /// the forward map of `relation0` if it has one, else by the backward map of
    /// `relation1`. Where none of the three exists no bound can be derived, and
    /// the chain is refused.
    pub fn make_chain<MX: Metric<Distance = X>>(
        relation1: &StabilityRelation<MX, MO, R1, F1, B1>,
        relation0: &StabilityRelation<MI, MX, R0, F0, B0>,
        hint: Option<&HintTt<MI, MO, MX, H>>,
    ) -> (r: Fallible<Self>)
        ensures
            r is Err <==> hint is None && relation0.forward_map is None
                && relation1.backward_map is None,
            r matches Err(e) ==> e.variant == ErrorVariant::BoundNotDerivable,
            r matches Ok(chain) ==> {
                &&& chain.is_chain_of(relation1, relation0, *chain.relation.hint)
                &&& chooses::<MI::Distance, MO::Distance, X, H, F0, B1>(
                    *chain.relation.hint,
                    match hint {
                        Some(h) => Some(h.hint),
                        None => None,
                    },
                    relation0.forward_map,
                    relation1.backward_map,
                )
            },
    {
        if let Some(hint) = hint {
            let hint = HintTt {
                hint: Rc::new(ChainHint::Supplied(share(&hint.hint))),
                spaces: PhantomData,
            };
            Ok(Self::make_chain_hint(relation1, relation0, &hint))
        } else {
            Self::make_chain_no_hint(relation1, relation0)
        }
    }

    /// The relation of `relation0` followed by `relation1`, where no hint was
    /// supplied: one of the maps stands in for it.
    fn make_chain_no_hint<MX: Metric<Distance = X>>(
        relation1: &StabilityRelation<MX, MO, R1, F1, B1>,
        relation0: &StabilityRelation<MI, MX, R0, F0, B0>,
    ) -> (r: Fallible<Self>)
        ensures
            r is Err <==> relation0.forward_map is None && relation1.backward_map is None,
            r matches Err(e) ==> e.variant == ErrorVariant::BoundNotDerivable,
            r matches Ok(chain) ==> {
                &&& chain.is_chain_of(relation1, relation0, *chain.relation.hint)
                &&& chooses::<MI::Distance, MO::Distance, X, H, F0, B1>(
                    *chain.relation.hint,
                    None,
                    relation0.forward_map,
                    relation1.backward_map,
                )
            },
    {
        let hint: Option<HintTt<MI, MO, MX, ChainHint<H, F0, B1>>> = if let Some(forward_map) =
            &relation0.forward_map {
            Some(
                HintTt {
                    hint: Rc::new(ChainHint::Forward(share(forward_map))),
                    spaces: PhantomData,
                },
            )
        } else if let Some(backward_map) = &relation1.backward_map {
            Some(
                HintTt {
                    hint: Rc::new(ChainHint::Backward(share(backward_map))),
                    spaces: PhantomData,
                },
            )
        } else {
            None
        };
        if let Some(hint) = hint {
            Ok(Self::make_chain_hint(relation1, relation0, &hint))
        } else {
            Err(
                Error::new(
                    ErrorVariant::BoundNotDerivable,
                    "no bound derivable: the relations have no maps and no hint was supplied",
                ),
            )
        }
    }
}

impl<
    MI: Metric,
    MO: Measure,
    X,
    R0: Apply2<MI::Distance, X, bool>,
    R1: Apply2<X, MO::Distance, bool>,
    H: Apply2<MI::Distance, MO::Distance, Option<X>>,
    F0: Apply<MI::Distance, Option<X>>,
    B0: Apply<X, Option<MI::Distance>>,
    B1: Apply<MO::Distance, Option<X>>,
> PrivacyRelation<MI, MO, ChainedRelation<X, R0, R1, ChainHint<H, F0, B1>>, ChainedMap<X, B1, B0>> {
    /// Whether this is the chain of the stability relation `relation0` and the
    /// privacy relation `relation1` that goes by the hint it holds.
    pub open spec fn is_chain_of<MX: Metric<Distance = X>>(
        &self,
        relation1: &PrivacyRelation<MX, MO, R1, B1>,
        relation0: &StabilityRelation<MI, MX, R0, F0, B0>,
    ) -> bool {
        &&& self.relation.first == relation0.relation
        &&& self.relation.second == relation1.relation
        &&& runs_hinted_chain::<MI::Distance, MO::Distance, X, _, _, _, _>(
            *self.relation,
            *relation0.relation,
            *relation1.relation,
            *self.relation.hint,
        )
        &&& chains::<MO::Distance, X, MI::Distance, B1, B0>(
            self.backward_map,
            relation1.backward_map,
            relation0.backward_map,
        )
    }

    /// The privacy relation of a transformation with the relation `relation0`
    /// followed by a measurement with the relation `relation1`.
    ///
    /// It holds of `(d_in, d_out)` where, for the distance in between that is
    /// proposed, the transformation is that stable and the measurement is that
    /// private. The distance is proposed by `hint` if there is one, else by
    /// the forward map of `relation0` if it has one, else by the backward map
    /// of `relation1`. Where none of the three exists no bound can be derived,
    /// and the chain is refused.
    pub fn make_chain<MX: Metric<Distance = X>>(
        relation1: &PrivacyRelation<MX, MO, R1, B1>,
        relation0: &StabilityRelation<MI, MX, R0, F0, B0>,
        hint: Option<&HintMt<MI, MX, MO, H>>,
    ) -> (r: Fallible<Self>)
        ensures
            r is Err <==> hint is None && relation0.forward_map is None
                && relation1.backward_map is None,
            r matches Err(e) ==> e.variant == ErrorVariant::BoundNotDerivable,
            r matches Ok(chain) ==> {
                &&& chain.is_chain_of(relation1, relation0)
                &&& chooses::<MI::Distance, MO::Distance, X, H, F0, B1>(
                    *chain.relation.hint,
                    match hint {
                        Some(h) => Some(h.hint),
                        None => None,
                    },
                    relation0.forward_map,
                    relation1.backward_map,
                )
            },
    {
        let chosen: ChainHint<H, F0, B1> = if let Some(hint) = hint {
            ChainHint::Supplied(share(&hint.hint))
        } else if let Some(forward_map) = &relation0.forward_map {
            ChainHint::Forward(share(forward_map))
        } else if let Some(backward_map) = &relation1.backward_map {
            ChainHint::Backward(share(backward_map))
        } else {
            return Err(
                Error::new(
                    ErrorVariant::BoundNotDerivable,
                    "no bound derivable: the relations have no maps and no hint was supplied",
                ),
            );
        };
        let relation = ChainedRelation {
            first: share(&relation0.relation),
            second: share(&relation1.relation),
            hint: Rc::new(chosen),
            through: PhantomData,
        };
        let backward_map = chain_option_maps::<MO::Distance, X, MI::Distance, B1, B0>(
            &relation0.backward_map,
            &relation1.backward_map,
        );
        Ok(PrivacyRelation { relation: Rc::new(relation), backward_map, spaces: PhantomData })
    }
}

/// Whether the two relations, at the shares of the output distance that the
/// strategy proposed, answer `holds`: where nothing was proposed the answer is
/// no; where `(d0, d1)` was proposed it is whether `left` holds of
/// `(d_in, d0)` and `right` holds of `(d_in, d1)`.
pub open spec fn grants_by<QI, QO, R0: Apply2<QI, QO, bool>, R1: Apply2<QI, QO, bool>>(
    left: R0,
    right: R1,
    d_in: &QI,
    shares: Option<(QO, QO)>,
    holds: bool,
) -> bool {
    match shares {
        None => !holds,
        Some(pair) => exists|holds0: bool| #[trigger]
            left.yields(d_in, &pair.0, holds0) && if holds0 {
                right.yields(d_in, &pair.1, holds)
            } else {
                !holds
            },
    }
}

/// The relation of two measurements run side by side on one input. It holds
/// of `(d_in, d_out)` when the strategy proposes shares `(d0, d1)` of the
/// output distance, `left` holds of `(d_in, d0)` and `right` holds of
/// `(d_in, d1)`. Where the strategy proposes nothing, it does not hold.
///
/// That the shares it proposes join to no more than `d_out`, in the measure
/// at hand, is for whoever supplies the strategy to see to.
pub struct ComposedRelation<R0, R1, S> {
    pub left: Rc<R0>,
    pub right: Rc<R1>,
    pub strategy: Rc<S>,
}

impl<
    QI,
    QO,
    R0: Apply2<QI, QO, bool>,
    R1: Apply2<QI, QO, bool>,
    S: Apply2<QI, QO, Option<(QO, QO)>>,
> Apply2<QI, QO, bool> for ComposedRelation<R0, R1, S> {
    /// The strategy accepts the two distances, `left` can be decided at
    /// whatever share the strategy proposes for it, and so can `right` where
    /// `left` holds.
    open spec fn accepts(&self, d_in: &QI, d_out: &QO) -> bool {
        &&& self.strategy.accepts(d_in, d_out)
        &&& forall|pair: (QO, QO)| #[trigger]
            self.strategy.yields(d_in, d_out, Some(pair)) ==> {
                &&& self.left.accepts(d_in, &pair.0)
                &&& self.left.yields(d_in, &pair.0, true) ==> self.right.accepts(d_in, &pair.1)
            }
    }

    open spec fn yields(&self, d_in: &QI, d_out: &QO, holds: bool) -> bool {
        exists|shares: Option<(QO, QO)>| #[trigger]
            self.strategy.yields(d_in, d_out, shares) && grants_by(
                *self.left,
                *self.right,
                d_in,
                shares,
                holds,
            )
    }

    fn apply(&self, d_in: &QI, d_out: &QO) -> (holds: bool) {
        match self.strategy.apply(d_in, d_out) {
            Some(pair) => {
                let holds0 = self.left.apply(d_in, &pair.0);
                if holds0 {
                    self.right.apply(d_in, &pair.1)
                } else {
                    false
                }
            },
            None => false,
        }
    }
}

/// Whether `whole` behaves as the relation of `left` and `right` side by side
/// that goes by `strategy`.
pub open spec fn runs_composition<
    QI,
    QO,
    R: Apply2<QI, QO, bool>,
    R0: Apply2<QI, QO, bool>,
    R1: Apply2<QI, QO, bool>,
    S: Apply2<QI, QO, Option<(QO, QO)>>,
>(whole: R, left: R0, right: R1, strategy: S) -> bool {
    &&& forall|d_in: &QI, d_out: &QO| #[trigger]
        whole.accepts(d_in, d_out) <==> {
            &&& strategy.accepts(d_in, d_out)
            &&& forall|pair: (QO, QO)| #[trigger]
                strategy.yields(d_in, d_out, Some(pair)) ==> {
                    &&& left.accepts(d_in, &pair.0)
                    &&& left.yields(d_in, &pair.0, true) ==> right.accepts(d_in, &pair.1)
                }
        }
    &&& forall|d_in: &QI, d_out: &QO, holds: bool| #[trigger]
        whole.yields(d_in, d_out, holds) <==> exists|shares: Option<(QO, QO)>| #[trigger]
            strategy.yields(d_in, d_out, shares) && grants_by(left, right, d_in, shares, holds)
}

/// A composed relation is sound: where it holds of `(d_in, d_out)`, the
/// strategy proposed shares of `d_out` of which, with `d_in`, the one relation
/// holds of the first and the other of the second.
pub proof fn lemma_composition_is_sound<
    QI,
    QO,
    R: Apply2<QI, QO, bool>,
    R0: Apply2<QI, QO, bool>,
    R1: Apply2<QI, QO, bool>,
    S: Apply2<QI, QO, Option<(QO, QO)>>,
>(whole: R, left: R0, right: R1, strategy: S, d_in: QI, d_out: QO)
    requires
        runs_composition::<QI, QO, R, R0, R1, S>(whole, left, right, strategy),
        whole.yields(&d_in, &d_out, true),
    ensures
        exists|pair: (QO, QO)|
            {
                &&& #[trigger] strategy.yields(&d_in, &d_out, Some(pair))
                &&& left.yields(&d_in, &pair.0, true)
                &&& right.yields(&d_in, &pair.1, true)
            },
{
    let shares = choose|shares: Option<(QO, QO)>| #[trigger]
        strategy.yields(&d_in, &d_out, shares) && grants_by(left, right, &d_in, shares, true);
    let pair = shares->Some_0;
    assert(strategy.yields(&d_in, &d_out, Some(pair)));
    assert(left.yields(&d_in, &pair.0, true) && right.yields(&d_in, &pair.1, true));
}

impl<
    MI: Metric,
    MO: Measure,
    R0: Apply2<MI::Distance, MO::Distance, bool>,
    R1: Apply2<MI::Distance, MO::Distance, bool>,
    S: Apply2<MI::Distance, MO::Distance, Option<(MO::Distance, MO::Distance)>>,
> PrivacyRelation<MI, MO, ComposedRelation<R0, R1, S>, NoMap> {
    /// Whether this is the relation of `relation0` and `relation1` side by
    /// side that goes by `strategy`. It has no backward map.
    pub open spec fn is_composition_of<B0, B1>(
        &self,
        relation0: &PrivacyRelation<MI, MO, R0, B0>,
        relation1: &PrivacyRelation<MI, MO, R1, B1>,
        strategy: Rc<S>,
    ) -> bool {
        &&& self.relation.left == relation0.relation
        &&& self.relation.right == relation1.relation
        &&& self.relation.strategy == strategy
        &&& runs_composition::<MI::Distance, MO::Distance, _, _, _, _>(
            *self.relation,
            *relation0.relation,
            *relation1.relation,
            *strategy,
        )
        &&& self.backward_map is None
    }

    /// The privacy relation of two measurements, with the relations
    /// `relation0` and `relation1`, run side by side on one input.
    ///
    /// It holds of `(d_in, d_out)` where, for the shares of `d_out` that
    /// `strategy` proposes, the one measurement is as private as its share and
    /// so is the other. Without a strategy no bound can be derived, and the
    /// composition is refused.
    pub fn make_composition<B0, B1>(
        relation0: &PrivacyRelation<MI, MO, R0, B0>,
        relation1: &PrivacyRelation<MI, MO, R1, B1>,
        strategy: Option<&HintMm<MI, MO, S>>,
    ) -> (r: Fallible<Self>)
        ensures
            r is Err <==> strategy is None,
            r matches Err(e) ==> e.variant == ErrorVariant::BoundNotDerivable,
            r matches Ok(composition) ==> strategy matches Some(s) && composition.is_composition_of(
                relation0,
                relation1,
                s.hint,
            ),
    {
        match strategy {
            Some(strategy) => {
                let relation = ComposedRelation {
                    left: share(&relation0.relation),
                    right: share(&relation1.relation),
                    strategy: share(&strategy.hint),
                };
                Ok(
                    PrivacyRelation {
                        relation: Rc::new(relation),
                        backward_map: None,
                        spaces: PhantomData,
                    },
                )
            },
            None => Err(
                Error::new(
                    ErrorVariant::BoundNotDerivable,
                    "no bound derivable: no strategy was supplied to share the output distance",
                ),
            ),
        }
    }
}

proof fn lemma_product_range(a: int, c: int)
    requires
        wide_min() <= a <= wide_max(),
        wide_min() <= c <= wide_max(),
    ensures
        i128::MIN <= a * c,
        a * c > i128::MAX ==> a * c > wide_max(),
{
    assert(a * c >= wide_min() * wide_max()) by (nonlinear_arith)
        requires
            wide_min() <= a <= wide_max(),
            wide_min() <= c <= wide_max(),
            wide_min() < 0 < wide_max(),
            -wide_min() <= wide_max(),
    ;
}

proof fn lemma_quotient_range(b: int, c: int)
    requires
        wide_min() <= b <= wide_max(),
        c != 0,
    ensures
        -wide_max() <= quotient(b, c) <= wide_max(),
{
    if b >= 0 && c > 0 {
        assert(0 <= b / c <= b) by (nonlinear_arith)
            requires
                b >= 0,
                c > 0,
        ;
    } else if b < 0 && c < 0 {
        assert(0 <= (-b) / (-c) <= -b) by (nonlinear_arith)
            requires
                -b >= 0,
                -c > 0,
        ;
    } else if b < 0 {
        assert(0 <= (-b) / c <= -b) by (nonlinear_arith)
            requires
                -b >= 0,
                c > 0,
        ;
    } else {
        assert(0 <= b / (-c) <= b) by (nonlinear_arith)
            requires
                b >= 0,
                -c > 0,
        ;
    }
}

fn share_option<T>(handle: &Option<Rc<T>>) -> (other: Option<Rc<T>>)
    ensures
        other == *handle,
{
    match handle {
        Some(h) => Some(share(h)),
        None => None,
    }
}

fn wrap_option<A, B, F: Fn(&A) -> Box<B>>(f: Option<F>) -> (map: Option<Rc<FromBoxedFn<F>>>)
    ensures
        wraps::<A, B, F>(map, f),
{
    match f {
        Some(f) => Some(Rc::new(FromBoxedFn { f })),
        None => None,
    }
}

} // verus!
