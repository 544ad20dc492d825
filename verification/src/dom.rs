//! The domains that the library provides.
//!
//! Most of them are generic: a type parameter sets the carrier, or names the
//! domain that the members of a composite are drawn from.

use vstd::prelude::*;
use std::cmp::Ordering;
use std::collections::HashMap;
use std::hash::Hash;
use std::marker::PhantomData;
use std::ops::Bound;
use vstd::laws_cmp::obeys_cmp_partial_ord;
use vstd::laws_eq::obeys_concrete_eq;
use vstd::std_specs::cmp::{PartialEqSpec, PartialEqSpecImpl, PartialOrdSpec};
use vstd::std_specs::hash::{builds_valid_hashers, obeys_key_model};
use vstd::std_specs::iter::VerusForLoopWrapper;
use crate::error::{Error, ErrorVariant, Fallible};
use crate::func::clones_are_equal;
use crate::kernel::{lemma_member_deterministic, Domain};

verus! {

/// An endpoint of a range, as the standard library defines it: a value that
/// belongs to the range, a value that bounds it from outside, or no bound.
#[verifier::external_type_specification]
pub struct ExBound<T>(Bound<T>);

/// The domain of all values of the carrier type.
pub struct AllDomain<T> {
    _marker: PhantomData<T>,
}

impl<T> AllDomain<T> {
    pub fn new() -> (r: Self) {
        AllDomain { _marker: PhantomData }
    }
}

impl<T> Clone for AllDomain<T> {
    fn clone(&self) -> (r: Self)
        ensures
            r == *self,
    {
        Self::new()
    }
}

impl<T> PartialEq for AllDomain<T> {
    fn eq(&self, other: &Self) -> (r: bool) {
        true
    }
}

impl<T> PartialEqSpecImpl for AllDomain<T> {
    open spec fn obeys_eq_spec() -> bool {
        true
    }

    open spec fn eq_spec(&self, other: &Self) -> bool {
        true
    }
}

impl<T> Domain for AllDomain<T> {
    type Carrier = T;

    open spec fn obeys_member_spec() -> bool {
        true
    }

    open spec fn member_spec(&self, val: &T) -> bool {
        true
    }

    fn member(&self, val: &T) -> (r: bool) {
        true
    }

    open spec fn obeys_domain_laws() -> bool {
        true
    }

    proof fn lemma_same_members(&self, other: &Self, val: &T) {
    }
}

/// The value at an endpoint, if the endpoint has one.
pub open spec fn bound_value<T>(bound: Bound<T>) -> Option<T> {
    match bound {
        Bound::Included(v) => Some(v),
        Bound::Excluded(v) => Some(v),
        Bound::Unbounded => None,
    }
}

/// Whether one endpoint includes its value while the other excludes its own.
pub open spec fn kinds_disagree<T>(lower: Bound<T>, upper: Bound<T>) -> bool {
    match (lower, upper) {
        (Bound::Included(_), Bound::Excluded(_)) => true,
        (Bound::Excluded(_), Bound::Included(_)) => true,
        _ => false,
    }
}

/// Whether no interval runs from `lower` to `upper`: the lower value is the
/// greater one, or the two values are equal and only one endpoint includes it.
pub open spec fn contradictory<T: PartialOrd>(lower: Bound<T>, upper: Bound<T>) -> bool {
    match (bound_value(lower), bound_value(upper)) {
        (Some(l), Some(u)) => {
            ||| l.partial_cmp_spec(&u) == Some(Ordering::Greater)
            ||| l.partial_cmp_spec(&u) == Some(Ordering::Equal) && kinds_disagree(lower, upper)
        },
        _ => false,
    }
}

/// Whether `val` lies on the inner side of the lower endpoint `bound`.
pub open spec fn above<T: PartialOrd>(bound: Bound<T>, val: T) -> bool {
    match bound {
        Bound::Included(b) => val.partial_cmp_spec(&b) matches Some(
            Ordering::Greater
            | Ordering::Equal,
        ),
        Bound::Excluded(b) => val.partial_cmp_spec(&b) == Some(Ordering::Greater),
        Bound::Unbounded => true,
    }
}

/// Whether `val` lies on the inner side of the upper endpoint `bound`.
pub open spec fn below<T: PartialOrd>(bound: Bound<T>, val: T) -> bool {
    match bound {
        Bound::Included(b) => val.partial_cmp_spec(&b) matches Some(
            Ordering::Less
            | Ordering::Equal,
        ),
        Bound::Excluded(b) => val.partial_cmp_spec(&b) == Some(Ordering::Less),
        Bound::Unbounded => true,
    }
}

/// Whether two endpoints are of one kind and, by the carrier's `==`, at one value.
pub open spec fn bounds_equal<T: PartialEq>(a: Bound<T>, b: Bound<T>) -> bool {
    match (a, b) {
        (Bound::Included(x), Bound::Included(y)) => x.eq_spec(&y),
        (Bound::Excluded(x), Bound::Excluded(y)) => x.eq_spec(&y),
        (Bound::Unbounded, Bound::Unbounded) => true,
        _ => false,
    }
}

fn endpoint<T>(bound: &Bound<T>) -> (r: Option<&T>)
    ensures
        r == match bound_value(*bound) {
            Some(v) => Some(&v),
            None => None,
        },
{
    match bound {
        Bound::Included(value) => Some(value),
        Bound::Excluded(value) => Some(value),
        Bound::Unbounded => None,
    }
}

fn endpoints_match<T: PartialEq>(a: &Bound<T>, b: &Bound<T>) -> (r: bool)
    ensures
        T::obeys_eq_spec() ==> r == bounds_equal(*a, *b),
{
    match (a, b) {
        (Bound::Included(x), Bound::Included(y)) => *x == *y,
        (Bound::Excluded(x), Bound::Excluded(y)) => *x == *y,
        (Bound::Unbounded, Bound::Unbounded) => true,
        _ => false,
    }
}

/// Whether `copy` is an endpoint of the kind of `bound`, at a clone of its value.
pub open spec fn bound_cloned<T: Clone>(bound: Bound<T>, copy: Bound<T>) -> bool {
    match (bound, copy) {
        (Bound::Included(x), Bound::Included(y)) => cloned(x, y),
        (Bound::Excluded(x), Bound::Excluded(y)) => cloned(x, y),
        (Bound::Unbounded, Bound::Unbounded) => true,
        _ => false,
    }
}

/// What the refusal of contradictory endpoints says.
pub open spec fn refusal<T: PartialOrd>(lower: Bound<T>, upper: Bound<T>) -> Seq<char> {
    match (bound_value(lower), bound_value(upper)) {
        (Some(l), Some(u)) if l.partial_cmp_spec(&u) == Some(Ordering::Equal) => {
            if lower is Included {
                "upper bound excludes inclusive lower bound"@
            } else {
                "lower bound excludes inclusive upper bound"@
            }
        },
        _ => "lower bound may not be greater than upper bound"@,
    }
}

fn endpoint_clone<T: Clone>(bound: &Bound<T>) -> (r: Bound<T>)
    ensures
        bound_cloned(*bound, r),
{
    match bound {
        Bound::Included(x) => Bound::Included(x.clone()),
        Bound::Excluded(x) => Bound::Excluded(x.clone()),
        Bound::Unbounded => Bound::Unbounded,
    }
}

/// The domain of the values between two endpoints.
pub struct IntervalDomain<T> {
    lower: Bound<T>,
    upper: Bound<T>,
}

impl<T> IntervalDomain<T> {
    /// The lower endpoint.
    pub closed spec fn lower(&self) -> Bound<T> {
        self.lower
    }

    /// The upper endpoint.
    pub closed spec fn upper(&self) -> Bound<T> {
        self.upper
    }
}

impl<T: PartialOrd> IntervalDomain<T> {
    /// The interval from `lower` to `upper`, unless the two are contradictory.
    pub fn new(lower: Bound<T>, upper: Bound<T>) -> (r: Fallible<Self>)
        ensures
            obeys_cmp_partial_ord::<T>() ==> (r is Err <==> contradictory(lower, upper)),
            r matches Ok(d) ==> d.lower() == lower && d.upper() == upper,
            r matches Err(e) ==> e.variant == ErrorVariant::MakeTransformation,
            obeys_cmp_partial_ord::<T>() ==> (r matches Err(e) ==> e.message@ == refusal(
                lower,
                upper,
            )),
    {
        proof {
            reveal(obeys_cmp_partial_ord);
        }
        if let (Some(v_lower), Some(v_upper)) = (endpoint(&lower), endpoint(&upper)) {
            if *v_lower > *v_upper {
                return Err(
                    Error::new(
                        ErrorVariant::MakeTransformation,
                        "lower bound may not be greater than upper bound",
                    ),
                );
            }
            if *v_lower == *v_upper {
                match (&lower, &upper) {
                    (Bound::Included(_), Bound::Excluded(_)) => {
                        return Err(
                            Error::new(
                                ErrorVariant::MakeTransformation,
                                "upper bound excludes inclusive lower bound",
                            ),
                        );
                    },
                    (Bound::Excluded(_), Bound::Included(_)) => {
                        return Err(
                            Error::new(
                                ErrorVariant::MakeTransformation,
                                "lower bound excludes inclusive upper bound",
                            ),
                        );
                    },
                    _ => (),
                }
            }
        }
        Ok(IntervalDomain { lower, upper })
    }
}

impl<T: Clone> Clone for IntervalDomain<T> {
    fn clone(&self) -> (r: Self)
        ensures
            bound_cloned(self.lower(), r.lower()),
            bound_cloned(self.upper(), r.upper()),
    {
        IntervalDomain { lower: endpoint_clone(&self.lower), upper: endpoint_clone(&self.upper) }
    }
}

impl<T: PartialEq> PartialEq for IntervalDomain<T> {
    fn eq(&self, other: &Self) -> (r: bool) {
        endpoints_match(&self.lower, &other.lower) && endpoints_match(&self.upper, &other.upper)
    }
}

impl<T: PartialEq> PartialEqSpecImpl for IntervalDomain<T> {
    open spec fn obeys_eq_spec() -> bool {
        T::obeys_eq_spec()
    }

    open spec fn eq_spec(&self, other: &Self) -> bool {
        bounds_equal(self.lower(), other.lower()) && bounds_equal(self.upper(), other.upper())
    }
}

impl<T: Clone + PartialOrd> Domain for IntervalDomain<T> {
    type Carrier = T;

    open spec fn obeys_member_spec() -> bool {
        T::obeys_partial_cmp_spec()
    }

    open spec fn member_spec(&self, val: &T) -> bool {
        above(self.lower(), *val) && below(self.upper(), *val)
    }

    fn member(&self, val: &T) -> (r: bool) {
        let lower_ok = match &self.lower {
            Bound::Included(bound) => *val >= *bound,
            Bound::Excluded(bound) => *val > *bound,
            Bound::Unbounded => true,
        };
        lower_ok && match &self.upper {
            Bound::Included(bound) => *val <= *bound,
            Bound::Excluded(bound) => *val < *bound,
            Bound::Unbounded => true,
        }
    }

    open spec fn obeys_domain_laws() -> bool {
        obeys_concrete_eq::<T>() && clones_are_equal::<T>()
    }

    proof fn lemma_same_members(&self, other: &Self, val: &T) {
        reveal(obeys_concrete_eq);
    }
}

/// The domain of boxed values whose contents belong to `element_domain`.
pub struct BoxDomain<D: Domain> {
    element_domain: Box<D>,
}

impl<D: Domain> BoxDomain<D> {
    /// The domain that the contents of a member belong to.
    pub closed spec fn element_domain(&self) -> D {
        *self.element_domain
    }

    pub fn new(element_domain: Box<D>) -> (r: Self)
        ensures
            r.element_domain() == *element_domain,
    {
        BoxDomain { element_domain }
    }
}

impl<D: Domain> Clone for BoxDomain<D> {
    fn clone(&self) -> (r: Self)
        ensures
            cloned(self.element_domain(), r.element_domain()),
    {
        BoxDomain { element_domain: self.element_domain.clone() }
    }
}

impl<D: Domain> PartialEq for BoxDomain<D> {
    fn eq(&self, other: &Self) -> (r: bool) {
        *self.element_domain == *other.element_domain
    }
}

impl<D: Domain> PartialEqSpecImpl for BoxDomain<D> {
    open spec fn obeys_eq_spec() -> bool {
        D::obeys_eq_spec()
    }

    open spec fn eq_spec(&self, other: &Self) -> bool {
        self.element_domain().eq_spec(&other.element_domain())
    }
}

impl<D: Domain> Domain for BoxDomain<D> {
    type Carrier = Box<D::Carrier>;

    open spec fn obeys_member_spec() -> bool {
        D::obeys_member_spec()
    }

    open spec fn member_spec(&self, val: &Box<D::Carrier>) -> bool {
        self.element_domain().member_spec(&**val)
    }

    fn member(&self, val: &Box<D::Carrier>) -> (r: bool) {
        self.element_domain.member(&**val)
    }

    open spec fn obeys_domain_laws() -> bool {
        D::obeys_domain_laws()
    }

    proof fn lemma_same_members(&self, other: &Self, val: &Box<D::Carrier>) {
        self.element_domain().lemma_same_members(&other.element_domain(), &**val);
    }
}

/// The domain of pairs whose components belong to the two given domains.
pub struct PairDomain<D0: Domain, D1: Domain>(pub D0, pub D1);

impl<D0: Domain, D1: Domain> PairDomain<D0, D1> {
    pub fn new(element_domain0: D0, element_domain1: D1) -> (r: Self)
        ensures
            r.0 == element_domain0,
            r.1 == element_domain1,
    {
        PairDomain(element_domain0, element_domain1)
    }
}

impl<D0: Domain, D1: Domain> Clone for PairDomain<D0, D1> {
    fn clone(&self) -> (r: Self)
        ensures
            cloned(self.0, r.0),
            cloned(self.1, r.1),
    {
        PairDomain(self.0.clone(), self.1.clone())
    }
}

impl<D0: Domain, D1: Domain> PartialEq for PairDomain<D0, D1> {
    fn eq(&self, other: &Self) -> (r: bool) {
        self.0 == other.0 && self.1 == other.1
    }
}

impl<D0: Domain, D1: Domain> PartialEqSpecImpl for PairDomain<D0, D1> {
    open spec fn obeys_eq_spec() -> bool {
        D0::obeys_eq_spec() && D1::obeys_eq_spec()
    }

    open spec fn eq_spec(&self, other: &Self) -> bool {
        self.0.eq_spec(&other.0) && self.1.eq_spec(&other.1)
    }
}

impl<D0: Domain, D1: Domain> Domain for PairDomain<D0, D1> {
    type Carrier = (D0::Carrier, D1::Carrier);

    open spec fn obeys_member_spec() -> bool {
        D0::obeys_member_spec() && D1::obeys_member_spec()
    }

    open spec fn member_spec(&self, val: &(D0::Carrier, D1::Carrier)) -> bool {
        self.0.member_spec(&val.0) && self.1.member_spec(&val.1)
    }

    fn member(&self, val: &(D0::Carrier, D1::Carrier)) -> (r: bool) {
        self.0.member(&val.0) && self.1.member(&val.1)
    }

    open spec fn obeys_domain_laws() -> bool {
        D0::obeys_domain_laws() && D1::obeys_domain_laws()
    }

    proof fn lemma_same_members(&self, other: &Self, val: &(D0::Carrier, D1::Carrier)) {
        self.0.lemma_same_members(&other.0, &val.0);
        self.1.lemma_same_members(&other.1, &val.1);
    }
}

/// A pair belongs to a pair domain exactly when each component belongs to the
/// domain of its side; `member` on the pair returns the conjunction of what
/// `member` on the components returns.
pub proof fn lemma_pair_member<D0: Domain, D1: Domain>(
    pair: &PairDomain<D0, D1>,
    val: &(D0::Carrier, D1::Carrier),
    whole: bool,
    left: bool,
    right: bool,
)
    requires
        D0::obeys_member_spec(),
        D1::obeys_member_spec(),
        call_ensures(PairDomain::<D0, D1>::member, (pair, val), whole),
        call_ensures(D0::member, (&pair.0, &val.0), left),
        call_ensures(D1::member, (&pair.1, &val.1), right),
    ensures
        pair.member_spec(val) == (pair.0.member_spec(&val.0) && pair.1.member_spec(&val.1)),
        whole == (left && right),
{
    lemma_member_deterministic(pair, val, whole, whole);
    lemma_member_deterministic(&pair.0, &val.0, left, left);
    lemma_member_deterministic(&pair.1, &val.1, right, right);
}

/// The domain of vectors whose elements all belong to `element_domain`.
pub struct VectorDomain<D: Domain> {
    pub element_domain: D,
}

impl<D: Domain> VectorDomain<D> {
    pub fn new(element_domain: D) -> (r: Self)
        ensures
            r.element_domain == element_domain,
    {
        VectorDomain { element_domain }
    }
}

impl<D: Domain> Clone for VectorDomain<D> {
    fn clone(&self) -> (r: Self)
        ensures
            cloned(self.element_domain, r.element_domain),
    {
        VectorDomain { element_domain: self.element_domain.clone() }
    }
}

impl<D: Domain> PartialEq for VectorDomain<D> {
    fn eq(&self, other: &Self) -> (r: bool) {
        self.element_domain == other.element_domain
    }
}

impl<D: Domain> PartialEqSpecImpl for VectorDomain<D> {
    open spec fn obeys_eq_spec() -> bool {
        D::obeys_eq_spec()
    }

    open spec fn eq_spec(&self, other: &Self) -> bool {
        self.element_domain.eq_spec(&other.element_domain)
    }
}

impl<D: Domain> Domain for VectorDomain<D> {
    type Carrier = Vec<D::Carrier>;

    open spec fn obeys_member_spec() -> bool {
        D::obeys_member_spec()
    }

    open spec fn member_spec(&self, val: &Vec<D::Carrier>) -> bool {
        forall|i: int| 0 <= i < val@.len() ==> self.element_domain.member_spec(#[trigger] &val@[i])
    }

    fn member(&self, val: &Vec<D::Carrier>) -> (r: bool) {
        let mut i: usize = 0;
        while i < val.len()
            invariant
                0 <= i <= val@.len(),
                D::obeys_member_spec() ==> forall|j: int|
                    0 <= j < i ==> self.element_domain.member_spec(#[trigger] &val@[j]),
            decreases val@.len() - i,
        {
            if !self.element_domain.member(&val[i]) {
                return false;
            }
            i += 1;
        }
        true
    }

    open spec fn obeys_domain_laws() -> bool {
        D::obeys_domain_laws()
    }

    proof fn lemma_same_members(&self, other: &Self, val: &Vec<D::Carrier>) {
        assert forall|i: int| 0 <= i < val@.len() implies self.element_domain.member_spec(
            #[trigger] &val@[i],
        ) == other.element_domain.member_spec(&val@[i]) by {
            self.element_domain.lemma_same_members(&other.element_domain, &val@[i]);
        }
    }
}

impl<T> VectorDomain<AllDomain<T>> {
    /// The domain of all vectors over the carrier type.
    pub fn new_all() -> (r: Self) {
        Self::new(AllDomain::<T>::new())
    }
}

/// The domain `element_domain`, with the number of records that its members are known to hold.
pub struct SizedDomain<D: Domain> {
    pub element_domain: D,
    pub length: usize,
}

impl<D: Domain> SizedDomain<D> {
    pub fn new(member_domain: D, length: usize) -> (r: Self)
        ensures
            r.element_domain == member_domain,
            r.length == length,
    {
        SizedDomain { element_domain: member_domain, length }
    }
}

impl<D: Domain> Clone for SizedDomain<D> {
    fn clone(&self) -> (r: Self)
        ensures
            cloned(self.element_domain, r.element_domain),
            r.length == self.length,
    {
        SizedDomain { element_domain: self.element_domain.clone(), length: self.length }
    }
}

impl<D: Domain> PartialEq for SizedDomain<D> {
    fn eq(&self, other: &Self) -> (r: bool) {
        self.element_domain == other.element_domain && self.length == other.length
    }
}

impl<D: Domain> PartialEqSpecImpl for SizedDomain<D> {
    open spec fn obeys_eq_spec() -> bool {
        D::obeys_eq_spec()
    }

    open spec fn eq_spec(&self, other: &Self) -> bool {
        self.element_domain.eq_spec(&other.element_domain) && self.length == other.length
    }
}

impl<D: Domain> Domain for SizedDomain<D> {
    type Carrier = D::Carrier;

    open spec fn obeys_member_spec() -> bool {
        D::obeys_member_spec()
    }

    open spec fn member_spec(&self, val: &D::Carrier) -> bool {
        self.element_domain.member_spec(val)
    }

    fn member(&self, val: &D::Carrier) -> (r: bool) {
        self.element_domain.member(val)
    }

    open spec fn obeys_domain_laws() -> bool {
        D::obeys_domain_laws()
    }

    proof fn lemma_same_members(&self, other: &Self, val: &D::Carrier) {
        self.element_domain.lemma_same_members(&other.element_domain, val);
    }
}

/// The domain of optional values: `None`, and `Some` of a member of `element_domain`.
pub struct OptionNullDomain<D: Domain> {
    pub element_domain: D,
}

impl<D: Domain> OptionNullDomain<D> {
    pub fn new(member_domain: D) -> (r: Self)
        ensures
            r.element_domain == member_domain,
    {
        OptionNullDomain { element_domain: member_domain }
    }
}

impl<D: Domain> Clone for OptionNullDomain<D> {
    fn clone(&self) -> (r: Self)
        ensures
            cloned(self.element_domain, r.element_domain),
    {
        OptionNullDomain { element_domain: self.element_domain.clone() }
    }
}

impl<D: Domain> PartialEq for OptionNullDomain<D> {
    fn eq(&self, other: &Self) -> (r: bool) {
        self.element_domain == other.element_domain
    }
}

impl<D: Domain> PartialEqSpecImpl for OptionNullDomain<D> {
    open spec fn obeys_eq_spec() -> bool {
        D::obeys_eq_spec()
    }

    open spec fn eq_spec(&self, other: &Self) -> bool {
        self.element_domain.eq_spec(&other.element_domain)
    }
}

impl<D: Domain> Domain for OptionNullDomain<D> {
    type Carrier = Option<D::Carrier>;

    open spec fn obeys_member_spec() -> bool {
        D::obeys_member_spec()
    }

    open spec fn member_spec(&self, val: &Option<D::Carrier>) -> bool {
        match val {
            Some(v) => self.element_domain.member_spec(v),
            None => true,
        }
    }

    fn member(&self, val: &Option<D::Carrier>) -> (r: bool) {
        match val {
            Some(v) => self.element_domain.member(v),
            None => true,
        }
    }

    open spec fn obeys_domain_laws() -> bool {
        D::obeys_domain_laws()
    }

    proof fn lemma_same_members(&self, other: &Self, val: &Option<D::Carrier>) {
        if let Some(v) = val {
            self.element_domain.lemma_same_members(&other.element_domain, v);
        }
    }
}

/// A type with values that stand for a missing value.
pub trait InherentNull: Sized {
    /// Whether the value stands for a missing value.
    spec fn is_null_spec(&self) -> bool;

    /// Tests whether the value stands for a missing value.
    fn is_null(&self) -> (r: bool)
        ensures
            r == self.is_null_spec(),
    ;

    /// A value that stands for a missing value.
    const NULL: Self;
}

/// The domain of the members of `element_domain` and of the carrier's own missing values.
pub struct InherentNullDomain<D: Domain> where D::Carrier: InherentNull {
    pub element_domain: D,
}

impl<D: Domain> InherentNullDomain<D> where D::Carrier: InherentNull {
    pub fn new(member_domain: D) -> (r: Self)
        ensures
            r.element_domain == member_domain,
    {
        InherentNullDomain { element_domain: member_domain }
    }
}

impl<D: Domain> Clone for InherentNullDomain<D> where D::Carrier: InherentNull {
    fn clone(&self) -> (r: Self)
        ensures
            cloned(self.element_domain, r.element_domain),
    {
        InherentNullDomain { element_domain: self.element_domain.clone() }
    }
}

impl<D: Domain> PartialEq for InherentNullDomain<D> where D::Carrier: InherentNull {
    fn eq(&self, other: &Self) -> (r: bool) {
        self.element_domain == other.element_domain
    }
}

impl<D: Domain> PartialEqSpecImpl for InherentNullDomain<D> where D::Carrier: InherentNull {
    open spec fn obeys_eq_spec() -> bool {
        D::obeys_eq_spec()
    }

    open spec fn eq_spec(&self, other: &Self) -> bool {
        self.element_domain.eq_spec(&other.element_domain)
    }
}

impl<D: Domain> Domain for InherentNullDomain<D> where D::Carrier: InherentNull {
    type Carrier = D::Carrier;

    open spec fn obeys_member_spec() -> bool {
        D::obeys_member_spec()
    }

    open spec fn member_spec(&self, val: &D::Carrier) -> bool {
        val.is_null_spec() || self.element_domain.member_spec(val)
    }

    fn member(&self, val: &D::Carrier) -> (r: bool) {
        if val.is_null() {
            return true;
        }
        self.element_domain.member(val)
    }

    open spec fn obeys_domain_laws() -> bool {
        D::obeys_domain_laws()
    }

    proof fn lemma_same_members(&self, other: &Self, val: &D::Carrier) {
        self.element_domain.lemma_same_members(&other.element_domain, val);
    }
}

/// The domain of maps whose keys all belong to `key_domain` and whose values
/// all belong to `value_domain`.
pub struct MapDomain<DK: Domain, DV: Domain> where DK::Carrier: Eq + Hash {
    pub key_domain: DK,
    pub value_domain: DV,
}

impl<DK: Domain, DV: Domain> MapDomain<DK, DV> where DK::Carrier: Eq + Hash {
    pub fn new(key_domain: DK, element_domain: DV) -> (r: Self)
        ensures
            r.key_domain == key_domain,
            r.value_domain == element_domain,
    {
        MapDomain { key_domain, value_domain: element_domain }
    }
}

impl<K, V> MapDomain<AllDomain<K>, AllDomain<V>> where K: Eq + Hash {
    /// The domain of all maps between the two carrier types.
    pub fn new_all() -> (r: Self) {
        Self::new(AllDomain::<K>::new(), AllDomain::<V>::new())
    }
}

impl<DK: Domain, DV: Domain> Clone for MapDomain<DK, DV> where DK::Carrier: Eq + Hash {
    fn clone(&self) -> (r: Self)
        ensures
            cloned(self.key_domain, r.key_domain),
            cloned(self.value_domain, r.value_domain),
    {
        MapDomain { key_domain: self.key_domain.clone(), value_domain: self.value_domain.clone() }
    }
}

impl<DK: Domain, DV: Domain> PartialEq for MapDomain<DK, DV> where DK::Carrier: Eq + Hash {
    fn eq(&self, other: &Self) -> (r: bool) {
        self.key_domain == other.key_domain && self.value_domain == other.value_domain
    }
}

impl<DK: Domain, DV: Domain> PartialEqSpecImpl for MapDomain<DK, DV> where DK::Carrier: Eq + Hash {
    open spec fn obeys_eq_spec() -> bool {
        DK::obeys_eq_spec() && DV::obeys_eq_spec()
    }

    open spec fn eq_spec(&self, other: &Self) -> bool {
        self.key_domain.eq_spec(&other.key_domain) && self.value_domain.eq_spec(
            &other.value_domain,
        )
    }
}

impl<DK: Domain, DV: Domain> Domain for MapDomain<DK, DV> where DK::Carrier: Eq + Hash {
    type Carrier = HashMap<DK::Carrier, DV::Carrier>;

    open spec fn obeys_member_spec() -> bool {
        &&& DK::obeys_member_spec()
        &&& DV::obeys_member_spec()
        &&& obeys_key_model::<DK::Carrier>()
        &&& builds_valid_hashers::<std::collections::hash_map::RandomState>()
    }

    open spec fn member_spec(&self, val: &HashMap<DK::Carrier, DV::Carrier>) -> bool {
        forall|k: DK::Carrier| #[trigger]
            val@.contains_key(k) ==> self.key_domain.member_spec(&k)
                && self.value_domain.member_spec(&val@[k])
    }

    fn member(&self, val: &HashMap<DK::Carrier, DV::Carrier>) -> (r: bool) {
        broadcast use vstd::std_specs::hash::group_hash_axioms;

        let count = val.len();
        let entries = val.iter();
        let mut walk = VerusForLoopWrapper::new(entries, Ghost(None));
        let mut seen: usize = 0;
        while seen < count
            invariant
                walk.wf(),
                walk.snapshot@ == entries,
                seen <= count,
                Self::obeys_member_spec() ==> {
                    &&& entries == vstd::std_specs::hash::spec_hash_map_iter(val)
                    &&& count == val@.len()
                    &&& walk.index() == seen
                    &&& forall|i: int|
                        0 <= i < walk.index() ==> self.key_domain.member_spec(
                            (#[trigger] walk.seq()[i]).0,
                        ) && self.value_domain.member_spec(walk.seq()[i].1)
                },
            decreases count - seen,
        {
            let ghost at = walk.index();
            match walk.next() {
                Some((k, v)) => {
                    if !(self.key_domain.member(k) && self.value_domain.member(v)) {
                        proof {
                            if Self::obeys_member_spec() {
                                let all = walk.seq();
                                assert(all[at] == (k, v));
                                assert(val@.contains_key(*all[at].0) && val@[*all[at].0]
                                    == *all[at].1);
                            }
                        }
                        return false;
                    }
                },
                None => {
                    return true;
                },
            }
            seen += 1;
        }
        proof {
            if Self::obeys_member_spec() {
                let all = walk.seq();
                assert forall|k: DK::Carrier| #[trigger]
                    val@.contains_key(k) implies self.key_domain.member_spec(&k)
                    && self.value_domain.member_spec(&val@[k]) by {
                    assert(all.contains((&k, &val@[k])));
                    let i = choose|i: int| 0 <= i < all.len() && all[i] == (&k, &val@[k]);
                    assert(self.key_domain.member_spec(all[i].0));
                }
            }
        }
        true
    }

    open spec fn obeys_domain_laws() -> bool {
        DK::obeys_domain_laws() && DV::obeys_domain_laws()
    }

    proof fn lemma_same_members(&self, other: &Self, val: &HashMap<DK::Carrier, DV::Carrier>) {
        assert forall|k: DK::Carrier| #[trigger] val@.contains_key(k) implies (
        self.key_domain.member_spec(&k) && self.value_domain.member_spec(&val@[k])) == (
        other.key_domain.member_spec(&k) && other.value_domain.member_spec(&val@[k])) by {
            self.key_domain.lemma_same_members(&other.key_domain, &k);
            self.value_domain.lemma_same_members(&other.value_domain, &val@[k]);
        }
    }
}

} // verus!
