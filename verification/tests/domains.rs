use opendp::dom::{
    AllDomain, BoxDomain, InherentNull, InherentNullDomain, IntervalDomain, MapDomain,
    OptionNullDomain, PairDomain, SizedDomain, VectorDomain,
};
use std::collections::HashMap;
use opendp::error::ErrorVariant;
use opendp::kernel::Domain;
use std::ops::Bound;

#[test]
fn all_domain_holds_everything() {
    let domain = AllDomain::<i32>::new();
    assert!(domain.member(&i32::MIN));
    assert!(domain.member(&0));
    assert!(domain == domain.clone());
}

#[test]
fn interval_construction_succeeds_for_bounds_in_order() {
    for (lower, upper) in [(0, 0), (0, 1), (-5, 5), (i32::MIN, i32::MAX)] {
        assert!(IntervalDomain::new(Bound::Included(lower), Bound::Included(upper)).is_ok());
    }
    for (lower, upper) in [(0, 1), (-5, 5)] {
        assert!(IntervalDomain::new(Bound::Excluded(lower), Bound::Excluded(upper)).is_ok());
        assert!(IntervalDomain::new(Bound::Included(lower), Bound::Excluded(upper)).is_ok());
        assert!(IntervalDomain::new(Bound::Excluded(lower), Bound::Included(upper)).is_ok());
    }
    assert!(IntervalDomain::new(Bound::Excluded(3), Bound::Excluded(3)).is_ok());
    assert!(IntervalDomain::<i32>::new(Bound::Unbounded, Bound::Unbounded).is_ok());
    assert!(IntervalDomain::new(Bound::Included(9), Bound::Unbounded).is_ok());
    assert!(IntervalDomain::new(Bound::Unbounded, Bound::Excluded(-9)).is_ok());
}

#[test]
fn interval_construction_fails_for_bounds_out_of_order() {
    for (lower, upper) in [(1, 0), (5, -5), (i32::MAX, i32::MIN)] {
        let refused = IntervalDomain::new(Bound::Included(lower), Bound::Included(upper));
        assert_eq!(refused.err().unwrap().variant, ErrorVariant::MakeTransformation);
        let refused = IntervalDomain::new(Bound::Excluded(lower), Bound::Included(upper));
        assert_eq!(refused.err().unwrap().variant, ErrorVariant::MakeTransformation);
        let refused = IntervalDomain::new(Bound::Excluded(lower), Bound::Excluded(upper));
        assert_eq!(refused.err().unwrap().variant, ErrorVariant::MakeTransformation);
    }
}

#[test]
fn interval_construction_fails_where_one_bound_excludes_the_other() {
    let refused = IntervalDomain::new(Bound::Included(3), Bound::Excluded(3));
    let error = refused.err().unwrap();
    assert_eq!(error.variant, ErrorVariant::MakeTransformation);
    assert_eq!(error.message, "upper bound excludes inclusive lower bound");
    let refused = IntervalDomain::new(Bound::Excluded(3), Bound::Included(3));
    let error = refused.err().unwrap();
    assert_eq!(error.variant, ErrorVariant::MakeTransformation);
    assert_eq!(error.message, "lower bound excludes inclusive upper bound");
    let refused = IntervalDomain::new(Bound::Included(4), Bound::Included(3));
    assert_eq!(refused.err().unwrap().message, "lower bound may not be greater than upper bound");
}

#[test]
fn interval_membership_follows_the_kinds_of_its_bounds() {
    let closed = IntervalDomain::new(Bound::Included(0), Bound::Included(10)).unwrap();
    assert!(closed.member(&0) && closed.member(&10) && closed.member(&5));
    assert!(!closed.member(&-1) && !closed.member(&11));
    let open = IntervalDomain::new(Bound::Excluded(0), Bound::Excluded(10)).unwrap();
    assert!(!open.member(&0) && !open.member(&10));
    assert!(open.member(&1) && open.member(&9));
    let half = IntervalDomain::new(Bound::Unbounded, Bound::Excluded(10)).unwrap();
    assert!(half.member(&i32::MIN) && half.member(&9) && !half.member(&10));
    let half = IntervalDomain::new(Bound::Included(10), Bound::Unbounded).unwrap();
    assert!(half.member(&i32::MAX) && half.member(&10) && !half.member(&9));
    let empty = IntervalDomain::new(Bound::Excluded(3), Bound::Excluded(3)).unwrap();
    assert!(!empty.member(&3));
}

#[test]
fn interval_membership_over_a_partial_order() {
    let unit = IntervalDomain::new(Bound::Included(0.0), Bound::Excluded(1.0)).unwrap();
    assert!(unit.member(&0.0) && unit.member(&0.5));
    assert!(!unit.member(&1.0) && !unit.member(&f64::NAN));
}

#[test]
fn member_is_deterministic() {
    let domain = IntervalDomain::new(Bound::Included(-2), Bound::Excluded(7)).unwrap();
    for val in [-3, -2, 0, 6, 7] {
        assert_eq!(domain.member(&val), domain.member(&val));
        assert_eq!(domain.member(&val), domain.clone().member(&val));
    }
}

#[test]
fn interval_equality_compares_the_bounds() {
    let a = IntervalDomain::new(Bound::Included(0), Bound::Excluded(10)).unwrap();
    let b = IntervalDomain::new(Bound::Included(0), Bound::Excluded(10)).unwrap();
    let c = IntervalDomain::new(Bound::Included(0), Bound::Included(10)).unwrap();
    let d = IntervalDomain::new(Bound::Included(0), Bound::Unbounded).unwrap();
    assert!(a == b);
    assert!(a == a.clone());
    assert!(a != c);
    assert!(a != d);
}

#[test]
fn pair_membership_is_membership_of_both_components() {
    let d0 = IntervalDomain::new(Bound::Included(0), Bound::Included(10)).unwrap();
    let d1 = IntervalDomain::new(Bound::Included(-1), Bound::Included(1)).unwrap();
    let pair = PairDomain::new(d0.clone(), d1.clone());
    for a in [-1, 0, 10, 11] {
        for b in [-2, -1, 1, 2] {
            assert_eq!(pair.member(&(a, b)), d0.member(&a) && d1.member(&b));
        }
    }
    assert!(pair.member(&(10, 1)));
    assert!(!pair.member(&(10, 2)));
    assert!(pair == pair.clone());
    assert!(pair != PairDomain::new(d0.clone(), d0));
}

#[test]
fn box_domain_looks_inside_the_box() {
    let inner = IntervalDomain::new(Bound::Included(0), Bound::Included(10)).unwrap();
    let domain = BoxDomain::new(Box::new(inner));
    assert!(domain.member(&Box::new(10)));
    assert!(!domain.member(&Box::new(11)));
    assert!(domain == domain.clone());
}

#[test]
fn vector_membership_is_membership_of_every_element() {
    let inner = IntervalDomain::new(Bound::Included(0), Bound::Included(10)).unwrap();
    let domain = VectorDomain::new(inner);
    assert!(domain.member(&vec![]));
    assert!(domain.member(&vec![0, 5, 10]));
    assert!(!domain.member(&vec![0, 5, 11]));
    assert!(!domain.member(&vec![-1, 5, 10]));
    assert!(VectorDomain::<AllDomain<i32>>::new_all().member(&vec![i32::MIN, i32::MAX]));
    assert!(domain == domain.clone());
}

#[test]
fn sized_domain_delegates_membership() {
    let inner = VectorDomain::new(
        IntervalDomain::new(Bound::Included(0), Bound::Included(10)).unwrap(),
    );
    let domain = SizedDomain::new(inner.clone(), 3);
    assert_eq!(domain.length, 3);
    assert!(domain.member(&vec![1, 2, 3]));
    assert!(!domain.member(&vec![1, 2, 30]));
    assert!(domain == domain.clone());
    assert!(domain != SizedDomain::new(inner, 4));
}

#[test]
fn option_domain_holds_none_and_members() {
    let inner = IntervalDomain::new(Bound::Included(0), Bound::Included(10)).unwrap();
    let domain = OptionNullDomain::new(inner);
    assert!(domain.member(&None));
    assert!(domain.member(&Some(3)));
    assert!(!domain.member(&Some(30)));
    assert!(domain == domain.clone());
}

#[test]
fn map_membership_is_membership_of_every_key_and_value() {
    let keys = IntervalDomain::new(Bound::Included(0), Bound::Included(10)).unwrap();
    let values = IntervalDomain::new(Bound::Included(-1), Bound::Included(1)).unwrap();
    let domain = MapDomain::new(keys, values);
    let mut map = HashMap::new();
    assert!(domain.member(&map));
    map.insert(0, 1);
    map.insert(10, -1);
    assert!(domain.member(&map));
    map.insert(5, 2);
    assert!(!domain.member(&map));
    map.remove(&5);
    map.insert(11, 0);
    assert!(!domain.member(&map));
    assert!(MapDomain::<AllDomain<i32>, AllDomain<i32>>::new_all().member(&map));
    assert!(domain == domain.clone());
}

#[derive(Clone, PartialEq)]
struct Reading(Option<i32>);

impl InherentNull for Reading {
    fn is_null_spec(&self) -> bool {
        self.0.is_none()
    }

    fn is_null(&self) -> bool {
        self.0.is_none()
    }

    const NULL: Self = Reading(None);
}

#[derive(Clone, PartialEq)]
struct Plausible;

impl Domain for Plausible {
    type Carrier = Reading;

    fn obeys_member_spec() -> bool {
        true
    }

    fn member_spec(&self, val: &Reading) -> bool {
        matches!(val.0, Some(v) if v >= -90 && v <= 60)
    }

    fn member(&self, val: &Reading) -> bool {
        self.member_spec(val)
    }

    fn obeys_domain_laws() -> bool {
        true
    }

    fn lemma_same_members(&self, _other: &Self, _val: &Reading) {}
}

#[test]
fn inherent_null_domain_adds_the_missing_values() {
    assert!(!Plausible.member(&Reading(None)));
    let domain = InherentNullDomain::new(Plausible);
    assert!(domain.member(&Reading(None)));
    assert!(domain.member(&Reading::NULL));
    assert!(domain.member(&Reading(Some(21))));
    assert!(!domain.member(&Reading(Some(210))));
    assert!(domain == domain.clone());
}
