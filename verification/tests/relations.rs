use opendp::dist::{L1Sensitivity, MaxDivergence};
use opendp::error::ErrorVariant;
use opendp::func::{Apply, NoMap};
use opendp::kernel::{HintMm, HintMt, HintTt};
use opendp::relation::{PrivacyRelation, StabilityRelation};
use opendp::traits::{distance_cast, CastFrom, DistanceCast};

type M32 = L1Sensitivity<i32>;
type M64 = L1Sensitivity<i64>;
type MU8 = L1Sensitivity<u8>;

#[test]
fn constant_relation_holds_when_output_is_at_least_the_product() {
    let relation = StabilityRelation::<M32, M64, _, _, _>::new_from_constant(3);
    assert!(relation.eval(&4, &12));
    assert!(relation.eval(&4, &13));
    assert!(!relation.eval(&4, &11));
    assert!(relation.eval(&0, &0));
    assert!(relation.eval(&-4, &-12));
    assert!(!relation.eval(&-4, &-13));
}

#[test]
fn constant_relation_never_overflows() {
    let relation = StabilityRelation::<L1Sensitivity<u64>, L1Sensitivity<u64>, _, _, _>::new_from_constant(u64::MAX);
    assert!(!relation.eval(&u64::MAX, &u64::MAX));
    assert!(relation.eval(&1, &u64::MAX));
    assert!(!relation.eval(&2, &u64::MAX));
    assert!(relation.eval(&0, &0));
    let relation = StabilityRelation::<M64, M64, _, _, _>::new_from_constant(i64::MIN);
    assert!(relation.eval(&1, &i64::MIN));
    assert!(relation.eval(&i64::MAX, &i64::MIN));
    assert!(!relation.eval(&i64::MIN, &i64::MAX));
    let relation = StabilityRelation::<M32, MU8, _, _, _>::new_from_constant(2);
    assert!(!relation.eval(&i32::MAX, &255));
    assert!(relation.eval(&i32::MIN, &0));
}

#[test]
fn constant_forward_map_satisfies_the_relation() {
    let relation = StabilityRelation::<M32, M64, _, _, _>::new_from_constant(3);
    let forward = relation.forward_map.as_ref().unwrap();
    for d_in in [0, 1, 7, i32::MAX] {
        let d_out: i64 = forward.apply(&d_in).unwrap();
        assert_eq!(d_out, d_in as i64 * 3);
        assert!(relation.eval(&d_in, &d_out));
        if d_in > 0 {
            assert!(!relation.eval(&d_in, &(d_out - 1)));
        }
    }
}

#[test]
fn constant_backward_map_divides_and_rounds_towards_zero() {
    let relation = StabilityRelation::<M32, M64, _, _, _>::new_from_constant(3);
    let backward = relation.backward_map.as_ref().unwrap();
    let d_in: i32 = backward.apply(&14).unwrap();
    assert_eq!(d_in, 4);
    assert!(relation.eval(&d_in, &14));
    let d_in: i32 = backward.apply(&-14).unwrap();
    assert_eq!(d_in, -4);
    let relation = StabilityRelation::<M32, M64, _, _, _>::new_from_constant(-3);
    let backward = relation.backward_map.as_ref().unwrap();
    let d_in: i32 = backward.apply(&14).unwrap();
    assert_eq!(d_in, -4);
    let d_in: i32 = backward.apply(&-14).unwrap();
    assert_eq!(d_in, 4);
}

#[test]
fn relation_from_a_closure_has_no_maps() {
    let relation = StabilityRelation::<M32, M64, _, _, _>::new(|d_in: &i32, d_out: &i64| {
        *d_out >= 2 * *d_in as i64
    });
    assert!(relation.eval(&2, &4));
    assert!(!relation.eval(&2, &3));
    assert!(relation.forward_map.is_none());
    assert!(relation.backward_map.is_none());
    let shared = relation.clone();
    assert!(shared.eval(&2, &4));
}

#[test]
fn relation_with_maps_from_closures() {
    let relation = StabilityRelation::<M32, M64, _, _, _>::new_all(
        |d_in: &i32, d_out: &i64| *d_out >= 2 * *d_in as i64,
        Some(|d_in: &i32| Box::new(2 * *d_in as i64)),
        None::<fn(&i64) -> Box<i32>>,
    );
    assert!(relation.eval(&2, &4));
    let forward = relation.forward_map.as_ref().unwrap();
    let d_out: i64 = forward.apply(&21).unwrap();
    assert_eq!(d_out, 42);
    assert!(relation.backward_map.is_none());
}

#[test]
fn privacy_relation_evaluates_its_closure() {
    let relation =
        PrivacyRelation::<M32, MaxDivergence<u32>, _, _>::new(|d_in: &i32, d_out: &u32| {
            *d_in as i64 <= *d_out as i64
        });
    assert!(relation.eval(&3, &3));
    assert!(!relation.eval(&4, &3));
    assert!(relation.backward_map.is_none());
    let relation = PrivacyRelation::<M32, MaxDivergence<u32>, _, _>::new_all(
        |d_in: &i32, d_out: &u32| *d_in as i64 <= *d_out as i64,
        Some(|d_out: &u32| Box::new(*d_out as i32)),
    );
    assert!(relation.eval(&3, &3));
    let backward = relation.backward_map.as_ref().unwrap();
    let d_in: i32 = backward.apply(&5).unwrap();
    assert_eq!(d_in, 5);
}

#[test]
fn chain_goes_by_the_hint_first() {
    let relation0 = StabilityRelation::<M32, M32, _, _, _>::new_from_constant(2);
    let relation1 = StabilityRelation::<M32, M64, _, _, _>::new_from_constant(5);
    // The hint proposes a larger distance in between than the forward map would.
    let hint = HintTt::<M32, M64, M32, _>::new(|d_in: &i32, _d_out: &i64| Box::new(3 * d_in));
    let hinted = StabilityRelation::make_chain(&relation1, &relation0, Some(&hint)).unwrap();
    assert!(hinted.eval(&1, &15));
    assert!(!hinted.eval(&1, &14));
    let unhinted =
        StabilityRelation::make_chain(&relation1, &relation0, None::<&HintTt<M32, M64, M32, NoMap>>)
            .unwrap();
    assert!(unhinted.eval(&1, &10));
    assert!(!unhinted.eval(&1, &9));
    assert!(unhinted.eval(&1, &14));
}

#[test]
fn chain_falls_back_to_the_backward_map() {
    let relation0 = StabilityRelation::<M32, M32, _, _, _>::new_all(
        |d_in: &i32, d_mid: &i32| *d_mid >= 2 * *d_in,
        None::<fn(&i32) -> Box<i32>>,
        None::<fn(&i32) -> Box<i32>>,
    );
    let relation1 = StabilityRelation::<M32, M64, _, _, _>::new_from_constant(5);
    let chain =
        StabilityRelation::make_chain(&relation1, &relation0, None::<&HintTt<M32, M64, M32, NoMap>>)
            .unwrap();
    // d_mid = d_out / 5, rounded towards zero.
    assert!(chain.eval(&1, &10));
    assert!(chain.eval(&1, &14));
    assert!(!chain.eval(&1, &9));
    assert!(chain.forward_map.is_none());
    assert!(chain.backward_map.is_none());
}

#[test]
fn chain_maps_exist_where_both_parts_have_them() {
    let relation0 = StabilityRelation::<M32, M32, _, _, _>::new_from_constant(2);
    let relation1 = StabilityRelation::<M32, M64, _, _, _>::new_from_constant(5);
    let chain =
        StabilityRelation::make_chain(&relation1, &relation0, None::<&HintTt<M32, M64, M32, NoMap>>)
            .unwrap();
    let forward = chain.forward_map.as_ref().unwrap();
    let d_out: i64 = forward.apply(&3).unwrap();
    assert_eq!(d_out, 30);
    let backward = chain.backward_map.as_ref().unwrap();
    let d_in: i32 = backward.apply(&34).unwrap();
    assert_eq!(d_in, 3);
    let hint = HintTt::<M32, M64, M32, _>::new(|d_in: &i32, _d_out: &i64| Box::new(2 * d_in));
    let chain = StabilityRelation::make_chain_hint(&relation1, &relation0, &hint);
    assert!(chain.eval(&1, &10));
    assert!(!chain.eval(&1, &9));
    assert!(chain.forward_map.is_some() && chain.backward_map.is_some());
}

#[test]
fn chain_without_hint_or_maps_is_refused() {
    let relation0 =
        StabilityRelation::<M32, M32, _, _, _>::new(|_d_in: &i32, _d_mid: &i32| true);
    let relation1 =
        StabilityRelation::<M32, M64, _, _, _>::new(|_d_mid: &i32, _d_out: &i64| true);
    let refused =
        StabilityRelation::make_chain(&relation1, &relation0, None::<&HintTt<M32, M64, M32, NoMap>>);
    assert_eq!(refused.err().unwrap().variant, ErrorVariant::BoundNotDerivable);
    let hint = HintTt::<M32, M64, M32, _>::new(|d_in: &i32, _d_out: &i64| Box::new(*d_in));
    assert!(StabilityRelation::make_chain(&relation1, &relation0, Some(&hint)).is_ok());
}

#[test]
fn distance_cast_keeps_the_number_or_fails() {
    let d: u8 = distance_cast(&255i32).unwrap();
    assert_eq!(d, 255);
    let refused: Result<u8, _> = distance_cast(&256i32);
    assert_eq!(refused.err().unwrap().variant, ErrorVariant::FailedCast);
    let refused: Result<u64, _> = distance_cast(&-1i8);
    assert_eq!(refused.err().unwrap().variant, ErrorVariant::FailedCast);
    let d: i64 = distance_cast(&u32::MAX).unwrap();
    assert_eq!(d, 4294967295);
    let refused: Result<i64, _> = distance_cast(&u64::MAX);
    assert!(refused.is_err());
    let d: isize = distance_cast(&-7i16).unwrap();
    assert_eq!(d, -7);
    let d: usize = distance_cast(&7u16).unwrap();
    assert_eq!(d, 7);
}

#[test]
fn every_distance_type_has_a_one() {
    assert_eq!(<u8 as DistanceCast>::one(), 1);
    assert_eq!(<u16 as DistanceCast>::one(), 1);
    assert_eq!(<u32 as DistanceCast>::one(), 1);
    assert_eq!(<u64 as DistanceCast>::one(), 1);
    assert_eq!(<usize as DistanceCast>::one(), 1);
    assert_eq!(<i8 as DistanceCast>::one(), 1);
    assert_eq!(<i16 as DistanceCast>::one(), 1);
    assert_eq!(<i32 as DistanceCast>::one(), 1);
    assert_eq!(<i64 as DistanceCast>::one(), 1);
    assert_eq!(<isize as DistanceCast>::one(), 1);
}

#[test]
fn wide_conversions_are_exact() {
    assert_eq!(u64::MAX.to_wide(), 18446744073709551615);
    assert_eq!(i64::MIN.to_wide(), -9223372036854775808);
    assert_eq!(<u64 as DistanceCast>::from_wide(18446744073709551615), Some(u64::MAX));
    assert_eq!(<u64 as DistanceCast>::from_wide(18446744073709551616), None);
    assert_eq!(<i8 as DistanceCast>::from_wide(-128), Some(-128));
    assert_eq!(<i8 as DistanceCast>::from_wide(-129), None);
}

#[test]
fn cast_from_gives_the_counterpart_or_fails() {
    assert_eq!(<u8 as CastFrom<i32>>::cast(7).unwrap(), 7);
    let refused = <u8 as CastFrom<i32>>::cast(-7);
    assert_eq!(refused.err().unwrap().variant, ErrorVariant::FailedCast);
    assert_eq!(<i64 as CastFrom<bool>>::cast(true).unwrap(), 1);
    assert_eq!(<i64 as CastFrom<bool>>::cast(false).unwrap(), 0);
    assert!(<bool as CastFrom<u16>>::cast(2).unwrap());
    assert!(!<bool as CastFrom<u16>>::cast(0).unwrap());
    assert!(<bool as CastFrom<bool>>::cast(true).unwrap());
}

#[test]
fn constant_maps_give_nothing_where_no_bound_can_be_expressed() {
    let relation = StabilityRelation::<M32, MU8, _, _, _>::new_from_constant(2);
    let forward = relation.forward_map.as_ref().unwrap();
    assert_eq!(forward.apply(&127), Some(254u8));
    assert_eq!(forward.apply(&128), None);
    assert_eq!(forward.apply(&-1), None);
    let backward = relation.backward_map.as_ref().unwrap();
    assert_eq!(backward.apply(&255), Some(127i32));
    let relation = StabilityRelation::<MU8, M32, _, _, _>::new_from_constant(0);
    let backward = relation.backward_map.as_ref().unwrap();
    assert_eq!(backward.apply(&5), None);
    let relation = StabilityRelation::<MU8, M64, _, _, _>::new_from_constant(1);
    let backward = relation.backward_map.as_ref().unwrap();
    assert_eq!(backward.apply(&255), Some(255u8));
    assert_eq!(backward.apply(&256), None);
    let relation =
        StabilityRelation::<L1Sensitivity<u64>, L1Sensitivity<u64>, _, _, _>::new_from_constant(
            u64::MAX,
        );
    let forward = relation.forward_map.as_ref().unwrap();
    assert_eq!(forward.apply(&u64::MAX), None);
    assert_eq!(forward.apply(&1), Some(u64::MAX));
}

#[test]
fn chained_relation_can_be_evaluated_at_every_pair() {
    let relation0 = StabilityRelation::<MU8, MU8, _, _, _>::new_from_constant(2);
    let relation1 = StabilityRelation::<MU8, M64, _, _, _>::new_from_constant(3);
    let chain =
        StabilityRelation::make_chain(&relation1, &relation0, None::<&HintTt<MU8, M64, MU8, NoMap>>)
            .unwrap();
    assert!(chain.eval(&3, &18));
    assert!(!chain.eval(&3, &17));
    // 200 * 2 cannot be expressed in between: the chain does not hold, however large `d_out`.
    assert!(!chain.eval(&200, &i64::MAX));
    assert!(chain.eval(&127, &762));
    let forward = chain.forward_map.as_ref().unwrap();
    assert_eq!(forward.apply(&127), Some(762i64));
    assert_eq!(forward.apply(&128), None);
    // Without a forward map the chain goes by the backward map; a zero constant gives none.
    let relation0 = StabilityRelation::<MU8, MU8, _, _, _>::new_all(
        |d_in: &u8, d_mid: &u8| d_mid >= d_in,
        None::<fn(&u8) -> Box<u8>>,
        None::<fn(&u8) -> Box<u8>>,
    );
    let relation1 = StabilityRelation::<MU8, M64, _, _, _>::new_from_constant(0);
    let chain =
        StabilityRelation::make_chain(&relation1, &relation0, None::<&HintTt<MU8, M64, MU8, NoMap>>)
            .unwrap();
    assert!(!chain.eval(&0, &0));
    assert!(!chain.eval(&1, &100));
}

#[test]
fn the_absent_map_gives_nothing() {
    let nothing: Option<u8> = Apply::<i32, Option<u8>>::apply(&NoMap, &7);
    assert_eq!(nothing, None);
    let nothing: Option<u8> = opendp::func::Apply2::<i32, i64, Option<u8>>::apply(&NoMap, &7, &8);
    assert_eq!(nothing, None);
}

#[test]
fn privacy_chain_goes_by_hint_then_forward_map_then_backward_map() {
    type Loss = MaxDivergence<u32>;
    let stable = StabilityRelation::<M32, M32, _, _, _>::new_from_constant(2);
    let private = PrivacyRelation::<M32, Loss, _, _>::new_all(
        |d_mid: &i32, d_out: &u32| *d_mid as i64 <= *d_out as i64,
        Some(|d_out: &u32| Box::new(*d_out as i32)),
    );
    // By the forward map: d_mid = 2 * d_in.
    let chain =
        PrivacyRelation::make_chain(&private, &stable, None::<&HintMt<M32, M32, Loss, NoMap>>)
            .unwrap();
    assert!(chain.eval(&3, &6));
    assert!(!chain.eval(&3, &5));
    let backward = chain.backward_map.as_ref().unwrap();
    assert_eq!(backward.apply(&7), Some(3i32));
    // By a hint that proposes more than the forward map would.
    let hint = HintMt::<M32, M32, Loss, _>::new(|d_in: &i32, _d_out: &u32| Box::new(3 * d_in));
    let hinted = PrivacyRelation::make_chain(&private, &stable, Some(&hint)).unwrap();
    assert!(hinted.eval(&3, &9));
    assert!(!hinted.eval(&3, &8));
    // By the backward map of the privacy relation, where the first has no forward map.
    let bare = StabilityRelation::<M32, M32, _, _, _>::new_all(
        |d_in: &i32, d_mid: &i32| *d_mid >= 2 * *d_in,
        None::<fn(&i32) -> Box<i32>>,
        None::<fn(&i32) -> Box<i32>>,
    );
    let chain = PrivacyRelation::make_chain(&private, &bare, None::<&HintMt<M32, M32, Loss, NoMap>>)
        .unwrap();
    assert!(chain.eval(&3, &6));
    assert!(!chain.eval(&3, &5));
    assert!(chain.backward_map.is_none());
}

#[test]
fn privacy_chain_without_hint_or_maps_is_refused() {
    type Loss = MaxDivergence<u32>;
    let bare = StabilityRelation::<M32, M32, _, _, _>::new(|_d_in: &i32, _d_mid: &i32| true);
    let private = PrivacyRelation::<M32, Loss, _, _>::new(|_d_mid: &i32, _d_out: &u32| true);
    let refused =
        PrivacyRelation::make_chain(&private, &bare, None::<&HintMt<M32, M32, Loss, NoMap>>);
    assert_eq!(refused.err().unwrap().variant, ErrorVariant::BoundNotDerivable);
    let hint = HintMt::<M32, M32, Loss, _>::new(|d_in: &i32, _d_out: &u32| Box::new(*d_in));
    let chain = PrivacyRelation::make_chain(&private, &bare, Some(&hint)).unwrap();
    assert!(chain.eval(&1, &1));
}

#[test]
fn privacy_composition_goes_by_the_strategy() {
    type Loss = MaxDivergence<u32>;
    let first = PrivacyRelation::<M32, Loss, _, _>::new(|d_in: &i32, d_out: &u32| {
        *d_in as i64 <= *d_out as i64
    });
    let second = PrivacyRelation::<M32, Loss, _, _>::new(|d_in: &i32, d_out: &u32| {
        3 * *d_in as i64 <= *d_out as i64
    });
    let strategy = HintMm::new(|_d_in: &i32, d_out: &u32| Box::new((d_out / 4, d_out - d_out / 4)));
    let both = PrivacyRelation::make_composition(&first, &second, Some(&strategy)).unwrap();
    assert!(both.eval(&2, &8));
    assert!(!both.eval(&2, &7));
    assert!(!both.eval(&3, &11));
    assert!(both.eval(&3, &12));
    assert!(both.backward_map.is_none());
    let refused =
        PrivacyRelation::make_composition(&first, &second, None::<&HintMm<M32, Loss, NoMap>>);
    assert_eq!(refused.err().unwrap().variant, ErrorVariant::BoundNotDerivable);
}
