use opendp::dist::{HammingDistance, SymmetricDistance};
use opendp::dom::AllDomain;
use opendp::error::ErrorVariant;
use opendp::kernel::{ChainTT, Domain};
use opendp::traits::{narrow_parsed, signed_from_parsed, unsigned_from_parsed, CastFrom};
use opendp::trans::manipulation::{Cast, Clamp, Identity, Unclamp};
use opendp::trans::{MakeTransformation0, MakeTransformation2};
use std::ops::Bound;

#[test]
fn test_unclamp() {
    let clamp = Clamp::<SymmetricDistance, Vec<u8>>::make2(2, 3).unwrap();
    let unclamp = Unclamp::<SymmetricDistance, Vec<u8>>::make2(2, 3).unwrap();
    ChainTT::make(&clamp, &unclamp).unwrap();
}

fn check_pair<TI: Clone + Default, TO: CastFrom<TI> + Default>() {
    let caster = Cast::<SymmetricDistance, Vec<TI>, Vec<TO>>::make().unwrap();
    caster.function.eval(&vec![TI::default()]);
    let caster = Cast::<HammingDistance, Vec<TI>, Vec<TO>>::make().unwrap();
    caster.function.eval(&vec![TI::default()]);
}

fn check_from<TI: Clone + Default>()
where
    u8: CastFrom<TI>,
    u16: CastFrom<TI>,
    u32: CastFrom<TI>,
    u64: CastFrom<TI>,
    i8: CastFrom<TI>,
    i16: CastFrom<TI>,
    i32: CastFrom<TI>,
    i64: CastFrom<TI>,
    u128: CastFrom<TI>,
    i128: CastFrom<TI>,
    String: CastFrom<TI>,
    bool: CastFrom<TI>,
{
    check_pair::<TI, u8>();
    check_pair::<TI, u16>();
    check_pair::<TI, u32>();
    check_pair::<TI, u64>();
    check_pair::<TI, i8>();
    check_pair::<TI, i16>();
    check_pair::<TI, i32>();
    check_pair::<TI, i64>();
    check_pair::<TI, u128>();
    check_pair::<TI, i128>();
    check_pair::<TI, String>();
    check_pair::<TI, bool>();
}

#[test]
fn test_cast() {
    check_from::<u8>();
    check_from::<u16>();
    check_from::<u32>();
    check_from::<u64>();
    check_from::<i8>();
    check_from::<i16>();
    check_from::<i32>();
    check_from::<i64>();
    check_from::<u128>();
    check_from::<i128>();
    check_from::<String>();
    check_from::<bool>();
}

#[test]
fn test_cast_parse() {
    let data = vec!["2".to_string(), "3".to_string(), "a".to_string(), "".to_string()];

    let caster = Cast::<SymmetricDistance, Vec<String>, Vec<u8>>::make().unwrap();
    assert_eq!(caster.function.eval(&data), vec![2, 3, u8::default(), u8::default()]);
}

#[test]
fn manipulation_test_identity() {
    let identity = Identity::make(AllDomain::new(), HammingDistance).unwrap();
    let arg = 99;
    let ret = identity.function.eval(&arg);
    assert_eq!(ret, 99);
}

#[test]
fn test_make_clamp() {
    let transformation = Clamp::<HammingDistance, Vec<i32>>::make(0, 10).unwrap();
    let arg = vec![-10, -5, 0, 5, 10, 20];
    let ret = transformation.function.eval(&arg);
    let expected = vec![0, 0, 0, 5, 10, 10];
    assert_eq!(ret, expected);
}

#[test]
fn identity_is_stable_with_the_constant_one() {
    let identity = Identity::make2(AllDomain::<String>::new(), SymmetricDistance).unwrap();
    assert_eq!(identity.function.eval(&"abc".to_string()), "abc".to_string());
    assert!(identity.stability_relation.eval(&3, &3));
    assert!(identity.stability_relation.eval(&3, &4));
    assert!(!identity.stability_relation.eval(&3, &2));
    assert!(identity.stability_relation.eval(&0, &0));
}

#[test]
fn chaining_with_the_identity_changes_nothing() {
    let clamp = Clamp::<SymmetricDistance, Vec<i32>>::make(-1, 1).unwrap();
    let before =
        Identity::make(opendp::dom::VectorDomain::<AllDomain<i32>>::new_all(), SymmetricDistance)
            .unwrap();
    let chain = ChainTT::make(&clamp, &before).unwrap();
    for arg in [vec![], vec![0], vec![-5, 5, 1, -1, 0, 2]] {
        assert_eq!(chain.function.eval(&arg), clamp.function.eval(&arg));
    }
    let unclamp = Unclamp::<SymmetricDistance, Vec<i32>>::make(-1, 1).unwrap();
    let after =
        Identity::make(opendp::dom::VectorDomain::<AllDomain<i32>>::new_all(), SymmetricDistance)
            .unwrap();
    let chain = ChainTT::make(&after, &unclamp).unwrap();
    for arg in [vec![], vec![0], vec![-1, 1, 0]] {
        assert_eq!(chain.function.eval(&arg), unclamp.function.eval(&arg));
    }
}

#[test]
fn clamp_output_lies_in_its_output_domain() {
    let clamp = Clamp::<SymmetricDistance, Vec<i64>>::make(-3, 8).unwrap();
    let out = clamp.function.eval(&vec![i64::MIN, -4, -3, 0, 8, 9, i64::MAX]);
    assert_eq!(out, vec![-3, -3, -3, 0, 8, 8, 8]);
    assert!(clamp.output_domain.member(&out));
    assert!(!clamp.output_domain.member(&vec![9]));
    assert!(clamp.input_domain.member(&vec![9]));
    assert!(clamp.stability_relation.eval(&2, &2));
    assert!(!clamp.stability_relation.eval(&2, &1));
}

#[test]
fn clamp_with_equal_bounds_is_constant() {
    let clamp = Clamp::<SymmetricDistance, Vec<u8>>::make(7, 7).unwrap();
    assert_eq!(clamp.function.eval(&vec![0, 7, 255]), vec![7, 7, 7]);
}

#[test]
fn clamp_and_unclamp_refuse_bounds_out_of_order() {
    let refused = Clamp::<SymmetricDistance, Vec<i32>>::make(1, 0);
    assert_eq!(refused.err().unwrap().variant, ErrorVariant::MakeTransformation);
    let refused = Clamp::<SymmetricDistance, Vec<i32>>::make2(1, 0);
    assert_eq!(refused.err().unwrap().variant, ErrorVariant::MakeTransformation);
    let refused = Unclamp::<SymmetricDistance, Vec<i32>>::make(1, 0);
    assert_eq!(refused.err().unwrap().variant, ErrorVariant::MakeTransformation);
    let refused = Unclamp::<SymmetricDistance, Vec<i32>>::make2(1, 0);
    assert_eq!(refused.err().unwrap().variant, ErrorVariant::MakeTransformation);
}

#[test]
fn unclamp_passes_its_input_on() {
    let unclamp = Unclamp::<HammingDistance, Vec<i32>>::make(0, 10).unwrap();
    assert_eq!(unclamp.function.eval(&vec![3, 4]), vec![3, 4]);
    assert!(unclamp.input_domain.member(&vec![0, 10]));
    assert!(!unclamp.input_domain.member(&vec![0, 11]));
    assert!(unclamp.output_domain.member(&vec![0, 11]));
}

#[test]
fn cast_keeps_numbers_that_fit_and_defaults_the_rest() {
    let caster = Cast::<SymmetricDistance, Vec<i32>, Vec<u8>>::make().unwrap();
    assert_eq!(caster.function.eval(&vec![-1, 0, 1, 255, 256]), vec![0, 0, 1, 255, 0]);
    let caster = Cast::<SymmetricDistance, Vec<u64>, Vec<i8>>::make0().unwrap();
    assert_eq!(caster.function.eval(&vec![0, 127, 128, u64::MAX]), vec![0, 127, 0, 0]);
    let caster = Cast::<SymmetricDistance, Vec<i8>, Vec<i64>>::make().unwrap();
    assert_eq!(caster.function.eval(&vec![-128, 127]), vec![-128, 127]);
    assert!(caster.stability_relation.eval(&1, &1));
    assert!(!caster.stability_relation.eval(&2, &1));
}

#[test]
fn cast_between_numbers_and_truth_values() {
    let caster = Cast::<SymmetricDistance, Vec<bool>, Vec<u8>>::make().unwrap();
    assert_eq!(caster.function.eval(&vec![true, false]), vec![1, 0]);
    let caster = Cast::<SymmetricDistance, Vec<i16>, Vec<bool>>::make().unwrap();
    assert_eq!(caster.function.eval(&vec![-2, 0, 1]), vec![true, false, true]);
    let caster = Cast::<SymmetricDistance, Vec<bool>, Vec<bool>>::make().unwrap();
    assert_eq!(caster.function.eval(&vec![true, false]), vec![true, false]);
}

#[test]
fn clamp_of_a_single_number() {
    let clamp = Clamp::<SymmetricDistance, i32>::make(0, 10).unwrap();
    assert_eq!(clamp.function.eval(&-3), 0);
    assert_eq!(clamp.function.eval(&3), 3);
    assert_eq!(clamp.function.eval(&13), 10);
    assert!(clamp.output_domain.member(&10));
    assert!(!clamp.output_domain.member(&11));
    let refused = Clamp::<SymmetricDistance, i32>::make2(1, 0);
    assert_eq!(refused.err().unwrap().variant, ErrorVariant::MakeTransformation);
}

#[test]
fn unclamp_of_a_single_number() {
    let unclamp =
        Unclamp::<SymmetricDistance, i32>::make(Bound::Included(0), Bound::Excluded(10)).unwrap();
    assert_eq!(unclamp.function.eval(&3), 3);
    assert!(unclamp.input_domain.member(&0));
    assert!(!unclamp.input_domain.member(&10));
    let refused = Unclamp::<SymmetricDistance, i32>::make2(Bound::Included(3), Bound::Excluded(3));
    assert_eq!(refused.err().unwrap().variant, ErrorVariant::MakeTransformation);
}

#[test]
fn cast_of_a_single_value() {
    let caster = Cast::<SymmetricDistance, i32, u8>::make().unwrap();
    assert_eq!(caster.function.eval(&7), 7);
    assert_eq!(caster.function.eval(&-7), 0);
    let caster = Cast::<HammingDistance, bool, i64>::make0().unwrap();
    assert_eq!(caster.function.eval(&true), 1);
}

#[test]
fn cast_between_numbers_and_text() {
    let text = |items: &[&str]| items.iter().map(|s| s.to_string()).collect::<Vec<_>>();
    let caster = Cast::<SymmetricDistance, Vec<String>, Vec<i16>>::make().unwrap();
    assert_eq!(
        caster.function.eval(&text(&["-7", "+7", "007", "32767", "32768", " 1", "1.0", "-"])),
        vec![-7, 7, 7, 32767, 0, 0, 0, 0]
    );
    let caster = Cast::<SymmetricDistance, Vec<String>, Vec<u64>>::make().unwrap();
    assert_eq!(
        caster.function.eval(&text(&["18446744073709551615", "18446744073709551616", "-1"])),
        vec![u64::MAX, 0, 0]
    );
    let caster = Cast::<SymmetricDistance, Vec<i64>, Vec<String>>::make().unwrap();
    assert_eq!(caster.function.eval(&vec![-12, 0, i64::MAX]), text(&["-12", "0", "9223372036854775807"]));
    let caster = Cast::<SymmetricDistance, Vec<u8>, Vec<String>>::make().unwrap();
    assert_eq!(caster.function.eval(&vec![0, 255]), text(&["0", "255"]));
    let caster = Cast::<SymmetricDistance, Vec<String>, Vec<String>>::make().unwrap();
    assert_eq!(caster.function.eval(&text(&["a", ""])), text(&["a", ""]));
}

#[test]
fn cast_between_truth_values_and_text() {
    let text = |items: &[&str]| items.iter().map(|s| s.to_string()).collect::<Vec<_>>();
    let caster = Cast::<SymmetricDistance, Vec<bool>, Vec<String>>::make().unwrap();
    assert_eq!(caster.function.eval(&vec![true, false]), text(&["true", "false"]));
    let caster = Cast::<SymmetricDistance, Vec<String>, Vec<bool>>::make().unwrap();
    assert_eq!(
        caster.function.eval(&text(&["true", "false", "True", "1", ""])),
        vec![true, false, false, false, false]
    );
}

#[test]
fn a_parsed_number_is_narrowed_to_the_target() {
    assert_eq!(narrow_parsed::<u8>(Some(255)).unwrap(), 255);
    assert_eq!(narrow_parsed::<u8>(Some(256)).err().unwrap().variant, ErrorVariant::FailedCast);
    assert_eq!(narrow_parsed::<i8>(Some(-128)).unwrap(), -128);
    assert_eq!(narrow_parsed::<i8>(None).err().unwrap().variant, ErrorVariant::FailedCast);
}

#[test]
fn cast_to_and_from_numbers_of_128_bits() {
    let text = |items: &[&str]| items.iter().map(|s| s.to_string()).collect::<Vec<_>>();
    let caster = Cast::<SymmetricDistance, Vec<i64>, Vec<u128>>::make().unwrap();
    assert_eq!(caster.function.eval(&vec![-1, 0, i64::MAX]), vec![0, 0, 9223372036854775807]);
    let caster = Cast::<SymmetricDistance, Vec<u64>, Vec<i128>>::make().unwrap();
    assert_eq!(caster.function.eval(&vec![0, u64::MAX]), vec![0, 18446744073709551615]);
    let caster = Cast::<SymmetricDistance, Vec<u128>, Vec<u64>>::make().unwrap();
    assert_eq!(
        caster.function.eval(&vec![18446744073709551615, 18446744073709551616, u128::MAX]),
        vec![u64::MAX, 0, 0]
    );
    let caster = Cast::<SymmetricDistance, Vec<i128>, Vec<i8>>::make().unwrap();
    assert_eq!(caster.function.eval(&vec![-128, -129, 127, 128, i128::MIN]), vec![-128, 0, 127, 0, 0]);
    let caster = Cast::<SymmetricDistance, Vec<i128>, Vec<u128>>::make().unwrap();
    assert_eq!(caster.function.eval(&vec![-1, 1, i128::MAX]), vec![0, 1, i128::MAX as u128]);
    let caster = Cast::<SymmetricDistance, Vec<u128>, Vec<i128>>::make().unwrap();
    assert_eq!(
        caster.function.eval(&vec![i128::MAX as u128, i128::MAX as u128 + 1, u128::MAX]),
        vec![i128::MAX, 0, 0]
    );
    let caster = Cast::<SymmetricDistance, Vec<bool>, Vec<u128>>::make().unwrap();
    assert_eq!(caster.function.eval(&vec![true, false]), vec![1, 0]);
    let caster = Cast::<SymmetricDistance, Vec<i128>, Vec<bool>>::make().unwrap();
    assert_eq!(caster.function.eval(&vec![-1, 0]), vec![true, false]);
    let caster = Cast::<SymmetricDistance, Vec<String>, Vec<u128>>::make().unwrap();
    assert_eq!(
        caster.function.eval(&text(&["340282366920938463463374607431768211455", "-1", "x"])),
        vec![u128::MAX, 0, 0]
    );
    let caster = Cast::<SymmetricDistance, Vec<String>, Vec<i128>>::make().unwrap();
    assert_eq!(
        caster.function.eval(&text(&["-170141183460469231731687303715884105728", "1e3"])),
        vec![i128::MIN, 0]
    );
    let caster = Cast::<SymmetricDistance, Vec<u128>, Vec<String>>::make().unwrap();
    assert_eq!(
        caster.function.eval(&vec![u128::MAX]),
        text(&["340282366920938463463374607431768211455"])
    );
    let caster = Cast::<SymmetricDistance, Vec<i128>, Vec<String>>::make().unwrap();
    assert_eq!(caster.function.eval(&vec![-5]), text(&["-5"]));
    let caster = Cast::<SymmetricDistance, Vec<u128>, Vec<u128>>::make().unwrap();
    assert_eq!(caster.function.eval(&vec![u128::MAX]), vec![u128::MAX]);
}

#[test]
fn numbers_read_from_text_keep_their_value() {
    assert_eq!(signed_from_parsed(Some(-3)).unwrap(), -3);
    assert_eq!(signed_from_parsed(None).err().unwrap().variant, ErrorVariant::FailedCast);
    assert_eq!(unsigned_from_parsed(Some(3)).unwrap(), 3);
    assert_eq!(unsigned_from_parsed(None).err().unwrap().variant, ErrorVariant::FailedCast);
}

#[test]
fn clamp_of_a_single_value_of_any_ordered_type() {
    let clamp = Clamp::<SymmetricDistance, String>::make("b".to_string(), "d".to_string()).unwrap();
    assert_eq!(clamp.function.eval(&"a".to_string()), "b");
    assert_eq!(clamp.function.eval(&"c".to_string()), "c");
    assert_eq!(clamp.function.eval(&"e".to_string()), "d");
    let clamp = Clamp::<SymmetricDistance, f64>::make(0.0, 1.0).unwrap();
    assert_eq!(clamp.function.eval(&-0.5), 0.0);
    assert_eq!(clamp.function.eval(&0.5), 0.5);
    assert_eq!(clamp.function.eval(&1.5), 1.0);
    let unclamp = Unclamp::<SymmetricDistance, f64>::make(Bound::Included(0.0), Bound::Excluded(1.0))
        .unwrap();
    assert_eq!(unclamp.function.eval(&0.25), 0.25);
    assert!(unclamp.input_domain.member(&0.0));
    assert!(!unclamp.input_domain.member(&1.0));
    let refused = Clamp::<SymmetricDistance, String>::make2("d".to_string(), "b".to_string());
    assert_eq!(refused.err().unwrap().variant, ErrorVariant::MakeTransformation);
}

fn signed(text: &str) -> Option<i128> {
    <i128 as CastFrom<String>>::cast(text.to_string()).ok()
}

fn unsigned(text: &str) -> Option<u128> {
    <u128 as CastFrom<String>>::cast(text.to_string()).ok()
}

#[test]
fn text_stands_for_a_number_in_decimal_notation_only() {
    assert_eq!(signed("0"), Some(0));
    assert_eq!(signed("+0"), Some(0));
    assert_eq!(signed("-0"), Some(0));
    assert_eq!(signed("42"), Some(42));
    assert_eq!(signed("+42"), Some(42));
    assert_eq!(signed("-42"), Some(-42));
    assert_eq!(signed("0000000000000000000000000000000000000000000000000007"), Some(7));
    assert_eq!(signed("-0000000000000000000000000000000000000000000000000007"), Some(-7));
    assert_eq!(signed("170141183460469231731687303715884105727"), Some(i128::MAX));
    assert_eq!(signed("+170141183460469231731687303715884105727"), Some(i128::MAX));
    assert_eq!(signed("170141183460469231731687303715884105728"), None);
    assert_eq!(signed("-170141183460469231731687303715884105728"), Some(i128::MIN));
    assert_eq!(signed("-170141183460469231731687303715884105729"), None);
    assert_eq!(signed("99999999999999999999999999999999999999999999"), None);
    for text in [
        "", "+", "-", "+-1", "-+1", "--1", "++1", "1-", "1+", "0x10", "1_000", " 1", "1 ", "1.0",
        "1e3", "\u{663}", "1\u{663}", "a", "-a", "\n1", "\u{ff11}",
    ] {
        assert_eq!(signed(text), None, "{:?}", text);
    }
    assert_eq!(unsigned("0"), Some(0));
    assert_eq!(unsigned("+0"), Some(0));
    assert_eq!(unsigned("+42"), Some(42));
    assert_eq!(unsigned("007"), Some(7));
    assert_eq!(unsigned("340282366920938463463374607431768211455"), Some(u128::MAX));
    assert_eq!(unsigned("340282366920938463463374607431768211456"), None);
    for text in ["", "+", "-", "-0", "-1", "+-1", "++1", "1_0", " 1", "1 ", "\u{663}", "a"] {
        assert_eq!(unsigned(text), None, "{:?}", text);
    }
    // Through a narrower type the number is read first, then narrowed.
    assert_eq!(<u8 as CastFrom<String>>::cast("-0".to_string()).unwrap(), 0);
    assert_eq!(<u8 as CastFrom<String>>::cast("+255".to_string()).unwrap(), 255);
    assert!(<u8 as CastFrom<String>>::cast("256".to_string()).is_err());
    assert!(<i8 as CastFrom<String>>::cast("-129".to_string()).is_err());
    assert_eq!(<i8 as CastFrom<String>>::cast("-128".to_string()).unwrap(), -128);
}
