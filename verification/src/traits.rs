//! Distances that are whole numbers, and casts between types of data.
//!
//! A relation built from a stability constant multiplies, divides and compares
//! distances of two metrics, whose types may differ. [`DistanceCast`] gives
//! every such type one reading, as a mathematical integer, and the means to
//! pass through a type wide enough for all of them. [`CastFrom`] says what a
//! value of one type becomes in another: among whole numbers, truth values and
//! text.

use vstd::prelude::*;
use vstd::string::to_string_from_display_ensures;
use std::fmt::Display;
use crate::error::{Error, ErrorVariant, Fallible};

verus! {

/// The least number that a distance type may represent.
pub open spec fn wide_min() -> int {
    -0x8000_0000_0000_0000
}

/// The greatest number that a distance type may represent.
pub open spec fn wide_max() -> int {
    0xffff_ffff_ffff_ffff
}

/// A type of distances that are whole numbers of at most 64 bits.
pub trait DistanceCast: Copy {
    /// The number that the distance stands for.
    spec fn value(&self) -> int;

    /// Whether the type has a distance that stands for `v`.
    spec fn representable(v: int) -> bool;

    /// The distance that stands for `v`, where the type has one.
    spec fn from_value(v: int) -> Self;

    /// What the type represents lies within the range of the wide type, and
    /// every distance stands for a number that the type represents.
    proof fn lemma_range(v: int)
        ensures
            Self::representable(v) ==> wide_min() <= v <= wide_max(),
            Self::representable(v) ==> Self::from_value(v).value() == v,
            forall|d: Self| #[trigger] Self::representable(d.value()),
            forall|d: Self| #[trigger] Self::from_value(d.value()) == d,
    ;

    /// The distance as a wide integer.
    fn to_wide(&self) -> (w: i128)
        ensures
            w == self.value(),
    ;

    /// The distance that stands for `w`, if the type has one.
    fn from_wide(w: i128) -> (r: Option<Self>)
        ensures
            r is Some <==> Self::representable(w as int),
            r matches Some(d) ==> d == Self::from_value(w as int),
    ;

    /// The distance that stands for one.
    fn one() -> (r: Self)
        ensures
            r.value() == 1,
    ;
}

/// The distance of type `Q` that stands for the same number as `n`, if there
/// is one.
pub fn distance_cast<T: DistanceCast, Q: DistanceCast>(n: &T) -> (r: Fallible<Q>)
    ensures
        r is Ok <==> Q::representable(n.value()),
        r matches Ok(d) ==> d == Q::from_value(n.value()) && d.value() == n.value(),
        r matches Err(e) ==> e.variant == ErrorVariant::FailedCast,
{
    proof {
        Q::lemma_range(n.value());
    }
    match Q::from_wide(n.to_wide()) {
        Some(d) => Ok(d),
        None => Err(Error::new(ErrorVariant::FailedCast, "distance out of range")),
    }
}

/// The multiplicative identity of `u8`.
///
/// Wraps `num::One::one` for `u8`, which returns the literal `1`.
#[verifier::external_body]
fn one_u8() -> (r: u8)
    ensures
        r == 1,
{
    num::One::one()
}

impl DistanceCast for u8 {
    open spec fn value(&self) -> int {
        *self as int
    }

    open spec fn representable(v: int) -> bool {
        u8::MIN <= v <= u8::MAX
    }

    open spec fn from_value(v: int) -> u8 {
        v as u8
    }

    proof fn lemma_range(v: int) {
    }

    fn to_wide(&self) -> (w: i128) {
        *self as i128
    }

    fn from_wide(w: i128) -> (r: Option<u8>) {
        if u8::MIN as i128 <= w && w <= u8::MAX as i128 {
            Some(w as u8)
        } else {
            None
        }
    }

    fn one() -> (r: u8) {
        one_u8()
    }
}

/// The multiplicative identity of `u16`.
///
/// Wraps `num::One::one` for `u16`, which returns the literal `1`.
#[verifier::external_body]
fn one_u16() -> (r: u16)
    ensures
        r == 1,
{
    num::One::one()
}

impl DistanceCast for u16 {
    open spec fn value(&self) -> int {
        *self as int
    }

    open spec fn representable(v: int) -> bool {
        u16::MIN <= v <= u16::MAX
    }

    open spec fn from_value(v: int) -> u16 {
        v as u16
    }

    proof fn lemma_range(v: int) {
    }

    fn to_wide(&self) -> (w: i128) {
        *self as i128
    }

    fn from_wide(w: i128) -> (r: Option<u16>) {
        if u16::MIN as i128 <= w && w <= u16::MAX as i128 {
            Some(w as u16)
        } else {
            None
        }
    }

    fn one() -> (r: u16) {
        one_u16()
    }
}

/// The multiplicative identity of `u32`.
///
/// Wraps `num::One::one` for `u32`, which returns the literal `1`.
#[verifier::external_body]
fn one_u32() -> (r: u32)
    ensures
        r == 1,
{
    num::One::one()
}

impl DistanceCast for u32 {
    open spec fn value(&self) -> int {
        *self as int
    }

    open spec fn representable(v: int) -> bool {
        u32::MIN <= v <= u32::MAX
    }

    open spec fn from_value(v: int) -> u32 {
        v as u32
    }

    proof fn lemma_range(v: int) {
    }

    fn to_wide(&self) -> (w: i128) {
        *self as i128
    }

    fn from_wide(w: i128) -> (r: Option<u32>) {
        if u32::MIN as i128 <= w && w <= u32::MAX as i128 {
            Some(w as u32)
        } else {
            None
        }
    }

    fn one() -> (r: u32) {
        one_u32()
    }
}

/// The multiplicative identity of `u64`.
///
/// Wraps `num::One::one` for `u64`, which returns the literal `1`.
#[verifier::external_body]
fn one_u64() -> (r: u64)
    ensures
        r == 1,
{
    num::One::one()
}

impl DistanceCast for u64 {
    open spec fn value(&self) -> int {
        *self as int
    }

    open spec fn representable(v: int) -> bool {
        u64::MIN <= v <= u64::MAX
    }

    open spec fn from_value(v: int) -> u64 {
        v as u64
    }

    proof fn lemma_range(v: int) {
    }

    fn to_wide(&self) -> (w: i128) {
        *self as i128
    }

    fn from_wide(w: i128) -> (r: Option<u64>) {
        if u64::MIN as i128 <= w && w <= u64::MAX as i128 {
            Some(w as u64)
        } else {
            None
        }
    }

    fn one() -> (r: u64) {
        one_u64()
    }
}

/// The multiplicative identity of `usize`.
///
/// Wraps `num::One::one` for `usize`, which returns the literal `1`.
#[verifier::external_body]
fn one_usize() -> (r: usize)
    ensures
        r == 1,
{
    num::One::one()
}

impl DistanceCast for usize {
    open spec fn value(&self) -> int {
        *self as int
    }

    open spec fn representable(v: int) -> bool {
        usize::MIN <= v <= usize::MAX
    }

    open spec fn from_value(v: int) -> usize {
        v as usize
    }

    proof fn lemma_range(v: int) {
    }

    fn to_wide(&self) -> (w: i128) {
        *self as i128
    }

    fn from_wide(w: i128) -> (r: Option<usize>) {
        if usize::MIN as i128 <= w && w <= usize::MAX as i128 {
            Some(w as usize)
        } else {
            None
        }
    }

    fn one() -> (r: usize) {
        one_usize()
    }
}

/// The multiplicative identity of `i8`.
///
/// Wraps `num::One::one` for `i8`, which returns the literal `1`.
#[verifier::external_body]
fn one_i8() -> (r: i8)
    ensures
        r == 1,
{
    num::One::one()
}

impl DistanceCast for i8 {
    open spec fn value(&self) -> int {
        *self as int
    }

    open spec fn representable(v: int) -> bool {
        i8::MIN <= v <= i8::MAX
    }

    open spec fn from_value(v: int) -> i8 {
        v as i8
    }

    proof fn lemma_range(v: int) {
    }

    fn to_wide(&self) -> (w: i128) {
        *self as i128
    }

    fn from_wide(w: i128) -> (r: Option<i8>) {
        if i8::MIN as i128 <= w && w <= i8::MAX as i128 {
            Some(w as i8)
        } else {
            None
        }
    }

    fn one() -> (r: i8) {
        one_i8()
    }
}

/// The multiplicative identity of `i16`.
///
/// Wraps `num::One::one` for `i16`, which returns the literal `1`.
#[verifier::external_body]
fn one_i16() -> (r: i16)
    ensures
        r == 1,
{
    num::One::one()
}

impl DistanceCast for i16 {
    open spec fn value(&self) -> int {
        *self as int
    }

    open spec fn representable(v: int) -> bool {
        i16::MIN <= v <= i16::MAX
    }

    open spec fn from_value(v: int) -> i16 {
        v as i16
    }

    proof fn lemma_range(v: int) {
    }

    fn to_wide(&self) -> (w: i128) {
        *self as i128
    }

    fn from_wide(w: i128) -> (r: Option<i16>) {
        if i16::MIN as i128 <= w && w <= i16::MAX as i128 {
            Some(w as i16)
        } else {
            None
        }
    }

    fn one() -> (r: i16) {
        one_i16()
    }
}

/// The multiplicative identity of `i32`.
///
/// Wraps `num::One::one` for `i32`, which returns the literal `1`.
#[verifier::external_body]
fn one_i32() -> (r: i32)
    ensures
        r == 1,
{
    num::One::one()
}

impl DistanceCast for i32 {
    open spec fn value(&self) -> int {
        *self as int
    }

    open spec fn representable(v: int) -> bool {
        i32::MIN <= v <= i32::MAX
    }

    open spec fn from_value(v: int) -> i32 {
        v as i32
    }

    proof fn lemma_range(v: int) {
    }

    fn to_wide(&self) -> (w: i128) {
        *self as i128
    }

    fn from_wide(w: i128) -> (r: Option<i32>) {
        if i32::MIN as i128 <= w && w <= i32::MAX as i128 {
            Some(w as i32)
        } else {
            None
        }
    }

    fn one() -> (r: i32) {
        one_i32()
    }
}

/// The multiplicative identity of `i64`.
///
/// Wraps `num::One::one` for `i64`, which returns the literal `1`.
#[verifier::external_body]
fn one_i64() -> (r: i64)
    ensures
        r == 1,
{
    num::One::one()
}

impl DistanceCast for i64 {
    open spec fn value(&self) -> int {
        *self as int
    }

    open spec fn representable(v: int) -> bool {
        i64::MIN <= v <= i64::MAX
    }

    open spec fn from_value(v: int) -> i64 {
        v as i64
    }

    proof fn lemma_range(v: int) {
    }

    fn to_wide(&self) -> (w: i128) {
        *self as i128
    }

    fn from_wide(w: i128) -> (r: Option<i64>) {
        if i64::MIN as i128 <= w && w <= i64::MAX as i128 {
            Some(w as i64)
        } else {
            None
        }
    }

    fn one() -> (r: i64) {
        one_i64()
    }
}

/// The multiplicative identity of `isize`.
///
/// Wraps `num::One::one` for `isize`, which returns the literal `1`.
#[verifier::external_body]
fn one_isize() -> (r: isize)
    ensures
        r == 1,
{
    num::One::one()
}

impl DistanceCast for isize {
    open spec fn value(&self) -> int {
        *self as int
    }

    open spec fn representable(v: int) -> bool {
        isize::MIN <= v <= isize::MAX
    }

    open spec fn from_value(v: int) -> isize {
        v as isize
    }

    proof fn lemma_range(v: int) {
    }

    fn to_wide(&self) -> (w: i128) {
        *self as i128
    }

    fn from_wide(w: i128) -> (r: Option<isize>) {
        if isize::MIN as i128 <= w && w <= isize::MAX as i128 {
            Some(w as isize)
        } else {
            None
        }
    }

    fn one() -> (r: isize) {
        one_isize()
    }
}

/// A type whose values can be made from values of type `TI`, where the value
/// has a counterpart.
pub trait CastFrom<TI>: Sized {
    /// Whether casting `v` may end in `out`: `Some` of its counterpart in this
    /// type, or `None` where it has none.
    spec fn casts(v: TI, out: Option<Self>) -> bool;

    /// The counterpart of `v` in this type, or an error where it has none.
    fn cast(v: TI) -> (r: Fallible<Self>)
        ensures
            Self::casts(
                v,
                match r {
                    Ok(x) => Some(x),
                    Err(_) => None,
                },
            ),
            r matches Err(e) ==> e.variant == ErrorVariant::FailedCast,
    ;
}

/// The distance of type `TO` that stands for `number`, if there is one.
pub open spec fn number_as<TO: DistanceCast>(number: int) -> Option<TO> {
    if TO::representable(number) {
        Some(TO::from_value(number))
    } else {
        None
    }
}

fn failed_cast() -> (e: Error)
    ensures
        e.variant == ErrorVariant::FailedCast,
        e.message@ == "value has no counterpart in the requested type"@,
{
    Error::new(ErrorVariant::FailedCast, "value has no counterpart in the requested type")
}

/// Between whole numbers the counterpart is the same number, where the target
/// type represents it.
impl<TI: DistanceCast, TO: DistanceCast> CastFrom<TI> for TO {
    open spec fn casts(v: TI, out: Option<TO>) -> bool {
        out == number_as::<TO>(v.value())
    }

    fn cast(v: TI) -> (r: Fallible<TO>) {
        distance_cast(&v)
    }
}

/// The counterpart of `true` is one, that of `false` is zero.
impl<TO: DistanceCast> CastFrom<bool> for TO {
    open spec fn casts(v: bool, out: Option<TO>) -> bool {
        out == number_as::<TO>(
            if v {
                1
            } else {
                0
            },
        )
    }

    fn cast(v: bool) -> (r: Fallible<TO>) {
        let number: i128 = if v {
            1
        } else {
            0
        };
        match TO::from_wide(number) {
            Some(d) => Ok(d),
            None => Err(failed_cast()),
        }
    }
}

/// The counterpart of a number is whether it differs from zero.
impl<TI: DistanceCast> CastFrom<TI> for bool {
    open spec fn casts(v: TI, out: Option<bool>) -> bool {
        out == Some(v.value() != 0)
    }

    fn cast(v: TI) -> (r: Fallible<bool>) {
        Ok(v.to_wide() != 0)
    }
}

impl CastFrom<bool> for bool {
    open spec fn casts(v: bool, out: Option<bool>) -> bool {
        out == Some(v)
    }

    fn cast(v: bool) -> (r: Fallible<bool>) {
        Ok(v)
    }
}

/// The digit that a character shows in decimal notation, if it shows one.
pub open spec fn digit_of(c: char) -> Option<int> {
    if '0' as int <= c as int <= '9' as int {
        Some(c as int - '0' as int)
    } else {
        None
    }
}

/// The number that a run of decimal digits stands for. An empty run, and a
/// run that holds any other character, stand for none.
pub open spec fn digits_value(digits: Seq<char>) -> Option<int>
    decreases digits.len(),
{
    if digits.len() == 0 {
        None
    } else {
        match digit_of(digits.last()) {
            None => None,
            Some(digit) => if digits.len() == 1 {
                Some(digit)
            } else {
                match digits_value(digits.drop_last()) {
                    Some(front) => Some(10 * front + digit),
                    None => None,
                }
            },
        }
    }
}

/// The whole number that a text stands for in decimal notation: a run of
/// digits, with an optional `+` or `-` in front.
pub open spec fn signed_decimal(text: Seq<char>) -> Option<int> {
    if text.len() > 0 && text[0] == '-' {
        match digits_value(text.subrange(1, text.len() as int)) {
            Some(value) => Some(-value),
            None => None,
        }
    } else if text.len() > 0 && text[0] == '+' {
        digits_value(text.subrange(1, text.len() as int))
    } else {
        digits_value(text)
    }
}

/// The whole number that a text stands for in decimal notation without a
/// minus sign: a run of digits, with an optional `+` in front.
pub open spec fn unsigned_decimal(text: Seq<char>) -> Option<int> {
    if text.len() > 0 && text[0] == '+' {
        digits_value(text.subrange(1, text.len() as int))
    } else {
        digits_value(text)
    }
}

/// The whole number that a text stands for in decimal notation, with an
/// optional sign in front, where the text is such a notation and the number
/// fits in 128 bits.
pub open spec fn parsed_integer(text: Seq<char>) -> Option<int> {
    match signed_decimal(text) {
        Some(value) => if i128::MIN <= value <= i128::MAX {
            Some(value)
        } else {
            None
        },
        None => None,
    }
}

/// Reads a whole number from its decimal notation.
///
/// Wraps `str::parse::<i128>`. Its documentation expects an optional `+` or
/// `-` followed by digits only, and has any other text, and a number that the
/// type cannot hold, be an error: the contract says so.
#[verifier::external_body]
fn parse_wide(text: &str) -> (r: Option<i128>)
    ensures
        parsed_integer(text@) == match r {
            Some(w) => Some(w as int),
            None => None,
        },
{
    text.parse::<i128>().ok()
}

/// The distance of type `TO` that stands for a number read from a text, if a
/// number was read and the type represents it.
pub open spec fn parsed_as<TO: DistanceCast>(parsed: Option<int>) -> Option<TO> {
    match parsed {
        Some(number) => number_as::<TO>(number),
        None => None,
    }
}

/// The distance of type `TO` that stands for the number `parsed`, or an error
/// where no number was read or the type does not represent it.
pub fn narrow_parsed<TO: DistanceCast>(parsed: Option<i128>) -> (r: Fallible<TO>)
    ensures
        parsed_as::<TO>(
            match parsed {
                Some(w) => Some(w as int),
                None => None,
            },
        ) == match r {
            Ok(d) => Some(d),
            Err(_) => None,
        },
        r matches Err(e) ==> e.variant == ErrorVariant::FailedCast,
{
    match parsed {
        Some(w) => match TO::from_wide(w) {
            Some(d) => Ok(d),
            None => Err(failed_cast()),
        },
        None => Err(failed_cast()),
    }
}

/// The counterpart of a text is the whole number that it stands for, where it
/// stands for one that the target type represents.
impl<TO: DistanceCast> CastFrom<String> for TO {
    open spec fn casts(v: String, out: Option<TO>) -> bool {
        out == parsed_as::<TO>(parsed_integer(v@))
    }

    fn cast(v: String) -> (r: Fallible<TO>) {
        narrow_parsed(parse_wide(v.as_str()))
    }
}

/// The counterpart of a whole number is the text that displays it.
impl<TI: DistanceCast + Display> CastFrom<TI> for String {
    open spec fn casts(v: TI, out: Option<String>) -> bool {
        out matches Some(text) && to_string_from_display_ensures::<TI>(&v, text)
    }

    fn cast(v: TI) -> (r: Fallible<String>) {
        Ok(v.to_string())
    }
}

/// The counterpart of `true` is the text `true`, that of `false` is `false`.
impl CastFrom<bool> for String {
    open spec fn casts(v: bool, out: Option<String>) -> bool {
        out matches Some(text) && text@ == (if v {
            "true"@
        } else {
            "false"@
        })
    }

    fn cast(v: bool) -> (r: Fallible<String>) {
        if v {
            Ok("true".to_owned())
        } else {
            Ok("false".to_owned())
        }
    }
}

/// The counterpart of the text `true` is `true`, that of `false` is `false`,
/// and no other text has one.
impl CastFrom<String> for bool {
    open spec fn casts(v: String, out: Option<bool>) -> bool {
        out == (if v@ == "true"@ {
            Some(true)
        } else if v@ == "false"@ {
            Some(false)
        } else {
            None
        })
    }

    fn cast(v: String) -> (r: Fallible<bool>) {
        let yes = "true".to_owned();
        let no = "false".to_owned();
        if v == yes {
            Ok(true)
        } else if v == no {
            Ok(false)
        } else {
            Err(failed_cast())
        }
    }
}

impl CastFrom<String> for String {
    open spec fn casts(v: String, out: Option<String>) -> bool {
        out == Some(v)
    }

    fn cast(v: String) -> (r: Fallible<String>) {
        Ok(v)
    }
}

/// The whole number that a text stands for in decimal notation, with an
/// optional plus sign in front, where the text is such a notation and the
/// number fits in 128 bits without a sign.
pub open spec fn parsed_unsigned_integer(text: Seq<char>) -> Option<int> {
    match unsigned_decimal(text) {
        Some(value) => if value <= u128::MAX {
            Some(value)
        } else {
            None
        },
        None => None,
    }
}

/// Reads a whole number that is not negative from its decimal notation.
///
/// Wraps `str::parse::<u128>`. Its documentation expects an optional `+`
/// followed by digits only, and has any other text, and a number that the
/// type cannot hold, be an error: the contract says so.
#[verifier::external_body]
fn parse_wide_unsigned(text: &str) -> (r: Option<u128>)
    ensures
        parsed_unsigned_integer(text@) == match r {
            Some(w) => Some(w as int),
            None => None,
        },
{
    text.parse::<u128>().ok()
}

/// A number read from a text as a value of `i128`, or an error where none was
/// read.
pub fn signed_from_parsed(parsed: Option<i128>) -> (r: Fallible<i128>)
    ensures
        parsed == match r {
            Ok(w) => Some(w),
            Err(_) => None,
        },
        r matches Err(e) ==> e.variant == ErrorVariant::FailedCast,
{
    match parsed {
        Some(w) => Ok(w),
        None => Err(failed_cast()),
    }
}

/// A number read from a text as a value of `u128`, or an error where none was
/// read.
pub fn unsigned_from_parsed(parsed: Option<u128>) -> (r: Fallible<u128>)
    ensures
        parsed == match r {
            Ok(w) => Some(w),
            Err(_) => None,
        },
        r matches Err(e) ==> e.variant == ErrorVariant::FailedCast,
{
    match parsed {
        Some(w) => Ok(w),
        None => Err(failed_cast()),
    }
}

/// Every whole number of at most 64 bits has a counterpart in `i128`.
impl<TI: DistanceCast> CastFrom<TI> for i128 {
    open spec fn casts(v: TI, out: Option<i128>) -> bool {
        out == Some(v.value() as i128)
    }

    fn cast(v: TI) -> (r: Fallible<i128>) {
        Ok(v.to_wide())
    }
}

/// The counterpart of a number of `i128` is the same number, where the target
/// type represents it.
impl<TO: DistanceCast> CastFrom<i128> for TO {
    open spec fn casts(v: i128, out: Option<TO>) -> bool {
        out == number_as::<TO>(v as int)
    }

    fn cast(v: i128) -> (r: Fallible<TO>) {
        match TO::from_wide(v) {
            Some(d) => Ok(d),
            None => Err(failed_cast()),
        }
    }
}

impl CastFrom<i128> for i128 {
    open spec fn casts(v: i128, out: Option<i128>) -> bool {
        out == Some(v)
    }

    fn cast(v: i128) -> (r: Fallible<i128>) {
        Ok(v)
    }
}

impl CastFrom<bool> for i128 {
    open spec fn casts(v: bool, out: Option<i128>) -> bool {
        out == Some(
            if v {
                1i128
            } else {
                0i128
            },
        )
    }

    fn cast(v: bool) -> (r: Fallible<i128>) {
        if v {
            Ok(1)
        } else {
            Ok(0)
        }
    }
}

impl CastFrom<i128> for bool {
    open spec fn casts(v: i128, out: Option<bool>) -> bool {
        out == Some(v != 0)
    }

    fn cast(v: i128) -> (r: Fallible<bool>) {
        Ok(v != 0)
    }
}

/// The counterpart of a text in `i128` is the whole number that it stands for.
impl CastFrom<String> for i128 {
    open spec fn casts(v: String, out: Option<i128>) -> bool {
        match out {
            Some(w) => parsed_integer(v@) == Some(w as int),
            None => parsed_integer(v@) is None,
        }
    }

    fn cast(v: String) -> (r: Fallible<i128>) {
        signed_from_parsed(parse_wide(v.as_str()))
    }
}

impl CastFrom<i128> for String {
    open spec fn casts(v: i128, out: Option<String>) -> bool {
        out matches Some(text) && to_string_from_display_ensures::<i128>(&v, text)
    }

    fn cast(v: i128) -> (r: Fallible<String>) {
        Ok(v.to_string())
    }
}

/// The counterpart in `u128` of a whole number of at most 64 bits is the same
/// number, where it is not negative.
impl<TI: DistanceCast> CastFrom<TI> for u128 {
    open spec fn casts(v: TI, out: Option<u128>) -> bool {
        out == (if v.value() >= 0 {
            Some(v.value() as u128)
        } else {
            None
        })
    }

    fn cast(v: TI) -> (r: Fallible<u128>) {
        let w: i128 = v.to_wide();
        if w >= 0 {
            Ok(w as u128)
        } else {
            Err(failed_cast())
        }
    }
}

/// The counterpart of a number of `u128` is the same number, where the target
/// type represents it.
impl<TO: DistanceCast> CastFrom<u128> for TO {
    open spec fn casts(v: u128, out: Option<TO>) -> bool {
        out == number_as::<TO>(v as int)
    }

    fn cast(v: u128) -> (r: Fallible<TO>) {
        proof {
            TO::lemma_range(v as int);
        }
        if v <= 0xffff_ffff_ffff_ffff {
            match TO::from_wide(v as i128) {
                Some(d) => Ok(d),
                None => Err(failed_cast()),
            }
        } else {
            Err(failed_cast())
        }
    }
}

impl CastFrom<u128> for u128 {
    open spec fn casts(v: u128, out: Option<u128>) -> bool {
        out == Some(v)
    }

    fn cast(v: u128) -> (r: Fallible<u128>) {
        Ok(v)
    }
}

impl CastFrom<bool> for u128 {
    open spec fn casts(v: bool, out: Option<u128>) -> bool {
        out == Some(
            if v {
                1u128
            } else {
                0u128
            },
        )
    }

    fn cast(v: bool) -> (r: Fallible<u128>) {
        if v {
            Ok(1)
        } else {
            Ok(0)
        }
    }
}

impl CastFrom<u128> for bool {
    open spec fn casts(v: u128, out: Option<bool>) -> bool {
        out == Some(v != 0)
    }

    fn cast(v: u128) -> (r: Fallible<bool>) {
        Ok(v != 0)
    }
}

/// The counterpart of a text in `u128` is the whole number that it stands
/// for, where that number is not negative.
impl CastFrom<String> for u128 {
    open spec fn casts(v: String, out: Option<u128>) -> bool {
        match out {
            Some(w) => parsed_unsigned_integer(v@) == Some(w as int),
            None => parsed_unsigned_integer(v@) is None,
        }
    }

    fn cast(v: String) -> (r: Fallible<u128>) {
        unsigned_from_parsed(parse_wide_unsigned(v.as_str()))
    }
}

impl CastFrom<u128> for String {
    open spec fn casts(v: u128, out: Option<String>) -> bool {
        out matches Some(text) && to_string_from_display_ensures::<u128>(&v, text)
    }

    fn cast(v: u128) -> (r: Fallible<String>) {
        Ok(v.to_string())
    }
}

/// The counterpart in `u128` of a number of `i128` is the same number, where
/// it is not negative.
impl CastFrom<i128> for u128 {
    open spec fn casts(v: i128, out: Option<u128>) -> bool {
        out == (if v >= 0 {
            Some(v as u128)
        } else {
            None
        })
    }

    fn cast(v: i128) -> (r: Fallible<u128>) {
        if v >= 0 {
            Ok(v as u128)
        } else {
            Err(failed_cast())
        }
    }
}

/// The counterpart in `i128` of a number of `u128` is the same number, where
/// `i128` represents it.
impl CastFrom<u128> for i128 {
    open spec fn casts(v: u128, out: Option<i128>) -> bool {
        out == (if v <= i128::MAX {
            Some(v as i128)
        } else {
            None
        })
    }

    fn cast(v: u128) -> (r: Fallible<i128>) {
        if v <= 0x7fff_ffff_ffff_ffff_ffff_ffff_ffff_ffff {
            Ok(v as i128)
        } else {
            Err(failed_cast())
        }
    }
}

} // verus!
