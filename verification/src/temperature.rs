//! Whole-degree temperature conversion.

use crate::numeral::{chars_of, read_i32, trim, trimmed, written_i32};
use vstd::prelude::*;

verus! {

/// The temperature taken where the input names none.
pub const DEFAULT_CELSIUS: i32 = 0;

/// The quotient of `a` by a positive `b`, rounded toward zero as machine
/// division rounds it.
pub open spec fn quotient_toward_zero(a: int, b: int) -> int
    recommends
        b > 0,
{
    if a >= 0 {
        a / b
    } else {
        -((-a) / b)
    }
}

/// Degrees Fahrenheit for whole degrees Celsius: nine fifths of them,
/// rounded toward zero, and 32 more.
pub open spec fn fahrenheit_of(celsius: int) -> int {
    quotient_toward_zero(celsius * 9, 5) + 32
}

/// Converts whole degrees Celsius to whole degrees Fahrenheit.
pub fn convert_to_fahrenheit(temp: i32) -> (r: i32)
    requires
        i32::MIN <= temp * 9 <= i32::MAX,
    ensures
        r == fahrenheit_of(temp as int),
{
    (temp * 9 / 5) + 32
}

/// Converts whole degrees Celsius to whole degrees Fahrenheit where the
/// machine can hold nine times the temperature, and gives nothing where it
/// cannot.
pub fn try_convert_to_fahrenheit(temp: i32) -> (r: Option<i32>)
    ensures
        i32::MIN <= temp * 9 <= i32::MAX ==> r == Some(fahrenheit_of(temp as int) as i32),
        !(i32::MIN <= temp * 9 <= i32::MAX) ==> r is None,
{
    let ninefold: i64 = temp as i64 * 9;
    if i32::MIN as i64 <= ninefold && ninefold <= i32::MAX as i64 {
        Some(convert_to_fahrenheit(temp))
    } else {
        None
    }
}

/// The temperature that a line of input names: the number it writes once
/// the white space around it is set aside, and none where that is no `i32`.
pub fn read_celsius(line: &str) -> (temp: Option<i32>)
    ensures
        temp == written_i32(trimmed(line@)),
{
    let chars = chars_of(line);
    read_i32(trim(chars.as_slice()))
}

/// The temperature to go on with after reading a line: what the line
/// names, or `DEFAULT_CELSIUS` where it names none.
pub fn celsius_or_default(reading: Option<i32>) -> (temp: i32)
    ensures
        temp == (match reading {
            Some(t) => t,
            None => DEFAULT_CELSIUS,
        }),
{
    match reading {
        Some(t) => t,
        None => DEFAULT_CELSIUS,
    }
}

} // verus!
