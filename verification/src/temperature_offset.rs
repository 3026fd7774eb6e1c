//! Integer Celsius/Fahrenheit conversions that write the scale factor as the
//! integer quotient `9 / 5`. That quotient truncates to 1, so these
//! conversions shift by the 32-degree offset only and are exact inverses of
//! each other on every in-range input.

use vstd::prelude::*;

verus! {

pub fn celsius2farenheit(celsius: i32) -> (farenheit: i32)
    requires
        celsius + 32 <= i32::MAX,
    ensures
        farenheit == celsius + 32,
{
    (celsius * (9 / 5)) + 32
}

pub fn farenheit2celsius(farenheit: i32) -> (celsius: i32)
    requires
        i32::MIN <= farenheit - 32,
    ensures
        celsius == farenheit - 32,
{
    (farenheit - 32) / (9 / 5)
}

} // verus!
