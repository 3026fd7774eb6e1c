//! Integer Celsius/Fahrenheit conversions that scale by the ratio 9/5 before
//! shifting by the 32-degree offset. Division truncates toward zero, as it
//! does for Rust's `/` on signed integers.

use vstd::prelude::*;

verus! {

/// Integer division truncating toward zero, for a positive divisor.
pub open spec fn trunc_div(a: int, b: int) -> int {
    if a >= 0 {
        a / b
    } else {
        -((-a) / b)
    }
}

pub fn celsius2farenheit(celsius: i32) -> (farenheit: i32)
    requires
        i32::MIN <= celsius * 9 <= i32::MAX,
    ensures
        farenheit == trunc_div(celsius * 9, 5) + 32,
{
    ((celsius * 9) / 5) + 32
}

pub fn farenheit2celsius(farenheit: i32) -> (celsius: i32)
    requires
        i32::MIN <= 5 * (farenheit - 32) <= i32::MAX,
    ensures
        celsius == trunc_div(5 * (farenheit - 32), 9),
{
    (5 * (farenheit - 32)) / 9
}

} // verus!
