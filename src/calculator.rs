//! Bitwise operations on two integers.
use vstd::prelude::*;

verus! {

/// Whether `operation` names one of the three bitwise operations.
pub open spec fn is_operation(operation: char) -> bool {
    operation == '&' || operation == '|' || operation == '^'
}

/// Apply the bitwise operation `operation` (`&`, `|` or `^`) to the two numbers.
pub fn do_operation(first_number: i32, second_number: i32, operation: char) -> (r: i32)
    requires
        is_operation(operation),
    ensures
        operation == '&' ==> r == first_number & second_number,
        operation == '|' ==> r == first_number | second_number,
        operation == '^' ==> r == first_number ^ second_number,
{
    if operation == '&' {
        first_number & second_number
    } else if operation == '|' {
        first_number | second_number
    } else {
        first_number ^ second_number
    }
}

} // verus!
