use vstd::prelude::*;

verus! {

/// The divider faults exactly when a divisor byte is present and zero: the
/// unchecked quotient `byte 0 / byte 1` would then divide by zero.
pub open spec fn divide_faults(s: Seq<u8>) -> bool {
    s.len() >= 2 && s[1] == 0
}

/// Interpret byte 0 as dividend and byte 1 as divisor, both widened to
/// `i32`, and return their truncating quotient. Inputs shorter than two
/// bytes carry no divisor and yield `None` without faulting.
pub fn divide_numbers(data: &[u8]) -> (result: Option<i32>)
    requires
        !divide_faults(data@),
    ensures
        data@.len() < 2 ==> result is None,
        data@.len() >= 2 ==> result == Some(((data@[0] as int) / (data@[1] as int)) as i32),
{
    if data.len() < 2 {
        return None;
    }

    let a = data[0] as i32;
    let b = data[1] as i32;

    Some(a / b)
}

} // verus!
