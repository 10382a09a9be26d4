//! Words for the report of the kernel's self-tests.

use vstd::prelude::*;

verus! {

/// What `count` of them are called: one is a test, any other number are
/// tests.
pub fn noun(count: usize) -> (noun: &'static str)
    ensures
        noun@ == if count == 1 {
            "test"@
        } else {
            "tests"@
        },
{
    if count == 1 {
        "test"
    } else {
        "tests"
    }
}

} // verus!
