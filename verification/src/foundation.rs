//! The scalar conventions of the native runtime.

use vstd::prelude::*;

verus! {

/// The native runtime's boolean.
pub type BOOL = i8;

/// The native runtime's unsigned machine word.
pub type NSUInteger = usize;

/// The native "true".
pub const YES: BOOL = 1;

/// The native "false".
pub const NO: BOOL = 0;

/// The address that stands for "no object".
pub const NIL: usize = 0;

/// The native boolean that stands for `accepted`.
pub open spec fn native_bool(accepted: bool) -> BOOL {
    if accepted {
        YES
    } else {
        NO
    }
}

/// Converts a `bool` to the native boolean.
pub fn to_native_bool(accepted: bool) -> (flag: BOOL)
    ensures
        flag == native_bool(accepted),
{
    if accepted {
        YES
    } else {
        NO
    }
}

} // verus!
