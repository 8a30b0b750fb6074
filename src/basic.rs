//! Small exported helpers: integer addition and the load notification.

use vstd::prelude::*;

verus! {

/// The reason code with which the host announces that the library was loaded.
pub const DLL_PROCESS_ATTACH: u32 = 1;

/// The reason code with which the host announces that the library is unloaded.
pub const DLL_PROCESS_DETACH: u32 = 0;

/// Adds two integers whose sum fits in an `i32`.
pub fn add(a: i32, b: i32) -> (r: i32)
    requires
        i32::MIN <= a + b <= i32::MAX,
    ensures
        r == a + b,
{
    a + b
}

/// Whether the load hook prints its notice for this reason code: only on load.
pub fn announces_load(call_reason: u32) -> (r: bool)
    ensures
        r == (call_reason == DLL_PROCESS_ATTACH),
{
    call_reason == DLL_PROCESS_ATTACH
}

} // verus!
