//! `cxxabi.h`: registration of destructors to run at exit.

use vstd::prelude::*;

verus! {

/// `__cxa_atexit`: destructors are not run at exit, so nothing is
/// registered; the registration is reported as successful.
pub fn __cxa_atexit() -> (r: i32)
    ensures
        r == 0,
{
    0
}

} // verus!
