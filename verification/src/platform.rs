//! Platform facts: this build of the library targets native code.

use vstd::prelude::*;
use crate::limits::LimitTier;

verus! {

/// Whether the library runs as WebAssembly; this build is native.
pub const IS_WASM: bool = false;

/// Platform name for logging and debugging.
pub const PLATFORM: &'static str = "native";

/// The limits tier that suits the platform: the backend tier on native code.
pub fn default_limits_tier() -> (t: LimitTier)
    ensures
        t == LimitTier::Backend,
{
    LimitTier::Backend
}

} // verus!
