//! Ably error codes of delta compression.

use vstd::prelude::*;

verus! {

/// Vcdiff delta decode failed.
pub const VCDIFF_DECODE_FAILED: u16 = 40018;

/// Missing Vcdiff decoder plugin.
pub const MISSING_VCDIFF_DECODER: u16 = 40019;

/// The environment does not support deltas (binary payloads required).
pub const DELTA_NOT_SUPPORTED: u16 = 40020;

/// The browser does not support deltas.
pub const BROWSER_DELTA_NOT_SUPPORTED: u16 = 40021;

} // verus!
