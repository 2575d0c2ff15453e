//! Channel flags carried by ATTACH and ATTACHED messages.

use vstd::prelude::*;

verus! {

pub const PRESENCE: u32 = 1;
pub const PUBLISH: u32 = 2;
pub const SUBSCRIBE: u32 = 4;
pub const PRESENCE_SUBSCRIBE: u32 = 8;
pub const HAS_PRESENCE: u32 = 65536;
pub const HAS_BACKLOG: u32 = 131072;
pub const RESUMED: u32 = 262144;
pub const TRANSIENT: u32 = 524288;
pub const ATTACH_RESUME: u32 = 1048576;

} // verus!
