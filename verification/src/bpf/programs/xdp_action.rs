//! XDP action codes.
use vstd::prelude::*;

verus! {

/// Drop packet
pub const XDP_ABORTED: u32 = 0;
/// Drop packet silently
pub const XDP_DROP: u32 = 1;
/// Pass to network stack
pub const XDP_PASS: u32 = 2;
/// Transmit on same interface
pub const XDP_TX: u32 = 3;
/// Redirect to another interface
pub const XDP_REDIRECT: u32 = 4;

} // verus!
