//! Configuration constants consumed by the sequencing core.

use vstd::prelude::*;

verus! {

/// Maximum number of packet sequence numbers that may be outstanding
/// (allocated but not yet cumulatively acknowledged) on one connection.
/// Every window comparison of packet sequence numbers is made relative to
/// this width; two live PSNs are never more than this far apart.
pub const MAX_PSN_WINDOW: u32 = 64;

/// Width of the staleness window for 16-bit message sequence numbers:
/// an MSN no more than this far ahead of the base is taken as fresh.
pub const MAX_MSN_WINDOW: u16 = 0x7fff;

/// Width in bits of a selective-acknowledgment bitmap, both on the wire
/// and inside the packet sequence tracker.
pub const BITMAP_WIDTH: usize = 128;

/// Queue-pair type code of a reliable connection in the verbs API
/// (`IBV_QPT_RC`).
pub const QP_TYPE_RC: u8 = 2;

/// Verbs send flag that requests a solicited event at the peer
/// (`IBV_SEND_SOLICITED`).
pub const SEND_FLAG_SOLICITED: u32 = 4;

} // verus!
