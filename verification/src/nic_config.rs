//! Configuration of the simple NIC device.
//!
//! The network assignment is held as plain values — address bytes and a
//! prefix length — so its validity is checkable here; the device layer
//! converts it to its network types when it creates the tunnel.

use vstd::prelude::*;

verus! {

/// An IP network given to the NIC: an address and a prefix length.
#[derive(Clone, Copy, Debug, PartialEq, Eq, Structural)]
pub enum IpNetworkCfg {
    V4 { addr: u32, prefix: u8 },
    V6 { addr: u128, prefix: u8 },
}

/// The prefix length fits the address family.
pub open spec fn network_valid(n: IpNetworkCfg) -> bool {
    match n {
        IpNetworkCfg::V4 { addr, prefix } => prefix <= 32,
        IpNetworkCfg::V6 { addr, prefix } => prefix <= 128,
    }
}

/// Configuration for the simple NIC device.
#[derive(Clone, Copy, Debug, PartialEq, Eq, Structural)]
pub struct SimpleNicDeviceConfig {
    /// IP network assigned to the NIC.
    pub network: IpNetworkCfg,
}

impl SimpleNicDeviceConfig {
    /// Creates a new `SimpleNicDeviceConfig` from a valid network
    /// assignment.
    pub fn new(network: IpNetworkCfg) -> (r: Self)
        requires
            network_valid(network),
        ensures
            r == (SimpleNicDeviceConfig { network }),
            network_valid(r.network),
    {
        SimpleNicDeviceConfig { network }
    }
}

} // verus!
