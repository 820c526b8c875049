use vstd::prelude::*;

verus! {

/// An IPv4 address, octets in network order.
#[derive(Debug, Clone, Copy, PartialEq, Eq, Structural, Hash)]
pub struct Ipv4Addr(pub u8, pub u8, pub u8, pub u8);

/// An IPv6 address as its 128-bit value in network order.
#[derive(Debug, Clone, Copy, PartialEq, Eq, Structural, Hash)]
pub struct Ipv6Addr(pub u128);

/// An IP address of either family.
#[derive(Debug, Clone, Copy, PartialEq, Eq, Structural, Hash)]
pub enum IpAddr {
    V4(Ipv4Addr),
    V6(Ipv6Addr),
}

impl Ipv4Addr {
    pub open spec fn octet_seq(self) -> Seq<u8> {
        seq![self.0, self.1, self.2, self.3]
    }

    pub fn new(a: u8, b: u8, c: u8, d: u8) -> (r: Ipv4Addr)
        ensures
            r == Ipv4Addr(a, b, c, d),
    {
        Ipv4Addr(a, b, c, d)
    }
}


/// An address and port to probe.
#[derive(Debug, Clone, Copy)]
pub struct Target {
    pub addr: IpAddr,
    pub port: u16,
}

#[derive(Debug, Clone, Copy, PartialEq, Eq, Structural)]
pub enum PortState {
    Open,
    Closed,
    /// Or timeout.
    Filtered,
}

#[derive(Debug, Clone, Copy)]
pub struct ScanResult {
    pub addr: IpAddr,
    pub port: u16,
    pub state: PortState,
}

#[derive(Debug, Clone)]
pub struct ScanConfig {
    pub targets: Vec<Target>,
    /// Timeout per probe, in milliseconds.
    pub timeout_ms: u64,
    /// Number of ports to scan concurrently in a batch.
    pub batch_size: usize,
    /// Packets per second.
    pub rate_limit: Option<usize>,
    pub retry_count: u8,
}

} // verus!
