pub mod scanner;
pub mod scanner_syn;
pub mod types;

use vstd::prelude::*;
use types::{IpAddr, ScanConfig, Target};

verus! {

/// The configuration of a quick scan of `ports` on `target_ip`: one target per
/// port, in the given order, one retry and no rate limit.
pub open spec fn quick_scan_config(
    target_ip: IpAddr,
    ports: Seq<u16>,
    timeout_ms: u64,
    batch_size: usize,
    config: ScanConfig,
) -> bool {
    &&& config.targets@.len() == ports.len()
    &&& forall|i: int|
        0 <= i < ports.len() ==> (#[trigger] config.targets@[i]).addr == target_ip
            && config.targets@[i].port == ports[i]
    &&& config.timeout_ms == timeout_ms
    &&& config.batch_size == batch_size
    &&& config.rate_limit is None
    &&& config.retry_count == 1
}

/// The scan plan of `scan_ports_range`: ports `port_start ..= port_end`
/// (inclusive) of `target_ip`.
pub fn scan_ports_range_config(
    target_ip: IpAddr,
    port_start: u16,
    port_end: u16,
    timeout_ms: u64,
    batch_size: usize,
) -> (config: ScanConfig)
    requires
        port_start <= port_end,
        port_end - port_start < u16::MAX,
    ensures
        quick_scan_config(
            target_ip,
            Seq::new((port_end - port_start + 1) as nat, |i: int| (port_start + i) as u16),
            timeout_ms,
            batch_size,
            config,
        ),
{
    let mut targets: Vec<Target> = Vec::with_capacity((port_end - port_start + 1) as usize);
    let mut port: u32 = port_start as u32;
    while port <= port_end as u32
        invariant
            port_start <= port <= port_end as u32 + 1,
            targets@.len() == port - port_start,
            forall|i: int|
                0 <= i < targets@.len() ==> (#[trigger] targets@[i]).addr == target_ip
                    && targets@[i].port == port_start + i,
        decreases port_end as u32 + 1 - port,
    {
        targets.push(Target { addr: target_ip, port: port as u16 });
        port = port + 1;
    }
    ScanConfig { targets, timeout_ms, batch_size, rate_limit: None, retry_count: 1 }
}

/// The scan plan of `scan_specific_ports`: the given ports of `target_ip`.
pub fn scan_specific_ports_config(
    target_ip: IpAddr,
    ports: &[u16],
    timeout_ms: u64,
    batch_size: usize,
) -> (config: ScanConfig)
    ensures
        quick_scan_config(target_ip, ports@, timeout_ms, batch_size, config),
{
    let mut targets: Vec<Target> = Vec::with_capacity(ports.len());
    let mut i: usize = 0;
    while i < ports.len()
        invariant
            i <= ports@.len(),
            targets@.len() == i,
            forall|j: int|
                0 <= j < i ==> (#[trigger] targets@[j]).addr == target_ip && targets@[j].port
                    == ports@[j],
        decreases ports@.len() - i,
    {
        targets.push(Target { addr: target_ip, port: ports[i] });
        i = i + 1;
    }
    ScanConfig { targets, timeout_ms, batch_size, rate_limit: None, retry_count: 1 }
}

} // verus!
