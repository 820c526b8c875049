use vstd::prelude::*;
use crate::sort::insertion_sort;
use super::types::IpAddr;

verus! {

/// Simple port state enum - just Open or Closed for high-speed scanning
#[derive(Debug, Clone, Copy, PartialEq, Eq, Structural)]
pub enum PortState {
    Open,
    Closed,
}

/// An address and port to probe.
#[derive(Debug, Clone, Copy)]
pub struct Target {
    pub addr: IpAddr,
    pub port: u16,
}

/// The outcome of probing one target.
#[derive(Debug, Clone)]
pub struct ScanResult {
    pub addr: IpAddr,
    pub port: u16,
    pub state: PortState,
    pub response_time_ms: u64,
}

/// Configuration for the scanner
#[derive(Debug, Clone)]
pub struct ScanConfig {
    pub targets: Vec<Target>,
    /// Connection timeout in milliseconds.
    pub timeout_ms: u64,
    /// Pause between two connection attempts, in milliseconds.
    pub pause_between_ms: u64,
    /// A progress report is due after every this many targets.
    pub batch_report_size: usize,
}

impl Default for ScanConfig {
    fn default() -> (config: Self)
        ensures
            config.targets@ == Seq::<Target>::empty(),
            config.timeout_ms == 200,
            config.pause_between_ms == 0,
            config.batch_report_size == 100,
    {
        ScanConfig { targets: Vec::new(), timeout_ms: 200, pause_between_ms: 0, batch_report_size: 100 }
    }
}

/// The targets `addr:start ..= addr:end`, in port order.
pub open spec fn port_range_targets(addr: IpAddr, start: u16, end: u16) -> Seq<Target> {
    if start <= end {
        Seq::new((end - start + 1) as nat, |i: int| Target { addr, port: (start + i) as u16 })
    } else {
        Seq::empty()
    }
}

/// Simple helper function to create common port ranges
pub fn create_port_range(addr: IpAddr, start_port: u16, end_port: u16) -> (targets: Vec<Target>)
    requires
        start_port <= end_port ==> end_port - start_port < u16::MAX,
    ensures
        targets@ == port_range_targets(addr, start_port, end_port),
{
    if start_port > end_port {
        return Vec::new();
    }
    let mut targets: Vec<Target> = Vec::with_capacity((end_port - start_port + 1) as usize);
    let mut port: u32 = start_port as u32;
    while port <= end_port as u32
        invariant
            start_port <= port <= end_port as u32 + 1,
            targets@ =~= port_range_targets(addr, start_port, end_port).take(port - start_port),
        decreases end_port as u32 + 1 - port,
    {
        targets.push(Target { addr, port: port as u16 });
        port = port + 1;
    }
    targets
}

/// Ports of the open results for `addr`, in the order of the results.
pub open spec fn open_ports_of(results: Seq<ScanResult>, addr: IpAddr) -> Seq<u16>
    decreases results.len(),
{
    if results.len() == 0 {
        Seq::empty()
    } else {
        let rest = open_ports_of(results.drop_last(), addr);
        let r = results.last();
        if r.state == PortState::Open && r.addr == addr {
            rest.push(r.port)
        } else {
            rest
        }
    }
}

/// Some result for `addr` is open.
pub open spec fn has_open_port(results: Seq<ScanResult>, addr: IpAddr) -> bool {
    exists|k: int| 0 <= k < results.len() && results[k].state == PortState::Open && results[k].addr == addr
}

pub open spec fn ports_sorted(s: Seq<u16>) -> bool {
    forall|i: int, j: int| 0 <= i < j < s.len() ==> s[i] <= s[j]
}

/// `summary` groups the open ports of `results` by address: one entry per
/// address with an open port, holding all its open ports (with repeats) in
/// ascending order.
pub open spec fn is_open_port_summary(results: Seq<ScanResult>, summary: Seq<(IpAddr, Seq<u16>)>) -> bool {
    &&& forall|i: int, j: int| 0 <= i < j < summary.len() ==> summary[i].0 != summary[j].0
    &&& forall|i: int| 0 <= i < summary.len() ==> has_open_port(results, #[trigger] summary[i].0)
    &&& forall|k: int|
        0 <= k < results.len() && results[k].state == PortState::Open ==> exists|i: int|
            0 <= i < summary.len() && #[trigger] summary[i].0 == results[k].addr
    &&& forall|i: int|
        0 <= i < summary.len() ==> ports_sorted(#[trigger] summary[i].1) && summary[i].1.to_multiset()
            == open_ports_of(results, summary[i].0).to_multiset()
}

pub open spec fn summary_view(summary: Seq<(IpAddr, Vec<u16>)>) -> Seq<(IpAddr, Seq<u16>)> {
    summary.map_values(|e: (IpAddr, Vec<u16>)| (e.0, e.1@))
}

/// Sorts ports in ascending order.
pub fn sort_ports(v: &mut Vec<u16>)
    ensures
        ports_sorted(final(v)@),
        final(v)@.to_multiset() == old(v)@.to_multiset(),
{
    let out = insertion_sort(v);
    *v = out;
}

proof fn lemma_open_ports_step(results: Seq<ScanResult>, n: int, a: IpAddr)
    requires
        0 <= n < results.len(),
    ensures
        open_ports_of(results.take(n + 1), a) == (if results[n].state == PortState::Open
            && results[n].addr == a {
            open_ports_of(results.take(n), a).push(results[n].port)
        } else {
            open_ports_of(results.take(n), a)
        }),
        has_open_port(results.take(n + 1), a) == (has_open_port(results.take(n), a) || (
        results[n].state == PortState::Open && results[n].addr == a)),
{
    let t = results.take(n + 1);
    assert(t.drop_last() =~= results.take(n));
    assert(t.last() == results[n]);
    if has_open_port(results.take(n), a) {
        let k = choose|k: int|
            0 <= k < n && results.take(n)[k].state == PortState::Open && results.take(n)[k].addr
                == a;
        assert(t[k] == results.take(n)[k]);
    }
    if has_open_port(t, a) {
        let k = choose|k: int| 0 <= k < t.len() && t[k].state == PortState::Open && t[k].addr == a;
        if k < n {
            assert(results.take(n)[k] == t[k]);
        }
    }
    if results[n].state == PortState::Open && results[n].addr == a {
        assert(t[n] == results[n]);
    }
}

/// Create a summary of open ports by IP address: each address with an open
/// port once, with its open ports in ascending order.
pub fn summarize_open_ports(results: &[ScanResult]) -> (summary: Vec<(IpAddr, Vec<u16>)>)
    ensures
        is_open_port_summary(results@, summary_view(summary@)),
{
    let mut summary: Vec<(IpAddr, Vec<u16>)> = Vec::new();
    let mut n: usize = 0;
    assert(results@.take(0) =~= Seq::<ScanResult>::empty());
    while n < results.len()
        invariant
            n <= results@.len(),
            forall|i: int, j: int| 0 <= i < j < summary@.len() ==> summary@[i].0 != summary@[j].0,
            forall|i: int|
                0 <= i < summary@.len() ==> #[trigger] summary@[i].1@ == open_ports_of(
                    results@.take(n as int),
                    summary@[i].0,
                ),
            forall|i: int|
                0 <= i < summary@.len() ==> has_open_port(
                    results@.take(n as int),
                    #[trigger] summary@[i].0,
                ),
            forall|k: int|
                0 <= k < n && results@[k].state == PortState::Open ==> exists|i: int|
                    0 <= i < summary@.len() && #[trigger] summary@[i].0 == results@[k].addr,
        decreases results@.len() - n,
    {
        let result = &results[n];
        let ghost old_summary = summary@;
        let ghost mut idx: int = -1;
        if result.state == PortState::Open {
            let mut i: usize = 0;
            while i < summary.len() && summary[i].0 != result.addr
                invariant
                    i <= summary@.len(),
                    forall|j: int| 0 <= j < i ==> summary@[j].0 != result.addr,
                decreases summary@.len() - i,
            {
                i = i + 1;
            }
            if i < summary.len() {
                let (a, mut ports) = summary.remove(i);
                ports.push(result.port);
                summary.insert(i, (a, ports));
            } else {
                let mut ports: Vec<u16> = Vec::new();
                ports.push(result.port);
                summary.push((result.addr, ports));
                proof {
                    if open_ports_of(results@.take(n as int), result.addr).len() > 0 {
                        lemma_open_ports_nonempty(results@.take(n as int), result.addr);
                    }
                }
            }
            proof {
                idx = i as int;
            }
        }
        proof {
            assert forall|j: int| 0 <= j < summary@.len() && j != idx implies #[trigger] summary@[j]
                == old_summary[j] by {}
            assert forall|j: int| 0 <= j < summary@.len() implies #[trigger] summary@[j].1@
                == open_ports_of(results@.take(n + 1), summary@[j].0) && has_open_port(
                results@.take(n + 1),
                summary@[j].0,
            ) by {
                lemma_open_ports_step(results@, n as int, summary@[j].0);
                if j == idx && idx == old_summary.len() {
                    assert(open_ports_of(results@.take(n as int), result.addr) =~= Seq::<u16>::empty());
                    assert(summary@[j].1@ =~= seq![result.port]);
                }
            }
            assert forall|j: int| 0 <= j < summary@.len() implies has_open_port(
                results@.take(n + 1),
                #[trigger] summary@[j].0,
            ) by {
                lemma_open_ports_step(results@, n as int, summary@[j].0);
            }
            assert forall|k: int|
                0 <= k < n + 1 && results@[k].state == PortState::Open implies exists|i: int|
                0 <= i < summary@.len() && #[trigger] summary@[i].0 == results@[k].addr by {
                if k < n {
                    let i = choose|i: int|
                        0 <= i < old_summary.len() && #[trigger] old_summary[i].0 == results@[k].addr;
                    assert(summary@[i].0 == results@[k].addr);
                } else {
                    assert(summary@[idx].0 == results@[k].addr);
                }
            }
        }
        n = n + 1;
    }
    assert(results@.take(results@.len() as int) =~= results@);
    let ghost unsorted = summary@;
    let mut i: usize = 0;
    while i < summary.len()
        invariant
            i <= summary@.len(),
            summary@.len() == unsorted.len(),
            forall|j: int| 0 <= j < summary@.len() ==> #[trigger] summary@[j].0 == unsorted[j].0,
            forall|j: int|
                0 <= j < summary@.len() ==> (#[trigger] summary@[j]).1@.to_multiset()
                    == unsorted[j].1@.to_multiset(),
            forall|j: int| 0 <= j < i ==> ports_sorted((#[trigger] summary@[j]).1@),
        decreases summary@.len() - i,
    {
        let ghost before = summary@;
        let (a, mut ports) = summary.remove(i);
        sort_ports(&mut ports);
        summary.insert(i, (a, ports));
        proof {
            assert forall|j: int| 0 <= j < summary@.len() && j != i implies #[trigger] summary@[j]
                == before[j] by {}
        }
        i = i + 1;
    }
    proof {
        let v = summary_view(summary@);
        assert forall|k: int|
            0 <= k < results@.len() && results@[k].state == PortState::Open implies exists|i: int|
            0 <= i < v.len() && #[trigger] v[i].0 == results@[k].addr by {
            let i = choose|i: int|
                0 <= i < unsorted.len() && #[trigger] unsorted[i].0 == results@[k].addr;
            assert(v[i].0 == summary@[i].0);
        }
    }
    summary
}

proof fn lemma_open_ports_nonempty(results: Seq<ScanResult>, a: IpAddr)
    requires
        open_ports_of(results, a).len() > 0,
    ensures
        has_open_port(results, a),
    decreases results.len(),
{
    let r = results.last();
    if r.state == PortState::Open && r.addr == a {
        assert(results[results.len() - 1] == r);
    } else {
        lemma_open_ports_nonempty(results.drop_last(), a);
        let k = choose|k: int|
            0 <= k < results.drop_last().len() && results.drop_last()[k].state == PortState::Open
                && results.drop_last()[k].addr == a;
        assert(results[k] == results.drop_last()[k]);
    }
}


/// The result recorded for `target` after a connection attempt.
pub open spec fn probe_result(target: Target, connected: bool, elapsed_ms: u64) -> ScanResult {
    ScanResult {
        addr: target.addr,
        port: target.port,
        state: if connected {
            PortState::Open
        } else {
            PortState::Closed
        },
        response_time_ms: elapsed_ms,
    }
}

pub open spec fn count_state(results: Seq<ScanResult>, state: PortState) -> nat
    decreases results.len(),
{
    if results.len() == 0 {
        0
    } else {
        count_state(results.drop_last(), state) + if results.last().state == state {
            1nat
        } else {
            0nat
        }
    }
}

/// Bookkeeping of a sequential scan: the targets of the configuration are
/// probed one after the other, in order, and each probe yields one result.
pub struct SequentialScan {
    pub results: Vec<ScanResult>,
    pub open_count: usize,
    pub closed_count: usize,
}

impl SequentialScan {
    /// The results so far belong, in order, to the first targets of `config`,
    /// and the counters count them.
    pub open spec fn wf(&self, config: &ScanConfig) -> bool {
        &&& self.results@.len() <= config.targets@.len()
        &&& forall|i: int|
            0 <= i < self.results@.len() ==> (#[trigger] self.results@[i]).addr
                == config.targets@[i].addr && self.results@[i].port == config.targets@[i].port
        &&& self.open_count == count_state(self.results@, PortState::Open)
        &&& self.closed_count == count_state(self.results@, PortState::Closed)
    }

    /// A scan of `config` that has probed nothing yet.
    pub fn new(config: &ScanConfig) -> (scan: Self)
        ensures
            scan.wf(config),
            scan.results@ == Seq::<ScanResult>::empty(),
    {
        SequentialScan { results: Vec::with_capacity(config.targets.len()), open_count: 0, closed_count: 0 }
    }

    /// The target to probe next, or `None` once every target has a result.
    pub fn next_target(&self, config: &ScanConfig) -> (t: Option<Target>)
        requires
            self.wf(config),
        ensures
            match t {
                Some(t) => self.results@.len() < config.targets@.len() && t == config.targets@[self.results@.len() as int],
                None => self.results@.len() == config.targets@.len(),
            },
    {
        let i = self.results.len();
        if i < config.targets.len() {
            Some(config.targets[i])
        } else {
            None
        }
    }

    /// Records the outcome of probing the next target: whether the connection
    /// succeeded and how long the attempt took. Returns whether a progress
    /// report is due (after every `batch_report_size` targets, and after the
    /// last one).
    pub fn record(&mut self, config: &ScanConfig, connected: bool, elapsed_ms: u64) -> (report_due: bool)
        requires
            old(self).wf(config),
            old(self).results@.len() < config.targets@.len(),
            config.batch_report_size > 0,
        ensures
            final(self).wf(config),
            final(self).results@ == old(self).results@.push(
                probe_result(config.targets@[old(self).results@.len() as int], connected, elapsed_ms),
            ),
            report_due == ((final(self).results@.len() as int) % (config.batch_report_size as int) == 0
                || final(self).results@.len() == config.targets@.len()),
    {
        let index = self.results.len();
        let total = config.targets.len();
        let target = config.targets[index];
        proof {
            lemma_count_bound(self.results@, PortState::Open);
            lemma_count_bound(self.results@, PortState::Closed);
        }
        let state = if connected {
            self.open_count = self.open_count + 1;
            PortState::Open
        } else {
            self.closed_count = self.closed_count + 1;
            PortState::Closed
        };
        let ghost before = self.results@;
        self.results.push(
            ScanResult { addr: target.addr, port: target.port, state, response_time_ms: elapsed_ms },
        );
        proof {
            assert(self.results@.drop_last() =~= before);
        }
        let done = index + 1;
        done % config.batch_report_size == 0 || done == total
    }

    /// Whether the configuration asks for a pause after each probe, and how long.
    pub fn pause_ms(config: &ScanConfig) -> (pause: Option<u64>)
        ensures
            pause == (if config.pause_between_ms > 0 {
                Some(config.pause_between_ms)
            } else {
                None
            }),
    {
        if config.pause_between_ms > 0 {
            Some(config.pause_between_ms)
        } else {
            None
        }
    }

    /// The results of a finished scan: one per target, in target order.
    pub fn into_results(self, config: &ScanConfig) -> (results: Vec<ScanResult>)
        requires
            self.wf(config),
            self.results@.len() == config.targets@.len(),
        ensures
            results@ == self.results@,
            results@.len() == config.targets@.len(),
            forall|i: int|
                0 <= i < results@.len() ==> (#[trigger] results@[i]).addr == config.targets@[i].addr
                    && results@[i].port == config.targets@[i].port,
    {
        self.results
    }
}

proof fn lemma_count_bound(results: Seq<ScanResult>, state: PortState)
    ensures
        count_state(results, state) <= results.len(),
    decreases results.len(),
{
    if results.len() > 0 {
        lemma_count_bound(results.drop_last(), state);
    }
}

/// Every scan result is either open or closed: the two counters add up to the
/// number of results.
pub proof fn lemma_counts_partition(results: Seq<ScanResult>)
    ensures
        count_state(results, PortState::Open) + count_state(results, PortState::Closed)
            == results.len(),
    decreases results.len(),
{
    if results.len() > 0 {
        lemma_counts_partition(results.drop_last());
    }
}


pub open spec fn times_sorted(s: Seq<u64>) -> bool {
    forall|i: int, j: int| 0 <= i < j < s.len() ==> s[i] <= s[j]
}

/// The response times of `results`, in result order.
pub open spec fn response_times(results: Seq<ScanResult>) -> Seq<u64> {
    results.map_values(|r: ScanResult| r.response_time_ms)
}

/// The response times of all results in ascending order (the first is the
/// fastest, the last the slowest, the middle one the median).
pub fn sorted_response_times(results: &[ScanResult]) -> (times: Vec<u64>)
    ensures
        times_sorted(times@),
        times@.to_multiset() == response_times(results@).to_multiset(),
{
    let mut all: Vec<u64> = Vec::with_capacity(results.len());
    let mut i: usize = 0;
    while i < results.len()
        invariant
            i <= results@.len(),
            all@ == response_times(results@).take(i as int),
        decreases results@.len() - i,
    {
        all.push(results[i].response_time_ms);
        i = i + 1;
        proof {
            assert(all@ =~= response_times(results@).take(i as int));
        }
    }
    assert(all@ =~= response_times(results@));
    insertion_sort(&all)
}

} // verus!
