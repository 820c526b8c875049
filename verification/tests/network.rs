use cerberus::pages::network::scanner::{
    create_port_range, summarize_open_ports, PortState, ScanConfig, ScanResult, SequentialScan, Target,
};
use cerberus::pages::network::scanner_syn::{
    self, build_syn_packet, calculate_checksum, classify_syn_response, get_default_source_ip,
    hard_timeout_ms, ipv4_targets, ipv4_to_u32, new_syn_packet, pick_source_port, socket_index,
    probe_address, timed_out_result, u32_to_ipv4, Heartbeat, ProbeAttempts, ProbeOutcome, ScanProgress,
};
use cerberus::pages::network::types::{IpAddr, Ipv4Addr, Ipv6Addr};
use cerberus::pages::network::{scan_ports_range_config, scan_specific_ports_config};

fn localhost() -> IpAddr {
    IpAddr::V4(Ipv4Addr::new(127, 0, 0, 1))
}

#[test]
fn test_localhost_scan() {
    let localhost = localhost();
    let targets = vec![
        Target { addr: localhost, port: 80 },
        Target { addr: localhost, port: 81 },
    ];
    let config = ScanConfig { targets, timeout_ms: 200, pause_between_ms: 0, batch_report_size: 1 };
    let mut scan = SequentialScan::new(&config);
    let mut reports = 0;
    let mut outcome = true;
    while let Some(_target) = scan.next_target(&config) {
        if scan.record(&config, outcome, 3) {
            reports += 1;
        }
        outcome = !outcome;
    }
    let results = scan.into_results(&config);
    assert_eq!(results.len(), 2);
    assert_eq!(reports, 2);
    assert_eq!(results[0].port, 80);
    assert_eq!(results[0].state, PortState::Open);
    assert_eq!(results[1].port, 81);
    assert_eq!(results[1].state, PortState::Closed);
}

#[test]
fn sequential_scan_counts_and_reports() {
    let targets = create_port_range(localhost(), 1, 5);
    let config = ScanConfig { targets, timeout_ms: 10, pause_between_ms: 7, batch_report_size: 2 };
    let mut scan = SequentialScan::new(&config);
    let mut due = Vec::new();
    let mut i = 0;
    while scan.next_target(&config).is_some() {
        due.push(scan.record(&config, i % 2 == 0, i as u64));
        i += 1;
    }
    assert_eq!(due, vec![false, true, false, true, true]);
    assert_eq!(scan.open_count, 3);
    assert_eq!(scan.closed_count, 2);
    assert_eq!(SequentialScan::pause_ms(&config), Some(7));
    let default = ScanConfig::default();
    assert_eq!(SequentialScan::pause_ms(&default), None);
    assert_eq!(default.timeout_ms, 200);
    assert_eq!(default.batch_report_size, 100);
    assert!(default.targets.is_empty());
}

#[test]
fn port_ranges_are_inclusive() {
    let t = create_port_range(localhost(), 80, 83);
    let ports: Vec<u16> = t.iter().map(|t| t.port).collect();
    assert_eq!(ports, vec![80, 81, 82, 83]);
    assert!(create_port_range(localhost(), 10, 9).is_empty());
    let top = create_port_range(localhost(), 65534, 65535);
    assert_eq!(top.len(), 2);
    let t2 = scanner_syn::create_port_range(localhost(), 4900, 4902);
    assert_eq!(t2.iter().map(|t| t.port).collect::<Vec<_>>(), vec![4900, 4901, 4902]);
}

fn result(addr: IpAddr, port: u16, open: bool) -> ScanResult {
    ScanResult {
        addr,
        port,
        state: if open { PortState::Open } else { PortState::Closed },
        response_time_ms: 1,
    }
}

#[test]
fn summary_groups_and_sorts_open_ports() {
    let a = localhost();
    let b = IpAddr::V4(Ipv4Addr::new(10, 0, 0, 2));
    let c = IpAddr::V6(Ipv6Addr(1));
    let results = vec![
        result(a, 443, true),
        result(b, 22, true),
        result(a, 80, true),
        result(a, 81, false),
        result(c, 9, false),
        result(a, 80, true),
        result(b, 21, true),
    ];
    let summary = summarize_open_ports(&results);
    assert_eq!(summary.len(), 2);
    let find = |addr: IpAddr| summary.iter().find(|e| e.0 == addr).map(|e| e.1.clone());
    assert_eq!(find(a), Some(vec![80, 80, 443]));
    assert_eq!(find(b), Some(vec![21, 22]));
    assert_eq!(find(c), None);
    assert!(summarize_open_ports(&[]).is_empty());
    let syn_summary = scanner_syn::summarize_open_ports(&results);
    assert_eq!(syn_summary.len(), 2);
}

#[test]
fn checksum_matches_rfc1071_example() {
    // RFC 1071: words 0001 f203 f4f5 f6f7 sum to 2ddf0, folded ddf2.
    let data = [0x00, 0x01, 0xf2, 0x03, 0xf4, 0xf5, 0xf6, 0xf7];
    assert_eq!(calculate_checksum(&data), !0xddf2u16);
    assert_eq!(calculate_checksum(&[]), 0xFFFF);
    // An odd byte counts as the high half of a word.
    assert_eq!(calculate_checksum(&[0x12]), !0x1200u16);
}

#[test]
fn checksum_of_a_known_ipv4_header() {
    let header = [
        0x45, 0x00, 0x00, 0x73, 0x00, 0x00, 0x40, 0x00, 0x40, 0x11, 0x00, 0x00, 0xc0, 0xa8, 0x00,
        0x01, 0xc0, 0xa8, 0x00, 0xc7,
    ];
    assert_eq!(calculate_checksum(&header), 0xb861);
    let mut filled = header;
    filled[10] = 0xb8;
    filled[11] = 0x61;
    assert_eq!(calculate_checksum(&filled), 0);
}

#[test]
fn ipv4_conversions_roundtrip() {
    let a = Ipv4Addr::new(192, 168, 1, 20);
    assert_eq!(ipv4_to_u32(a), 0xC0A80114);
    assert_eq!(u32_to_ipv4(0xC0A80114), a);
    assert_eq!(u32_to_ipv4(ipv4_to_u32(Ipv4Addr::new(255, 0, 7, 1))), Ipv4Addr::new(255, 0, 7, 1));
    assert_eq!(get_default_source_ip(), Ipv4Addr::new(127, 0, 0, 1));
}

#[test]
fn syn_packet_layout_and_checksums() {
    let src = Ipv4Addr::new(127, 0, 0, 1);
    let dst = Ipv4Addr::new(10, 1, 2, 3);
    let p = build_syn_packet(0x1234, 0xA1B2C3D4, src, dst, 50000, 443);
    assert_eq!(p.len(), 40);
    assert_eq!(&p[0..10], &[0x45, 0x00, 0x00, 0x28, 0x12, 0x34, 0x40, 0x00, 0x40, 0x06]);
    assert_eq!(&p[12..20], &[127, 0, 0, 1, 10, 1, 2, 3]);
    assert_eq!(calculate_checksum(&p[0..20]), 0);
    assert_eq!(&p[20..24], &[0xC3, 0x50, 0x01, 0xBB]);
    assert_eq!(&p[24..28], &[0xA1, 0xB2, 0xC3, 0xD4]);
    assert_eq!(&p[28..36], &[0, 0, 0, 0, 0x50, 0x02, 0xFA, 0xF0]);
    assert_eq!(&p[38..40], &[0, 0]);
    let mut pseudo = vec![127, 0, 0, 1, 10, 1, 2, 3, 0, 6, 0, 20];
    pseudo.extend_from_slice(&p[20..40]);
    assert_eq!(calculate_checksum(&pseudo), 0);
}

#[test]
fn fresh_syn_packets_verify_at_the_receiver() {
    let dst = Ipv4Addr::new(10, 1, 2, 3);
    let port = pick_source_port();
    assert!((49152..65535).contains(&port));
    let p = new_syn_packet(port, dst, 80);
    assert_eq!(p.len(), 40);
    assert_eq!(calculate_checksum(&p[0..20]), 0);
    assert_eq!(&p[20..22], &port.to_be_bytes());
    assert_eq!(&p[22..24], &[0, 80]);
    // The TCP length in the pseudo header is in network byte order.
    let mut pseudo = vec![127, 0, 0, 1, 10, 1, 2, 3, 0, 6, 0, 20];
    pseudo.extend_from_slice(&p[20..40]);
    assert_eq!(calculate_checksum(&pseudo), 0);
}

#[test]
fn appended_checksum_makes_data_verify() {
    let mut data = vec![0x00, 0x01, 0xf2, 0x03, 0xf4, 0xf5, 0xf6, 0xf7];
    let c = calculate_checksum(&data);
    data.extend_from_slice(&c.to_be_bytes());
    assert_eq!(calculate_checksum(&data), 0);
    let mut empty: Vec<u8> = Vec::new();
    let c = calculate_checksum(&empty);
    empty.extend_from_slice(&c.to_be_bytes());
    assert_eq!(calculate_checksum(&empty), 0);
}

#[test]
fn concurrency_follows_cpu_count() {
    assert_eq!(scanner_syn::concurrent_scans_for(1), 50);
    assert_eq!(scanner_syn::concurrent_scans_for(4), 200);
    assert_eq!(scanner_syn::concurrent_scans_for(usize::MAX), usize::MAX);
    assert_eq!(scanner_syn::concurrent_scans_for(usize::MAX / 50), (usize::MAX / 50) * 50);
}

fn response(src: [u8; 4], proto: u8, ihl: u8, sport: u16, dport: u16, flags: u16, len: usize) -> Vec<u8> {
    let mut p = vec![0u8; len];
    p[0] = 0x40 | ihl;
    p[9] = proto;
    p[12..16].copy_from_slice(&src);
    let off = (ihl as usize) * 4;
    p[off..off + 2].copy_from_slice(&sport.to_be_bytes());
    p[off + 2..off + 4].copy_from_slice(&dport.to_be_bytes());
    p[off + 12..off + 14].copy_from_slice(&(0x5000 | flags).to_be_bytes());
    p
}

#[test]
fn syn_responses_are_classified() {
    let dst = Ipv4Addr::new(10, 1, 2, 3);
    let ip = [10, 1, 2, 3];
    assert_eq!(classify_syn_response(&response(ip, 6, 5, 443, 50000, 0x12, 40), 50000, dst, 443), Some(true));
    assert_eq!(classify_syn_response(&response(ip, 6, 5, 443, 50000, 0x14, 40), 50000, dst, 443), Some(false));
    // SYN-ACK wins over RST when both are set.
    assert_eq!(classify_syn_response(&response(ip, 6, 5, 443, 50000, 0x16, 40), 50000, dst, 443), Some(true));
    // Options push the TCP header further.
    assert_eq!(classify_syn_response(&response(ip, 6, 6, 443, 50000, 0x12, 44), 50000, dst, 443), Some(true));
    assert_eq!(classify_syn_response(&response(ip, 6, 6, 443, 50000, 0x12, 40), 50000, dst, 443), None);
    // Not for this probe.
    assert_eq!(classify_syn_response(&response(ip, 6, 5, 444, 50000, 0x12, 40), 50000, dst, 443), None);
    assert_eq!(classify_syn_response(&response(ip, 6, 5, 443, 50001, 0x12, 40), 50000, dst, 443), None);
    assert_eq!(classify_syn_response(&response([10, 1, 2, 4], 6, 5, 443, 50000, 0x12, 40), 50000, dst, 443), None);
    assert_eq!(classify_syn_response(&response(ip, 17, 5, 443, 50000, 0x12, 40), 50000, dst, 443), None);
    // Only an ACK: keep waiting.
    assert_eq!(classify_syn_response(&response(ip, 6, 5, 443, 50000, 0x10, 40), 50000, dst, 443), None);
    // Too short.
    assert_eq!(classify_syn_response(&[0u8; 39], 50000, dst, 443), None);
}

#[test]
fn ipv4_filter_keeps_order() {
    let v4a = Target { addr: localhost(), port: 1 };
    let v6 = Target { addr: IpAddr::V6(Ipv6Addr(1)), port: 2 };
    let v4b = Target { addr: IpAddr::V4(Ipv4Addr::new(1, 1, 1, 1)), port: 3 };
    let r = ipv4_targets(&vec![v4a, v6, v4b]);
    assert_eq!(r.iter().map(|t| t.port).collect::<Vec<_>>(), vec![1, 3]);
}

#[test]
fn probe_timing_rules() {
    assert_eq!(hard_timeout_ms(150, 2), 150 * 4 + 500);
    let t = Target { addr: localhost(), port: 8080 };
    let r = timed_out_result(t, 150, 2);
    assert_eq!(r.response_time_ms, 450);
    assert_eq!(r.state, PortState::Closed);
    assert_eq!(r.port, 8080);
    assert_eq!(socket_index(8080, 16), 0);
    assert_eq!(socket_index(8081, 16), 1);
    assert_eq!(socket_index(5, 3), 2);
}

#[test]
fn probe_attempts_stop_at_an_answer_or_the_retry_limit() {
    let mut a = ProbeAttempts::new(2);
    let mut n = 0;
    while let Some(i) = a.next_attempt() {
        assert_eq!(i, n);
        a.record(ProbeOutcome::TimedOut);
        n += 1;
    }
    assert_eq!(n, 3);
    assert_eq!(a.state, PortState::Closed);

    let mut b = ProbeAttempts::new(2);
    b.record(ProbeOutcome::SendFailed);
    b.record(ProbeOutcome::Open);
    assert_eq!(b.next_attempt(), None);
    assert_eq!(b.state, PortState::Open);

    let mut c = ProbeAttempts::new(0);
    c.record(ProbeOutcome::SendFailed);
    assert_eq!(c.next_attempt(), None);
    assert_eq!(c.state, PortState::Closed);
}

#[test]
fn concurrent_progress_and_heartbeat() {
    let mut p = ScanProgress::new(3, 2);
    assert!(!p.record(PortState::Open));
    assert!(p.record(PortState::Closed));
    assert!(p.record(PortState::Open));
    assert_eq!((p.count, p.open, p.closed), (3, 2, 1));

    let mut h = Heartbeat::new(10);
    assert_eq!(h.tick(0).stuck_ticks, 1);
    assert_eq!(h.tick(0).stuck_ticks, 2);
    let v = h.tick(4);
    assert_eq!((v.stuck_ticks, v.finished), (0, false));
    assert!(h.tick(10).finished);

    let d = scanner_syn::ScanConfig::default();
    assert!(d.max_concurrent_scans >= 50);
    assert!(d.max_concurrent_scans % 50 == 0 || d.max_concurrent_scans == usize::MAX);
    assert!(d.targets.is_empty());
    assert_eq!(d.batch_report_size, 100);
    assert_eq!(d.timeout_ms, 100);
    assert_eq!(d.retry_count, 1);
}

#[test]
fn quick_scan_plans() {
    let c = scan_ports_range_config(localhost(), 80, 82, 1000, 100);
    assert_eq!(c.targets.iter().map(|t| t.port).collect::<Vec<_>>(), vec![80, 81, 82]);
    assert_eq!(c.timeout_ms, 1000);
    assert_eq!(c.batch_size, 100);
    assert_eq!(c.retry_count, 1);
    assert!(c.rate_limit.is_none());
    let s = scan_specific_ports_config(localhost(), &[443, 22], 5, 1);
    assert_eq!(s.targets.iter().map(|t| t.port).collect::<Vec<_>>(), vec![443, 22]);
}

#[test]
fn response_times_in_order() {
    let a = localhost();
    let mut results = vec![result(a, 1, true), result(a, 2, false), result(a, 3, true)];
    results[0].response_time_ms = 30;
    results[1].response_time_ms = 5;
    results[2].response_time_ms = 12;
    assert_eq!(cerberus::pages::network::scanner::sorted_response_times(&results), vec![5, 12, 30]);
}

#[test]
fn only_ipv4_targets_are_probed() {
    let v4 = Target { addr: localhost(), port: 22 };
    assert_eq!(probe_address(v4).ok(), Some(Ipv4Addr::new(127, 0, 0, 1)));
    let v6 = Target { addr: IpAddr::V6(Ipv6Addr(1)), port: 22 };
    let skipped = probe_address(v6).err().unwrap();
    assert_eq!((skipped.addr, skipped.port, skipped.state, skipped.response_time_ms), (v6.addr, 22, PortState::Closed, 0));
}
