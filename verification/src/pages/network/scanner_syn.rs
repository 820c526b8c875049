use vstd::prelude::*;
use super::types::{IpAddr, Ipv4Addr};
pub use super::scanner::{PortState, ScanResult, Target, summarize_open_ports};
use super::scanner::port_range_targets;
use rand::Rng;

verus! {

/// Sum of the first `k` complete 16-bit big-endian words of `data`.
pub open spec fn pair_sum(data: Seq<u8>, k: nat) -> nat
    decreases k,
{
    if k == 0 {
        0
    } else {
        pair_sum(data, (k - 1) as nat) + data[2 * k - 2] as nat * 256 + data[2 * k - 1] as nat
    }
}

/// The one's-complement accumulator before folding: every 16-bit big-endian
/// word of `data` added up, an odd trailing byte counting as its high half.
pub open spec fn word_sum(data: Seq<u8>) -> nat {
    let full = pair_sum(data, data.len() / 2);
    if data.len() % 2 == 1 {
        full + data[data.len() - 1] as nat * 256
    } else {
        full
    }
}

/// End-around-carry folding of an accumulator into 16 bits.
pub open spec fn fold_carries(s: nat) -> nat
    decreases s,
{
    if s < 0x10000 {
        s
    } else {
        fold_carries(s % 0x10000 + s / 0x10000)
    }
}

/// The Internet checksum (RFC 1071) of `data`.
pub open spec fn internet_checksum(data: Seq<u8>) -> u16 {
    (0xFFFF - fold_carries(word_sum(data))) as u16
}

proof fn lemma_pair_sum_mono(data: Seq<u8>, j: nat, k: nat)
    requires
        j <= k,
    ensures
        pair_sum(data, j) <= pair_sum(data, k),
    decreases k,
{
    if j < k {
        lemma_pair_sum_mono(data, j, (k - 1) as nat);
    }
}

/// Calculate TCP/IP checksum
pub fn calculate_checksum(data: &[u8]) -> (checksum: u16)
    requires
        word_sum(data@) <= u32::MAX,
    ensures
        checksum == internet_checksum(data@),
{
    let mut sum: u32 = 0;
    let mut i: usize = 0;
    proof {
        lemma_pair_sum_mono(data@, 0, data@.len() / 2);
    }
    while i + 1 < data.len()
        invariant
            i % 2 == 0,
            i <= data.len(),
            sum == pair_sum(data@, (i / 2) as nat),
            word_sum(data@) <= u32::MAX,
        decreases data.len() - i,
    {
        proof {
            lemma_pair_sum_mono(data@, (i / 2 + 1) as nat, data@.len() / 2);
        }
        let word: u32 = (data[i] as u32) * 256 + (data[i + 1] as u32);
        sum = sum + word;
        i = i + 2;
    }
    if i < data.len() {
        sum = sum + (data[i] as u32) * 256;
    }
    assert(sum == word_sum(data@));
    while (sum >> 16u32) > 0
        invariant
            fold_carries(sum as nat) == fold_carries(word_sum(data@)),
        decreases sum,
    {
        let lo: u32 = sum & 0xFFFF;
        let hi: u32 = sum >> 16u32;
        assert(lo == sum % 0x10000 && hi == sum / 0x10000) by (bit_vector)
            requires
                lo == sum & 0xFFFF,
                hi == sum >> 16u32,
        ;
        assert(sum >= 0x10000) by (bit_vector)
            requires
                (sum >> 16u32) > 0,
        ;
        sum = lo + hi;
    }
    assert(sum < 0x10000) by (bit_vector)
        requires
            !((sum >> 16u32) > 0),
    ;
    let folded: u16 = sum as u16;
    let r: u16 = !folded;
    assert(r == 0xFFFF - folded) by (bit_vector)
        requires
            r == !folded,
    ;
    r
}


/// Size of the IPv4 header that the scanner writes and expects.
pub const IP_HEADER_SIZE: usize = 20;
/// Size of the TCP header that the scanner writes and expects.
pub const TCP_HEADER_SIZE: usize = 20;
pub const TCP_SYN_FLAG: u16 = 0x0002;
pub const TCP_ACK_FLAG: u16 = 0x0010;
pub const TCP_RST_FLAG: u16 = 0x0004;
/// Data offset field: five 32-bit words.
pub const TCP_DATA_OFFSET: u16 = 0x5000;

/// The 32-bit value of an address, first octet most significant.
pub open spec fn ipv4_value(a: Ipv4Addr) -> int {
    a.0 as int * 0x1000000 + a.1 as int * 0x10000 + a.2 as int * 0x100 + a.3 as int
}

/// Convert IPv4 address to u32
pub fn ipv4_to_u32(addr: Ipv4Addr) -> (r: u32)
    ensures
        r == ipv4_value(addr),
{
    let a: u8 = addr.0;
    let b: u8 = addr.1;
    let c: u8 = addr.2;
    let d: u8 = addr.3;
    let r: u32 = ((a as u32) << 24u32) | ((b as u32) << 16u32) | ((c as u32) << 8u32) | (d as u32);
    assert(r == a as u32 * 0x1000000 + b as u32 * 0x10000 + c as u32 * 0x100 + d as u32)
        by (bit_vector)
        requires
            r == ((a as u32) << 24u32) | ((b as u32) << 16u32) | ((c as u32) << 8u32) | (d as u32),
    ;
    r
}

/// Convert u32 to IPv4 address
pub fn u32_to_ipv4(addr: u32) -> (r: Ipv4Addr)
    ensures
        ipv4_value(r) == addr,
        r.0 == addr / 0x1000000,
        r.1 == (addr / 0x10000) % 0x100,
        r.2 == (addr / 0x100) % 0x100,
        r.3 == addr % 0x100,
{
    let octet1: u8 = ((addr >> 24u32) & 0xFF) as u8;
    let octet2: u8 = ((addr >> 16u32) & 0xFF) as u8;
    let octet3: u8 = ((addr >> 8u32) & 0xFF) as u8;
    let octet4: u8 = (addr & 0xFF) as u8;
    assert(octet1 == addr / 0x1000000 && octet2 == (addr / 0x10000) % 0x100 && octet3 == (addr
        / 0x100) % 0x100 && octet4 == addr % 0x100 && addr == octet1 as u32 * 0x1000000 + octet2 as u32
        * 0x10000 + octet3 as u32 * 0x100 + octet4 as u32) by (bit_vector)
        requires
            octet1 == ((addr >> 24u32) & 0xFF) as u8,
            octet2 == ((addr >> 16u32) & 0xFF) as u8,
            octet3 == ((addr >> 8u32) & 0xFF) as u8,
            octet4 == (addr & 0xFF) as u8,
    ;
    Ipv4Addr::new(octet1, octet2, octet3, octet4)
}

/// Converting an address to its 32-bit value and back gives the same address,
/// and converting a value to an address and back gives the same value.
pub proof fn lemma_ipv4_u32_roundtrip(a: Ipv4Addr, v: u32)
    ensures
        0 <= ipv4_value(a) <= u32::MAX,
        ({
            let w = ipv4_value(a) as u32;
            Ipv4Addr(
                (w / 0x1000000) as u8,
                ((w / 0x10000) % 0x100) as u8,
                ((w / 0x100) % 0x100) as u8,
                (w % 0x100) as u8,
            ) == a
        }),
        ipv4_value(
            Ipv4Addr(
                (v / 0x1000000) as u8,
                ((v / 0x10000) % 0x100) as u8,
                ((v / 0x100) % 0x100) as u8,
                (v % 0x100) as u8,
            ),
        ) == v,
{
    let (p, q, r, s) = (a.0, a.1, a.2, a.3);
    assert(({
        let w: u32 = (p as u32 * 0x1000000 + q as u32 * 0x10000 + r as u32 * 0x100 + s as u32) as u32;
        &&& p as u32 * 0x1000000 + q as u32 * 0x10000 + r as u32 * 0x100 + s as u32 <= 0xFFFF_FFFF
        &&& (w / 0x1000000) as u8 == p
        &&& ((w / 0x10000) % 0x100) as u8 == q
        &&& ((w / 0x100) % 0x100) as u8 == r
        &&& (w % 0x100) as u8 == s
    })) by (bit_vector);
    assert(((v / 0x1000000) as u8) as u32 * 0x1000000 + (((v / 0x10000) % 0x100) as u8) as u32
        * 0x10000 + (((v / 0x100) % 0x100) as u8) as u32 * 0x100 + ((v % 0x100) as u8) as u32 == v)
        by (bit_vector);
}

/// Big-endian bytes of a 16-bit value.
pub open spec fn be16(v: u16) -> Seq<u8> {
    seq![(v / 0x100) as u8, (v % 0x100) as u8]
}

/// Big-endian bytes of a 32-bit value.
pub open spec fn be32(v: u32) -> Seq<u8> {
    seq![
        (v / 0x1000000) as u8,
        ((v / 0x10000) % 0x100) as u8,
        ((v / 0x100) % 0x100) as u8,
        (v % 0x100) as u8,
    ]
}

/// The IPv4 header of a SYN probe (no options).
pub open spec fn syn_ip_header(identification: u16, checksum: u16, src: Ipv4Addr, dst: Ipv4Addr) -> Seq<u8> {
    seq![0x45u8, 0u8] + be16(40) + be16(identification) + be16(0x4000) + seq![64u8, 6u8]
        + be16(checksum) + src.octet_seq() + dst.octet_seq()
}

/// The TCP header of a SYN probe (no options).
pub open spec fn syn_tcp_header(source_port: u16, dest_port: u16, sequence: u32, checksum: u16) -> Seq<u8> {
    be16(source_port) + be16(dest_port) + be32(sequence) + be32(0) + be16(0x5002) + be16(64240)
        + be16(checksum) + be16(0)
}

/// The pseudo header that the TCP checksum covers: both addresses, a zero
/// byte, the protocol (TCP) and the TCP length (20) in network byte order.
pub open spec fn syn_pseudo_header(src: Ipv4Addr, dst: Ipv4Addr) -> Seq<u8> {
    src.octet_seq() + dst.octet_seq() + seq![0u8, 6u8] + be16(20)
}

/// The complete 40-byte SYN probe, both checksums filled in.
pub open spec fn syn_packet(
    identification: u16,
    sequence: u32,
    src: Ipv4Addr,
    dst: Ipv4Addr,
    source_port: u16,
    dest_port: u16,
) -> Seq<u8> {
    let ip_sum = internet_checksum(syn_ip_header(identification, 0, src, dst));
    let tcp_sum = internet_checksum(
        syn_pseudo_header(src, dst) + syn_tcp_header(source_port, dest_port, sequence, 0),
    );
    syn_ip_header(identification, ip_sum, src, dst) + syn_tcp_header(
        source_port,
        dest_port,
        sequence,
        tcp_sum,
    )
}

/// Folding keeps the value modulo 0xFFFF and, for a positive sum, gives a
/// positive 16-bit value.
proof fn lemma_fold_carries_props(s: nat)
    ensures
        fold_carries(s) < 0x10000,
        fold_carries(s) % 0xFFFF == s % 0xFFFF,
        s > 0 ==> fold_carries(s) > 0,
    decreases s,
{
    if s >= 0x10000 {
        let q = s / 0x10000;
        let r = s % 0x10000;
        assert(s == q * 0x10000 + r && 0 <= r < 0x10000) by (nonlinear_arith)
            requires
                q == s / 0x10000,
                r == s % 0x10000,
        ;
        assert(q >= 1) by (nonlinear_arith)
            requires
                s >= 0x10000,
                q == s / 0x10000,
        ;
        assert(q + r < s) by (nonlinear_arith)
            requires
                s == q * 0x10000 + r,
                q >= 1,
        ;
        assert((q + r) % 0xFFFF == s % 0xFFFF) by (nonlinear_arith)
            requires
                s == q * 0x10000 + r,
                q >= 0,
                r >= 0,
        {
            assert(s == q * 0xFFFF + (q + r));
            vstd::arithmetic::div_mod::lemma_mod_multiples_vanish(q as int, (q + r) as int, 0xFFFF);
        }
        lemma_fold_carries_props((q + r) as nat);
    }
}

/// Pair sum after writing `v` into the zeroed word `w`.
proof fn lemma_pair_sum_fill(data: Seq<u8>, w: int, v: u16, k: nat)
    requires
        0 <= w,
        2 * w + 1 < data.len(),
        2 * k <= data.len(),
        data[2 * w] == 0,
        data[2 * w + 1] == 0,
    ensures
        pair_sum(data.update(2 * w, (v / 0x100) as u8).update(2 * w + 1, (v % 0x100) as u8), k)
            == pair_sum(data, k) + if k > w { v as nat } else { 0 },
    decreases k,
{
    let d2 = data.update(2 * w, (v / 0x100) as u8).update(2 * w + 1, (v % 0x100) as u8);
    if k > 0 {
        lemma_pair_sum_fill(data, w, v, (k - 1) as nat);
        if k - 1 == w {
            assert(d2[2 * k - 2] as nat * 256 + d2[2 * k - 1] as nat == v as nat);
        } else {
            assert(d2[2 * k - 2] == data[2 * k - 2]);
            assert(d2[2 * k - 1] == data[2 * k - 1]);
        }
    }
}

/// Adding the complement of a folded sum to that sum folds to 0xFFFF.
proof fn lemma_fold_complement(s: nat)
    ensures
        fold_carries((s + 0xFFFF - fold_carries(s)) as nat) == 0xFFFF,
        fold_carries(s) <= 0xFFFF,
{
    lemma_fold_carries_props(s);
    let t = s + 0xFFFF - fold_carries(s);
    assert(t > 0);
    lemma_fold_carries_props(t as nat);
    assert(t % 0xFFFF == 0) by (nonlinear_arith)
        requires
            t == s + 0xFFFF - fold_carries(s),
            fold_carries(s) % 0xFFFF == s % 0xFFFF,
            fold_carries(s) <= s + 0xFFFF,
    {
        vstd::arithmetic::div_mod::lemma_sub_mod_noop(s as int, fold_carries(s) as int, 0xFFFF);
        vstd::arithmetic::div_mod::lemma_mod_add_multiples_vanish((s - fold_carries(s)) as int, 0xFFFF);
    }
    let f = fold_carries(t as nat);
    assert(f == 0xFFFF) by (nonlinear_arith)
        requires
            0 < f < 0x10000,
            f % 0xFFFF == 0,
    ;
}

/// A checksum computed over data whose checksum word (the 16-bit word at
/// `2 * w`) is zero, written into that word high byte first, makes the data
/// check: its checksum is then zero.
pub proof fn lemma_filled_checksum_verifies(data: Seq<u8>, w: int)
    requires
        0 <= w,
        2 * w + 1 < data.len(),
        data.len() % 2 == 0,
        data[2 * w] == 0,
        data[2 * w + 1] == 0,
    ensures
        ({
            let c = internet_checksum(data);
            internet_checksum(data.update(2 * w, (c / 0x100) as u8).update(2 * w + 1, (c % 0x100) as u8)) == 0
        }),
{
    let c = internet_checksum(data);
    let s = word_sum(data);
    lemma_fold_complement(s);
    assert(c as nat == 0xFFFF - fold_carries(s));
    lemma_pair_sum_fill(data, w, c, data.len() / 2);
}

proof fn lemma_pair_sum_prefix(a: Seq<u8>, b: Seq<u8>, k: nat)
    requires
        2 * k <= a.len(),
        2 * k <= b.len(),
        forall|i: int| 0 <= i < 2 * k ==> a[i] == b[i],
    ensures
        pair_sum(a, k) == pair_sum(b, k),
    decreases k,
{
    if k > 0 {
        lemma_pair_sum_prefix(a, b, (k - 1) as nat);
    }
}

/// Appending the checksum of even-length data, high byte first, makes the
/// data check: the checksum of the whole is then zero.
pub proof fn lemma_appended_checksum_verifies(data: Seq<u8>)
    requires
        data.len() % 2 == 0,
    ensures
        internet_checksum(data + be16(internet_checksum(data))) == 0,
{
    let c = internet_checksum(data);
    let s = word_sum(data);
    let d2 = data + be16(c);
    let n = data.len() / 2;
    lemma_fold_complement(s);
    assert(c as nat == 0xFFFF - fold_carries(s));
    lemma_pair_sum_prefix(d2, data, n);
    assert(d2.len() / 2 == n + 1);
    let m = 2 * n as int;
    assert(pair_sum(d2, (n + 1) as nat) == pair_sum(d2, n) + d2[m] as nat * 256 + d2[m + 1] as nat);
    assert(d2[m] as nat * 256 + d2[m + 1] as nat == c as nat);
    assert(word_sum(d2) == s + c);
}

proof fn lemma_pair_sum_bound(data: Seq<u8>, k: nat)
    requires
        2 * k <= data.len(),
    ensures
        pair_sum(data, k) <= k * 0xFFFF,
    decreases k,
{
    if k > 0 {
        lemma_pair_sum_bound(data, (k - 1) as nat);
    }
}

proof fn lemma_word_sum_bound(data: Seq<u8>)
    ensures
        word_sum(data) <= (data.len() / 2 + 1) * 0xFFFF,
{
    lemma_pair_sum_bound(data, data.len() / 2);
}

/// Every SYN probe carries correct checksums: recomputing the Internet checksum
/// over its IP header, and over the pseudo header followed by its TCP header,
/// gives zero, which is what the receiving host checks.
pub proof fn lemma_syn_checksums_verify(
    identification: u16,
    sequence: u32,
    src: Ipv4Addr,
    dst: Ipv4Addr,
    source_port: u16,
    dest_port: u16,
)
    ensures
        ({
            let p = syn_packet(identification, sequence, src, dst, source_port, dest_port);
            &&& internet_checksum(p.subrange(0, 20)) == 0
            &&& internet_checksum(syn_pseudo_header(src, dst) + p.subrange(20, 40)) == 0
        }),
{
    let ip0 = syn_ip_header(identification, 0, src, dst);
    let ip_sum = internet_checksum(ip0);
    assert(ip0[0] as nat * 256 + ip0[1] as nat > 0);
    lemma_pair_sum_mono(ip0, 1, 10);
    assert(pair_sum(ip0, 0) == 0);
    assert(pair_sum(ip0, 1) == ip0[0] as nat * 256 + ip0[1] as nat);
    assert(syn_ip_header(identification, ip_sum, src, dst) =~= ip0.update(10, (ip_sum / 0x100) as u8).update(
        11,
        (ip_sum % 0x100) as u8,
    ));
    lemma_filled_checksum_verifies(ip0, 5);
    let ph = syn_pseudo_header(src, dst);
    let t0 = ph + syn_tcp_header(source_port, dest_port, sequence, 0);
    let tcp_sum = internet_checksum(t0);
    assert(t0.len() == 32);
    assert(t0[24] == 0x50u8);
    lemma_pair_sum_mono(t0, 13, 16);
    assert(pair_sum(t0, 13) >= t0[24] as nat * 256);
    lemma_pair_sum_mono(t0, 0, 12);
    assert(ph + syn_tcp_header(source_port, dest_port, sequence, tcp_sum) =~= t0.update(28, (tcp_sum / 0x100) as u8).update(
        29,
        (tcp_sum % 0x100) as u8,
    ));
    lemma_filled_checksum_verifies(t0, 14);
    let p = syn_packet(identification, sequence, src, dst, source_port, dest_port);
    assert(p.subrange(0, 20) =~= syn_ip_header(identification, ip_sum, src, dst));
    assert(p.subrange(20, 40) =~= syn_tcp_header(source_port, dest_port, sequence, tcp_sum));
}

fn push_be16(v: &mut Vec<u8>, x: u16)
    ensures
        final(v)@ == old(v)@ + be16(x),
{
    let hi: u8 = (x >> 8u16) as u8;
    let lo: u8 = (x & 0xFF) as u8;
    assert(hi == x / 0x100 && lo == x % 0x100) by (bit_vector)
        requires
            hi == (x >> 8u16) as u8,
            lo == (x & 0xFF) as u8,
    ;
    v.push(hi);
    v.push(lo);
}

fn push_be32(v: &mut Vec<u8>, x: u32)
    ensures
        final(v)@ == old(v)@ + be32(x),
{
    let b1: u8 = (x >> 24u32) as u8;
    let b2: u8 = ((x >> 16u32) & 0xFF) as u8;
    let b3: u8 = ((x >> 8u32) & 0xFF) as u8;
    let b4: u8 = (x & 0xFF) as u8;
    assert(b1 == x / 0x1000000 && b2 == (x / 0x10000) % 0x100 && b3 == (x / 0x100) % 0x100 && b4
        == x % 0x100) by (bit_vector)
        requires
            b1 == (x >> 24u32) as u8,
            b2 == ((x >> 16u32) & 0xFF) as u8,
            b3 == ((x >> 8u32) & 0xFF) as u8,
            b4 == (x & 0xFF) as u8,
    ;
    v.push(b1);
    v.push(b2);
    v.push(b3);
    v.push(b4);
}

fn push_octets(v: &mut Vec<u8>, a: Ipv4Addr)
    ensures
        final(v)@ == old(v)@ + a.octet_seq(),
{
    v.push(a.0);
    v.push(a.1);
    v.push(a.2);
    v.push(a.3);
}

fn syn_ip_header_bytes(identification: u16, checksum: u16, src: Ipv4Addr, dst: Ipv4Addr) -> (r: Vec<u8>)
    ensures
        r@ == syn_ip_header(identification, checksum, src, dst),
{
    let mut v: Vec<u8> = Vec::new();
    v.push(0x45);
    v.push(0);
    push_be16(&mut v, 40);
    push_be16(&mut v, identification);
    push_be16(&mut v, 0x4000);
    v.push(64);
    v.push(6);
    push_be16(&mut v, checksum);
    push_octets(&mut v, src);
    push_octets(&mut v, dst);
    assert(v@ =~= syn_ip_header(identification, checksum, src, dst));
    v
}

fn syn_tcp_header_bytes(source_port: u16, dest_port: u16, sequence: u32, checksum: u16) -> (r: Vec<u8>)
    ensures
        r@ == syn_tcp_header(source_port, dest_port, sequence, checksum),
{
    let mut v: Vec<u8> = Vec::new();
    push_be16(&mut v, source_port);
    push_be16(&mut v, dest_port);
    push_be32(&mut v, sequence);
    push_be32(&mut v, 0);
    push_be16(&mut v, TCP_DATA_OFFSET | TCP_SYN_FLAG);
    assert(TCP_DATA_OFFSET | TCP_SYN_FLAG == 0x5002u16) by (bit_vector);
    push_be16(&mut v, 64240);
    push_be16(&mut v, checksum);
    push_be16(&mut v, 0);
    assert(v@ =~= syn_tcp_header(source_port, dest_port, sequence, checksum));
    v
}

fn append_bytes(v: &mut Vec<u8>, w: &Vec<u8>)
    ensures
        final(v)@ == old(v)@ + w@,
{
    let mut i: usize = 0;
    while i < w.len()
        invariant
            i <= w.len(),
            v@ == old(v)@ + w@.take(i as int),
        decreases w.len() - i,
    {
        v.push(w[i]);
        i = i + 1;
        assert(w@.take(i as int) =~= w@.take(i - 1) + seq![w@[i - 1]]);
    }
    assert(w@.take(w.len() as int) =~= w@);
}

/// Builds the SYN probe from `src:source_port` to `dst:dest_port`, with the
/// given IP identification and TCP sequence number; both checksums are filled
/// in.
pub fn build_syn_packet(
    identification: u16,
    sequence: u32,
    src: Ipv4Addr,
    dst: Ipv4Addr,
    source_port: u16,
    dest_port: u16,
) -> (packet: Vec<u8>)
    ensures
        packet@ == syn_packet(identification, sequence, src, dst, source_port, dest_port),
        packet@.len() == IP_HEADER_SIZE + TCP_HEADER_SIZE,
{
    let ip0 = syn_ip_header_bytes(identification, 0, src, dst);
    proof {
        lemma_word_sum_bound(ip0@);
    }
    let ip_sum = calculate_checksum(ip0.as_slice());
    let mut pseudo: Vec<u8> = Vec::new();
    push_octets(&mut pseudo, src);
    push_octets(&mut pseudo, dst);
    pseudo.push(0);
    pseudo.push(6);
    push_be16(&mut pseudo, TCP_HEADER_SIZE as u16);
    assert(pseudo@ =~= syn_pseudo_header(src, dst));
    let tcp0 = syn_tcp_header_bytes(source_port, dest_port, sequence, 0);
    append_bytes(&mut pseudo, &tcp0);
    proof {
        lemma_word_sum_bound(pseudo@);
    }
    let tcp_sum = calculate_checksum(pseudo.as_slice());
    let mut packet = syn_ip_header_bytes(identification, ip_sum, src, dst);
    let tcp = syn_tcp_header_bytes(source_port, dest_port, sequence, tcp_sum);
    append_bytes(&mut packet, &tcp);
    packet
}


/// The big-endian 16-bit value at byte `i` of `p`.
pub open spec fn be16_at(p: Seq<u8>, i: int) -> u16 {
    (p[i] as int * 0x100 + p[i + 1] as int) as u16
}

/// What a received packet says about the probe from local port `source_port`
/// to `dest_ip:dest_port`: `Some(true)` for a SYN-ACK (open), `Some(false)` for
/// a RST (closed), `None` when the packet is not a relevant answer.
pub open spec fn syn_response_verdict(p: Seq<u8>, source_port: u16, dest_ip: Ipv4Addr, dest_port: u16) -> Option<bool> {
    if p.len() < 40 {
        None
    } else if !(p[9] == 6 && p.subrange(12, 16) == dest_ip.octet_seq()) {
        None
    } else {
        let off = (p[0] % 16) as int * 4;
        if p.len() < off + 20 {
            None
        } else if be16_at(p, off) == dest_port && be16_at(p, off + 2) == source_port {
            let flags: u16 = be16_at(p, off + 12) & 0x3F;
            if flags & 0x12 == 0x12 {
                Some(true)
            } else if flags & 0x04 != 0 {
                Some(false)
            } else {
                None
            }
        } else {
            None
        }
    }
}

fn read_be16(p: &[u8], i: usize) -> (r: u16)
    requires
        i + 1 < p@.len(),
    ensures
        r == be16_at(p@, i as int),
{
    (p[i] as u16) * 256 + (p[i + 1] as u16)
}

/// Decides what one received packet means for a pending SYN probe; the answer
/// is the part of waiting for a response that does not depend on the socket.
pub fn classify_syn_response(packet: &[u8], source_port: u16, dest_ip: Ipv4Addr, dest_port: u16) -> (r: Option<bool>)
    ensures
        r == syn_response_verdict(packet@, source_port, dest_ip, dest_port),
{
    let size = packet.len();
    if size < IP_HEADER_SIZE + TCP_HEADER_SIZE {
        return None;
    }
    let proto = packet[9];
    let same_src = packet[12] == dest_ip.0 && packet[13] == dest_ip.1 && packet[14] == dest_ip.2
        && packet[15] == dest_ip.3;
    assert(same_src == (packet@.subrange(12, 16) == dest_ip.octet_seq())) by {
        if same_src {
            assert(packet@.subrange(12, 16) =~= dest_ip.octet_seq());
        }
    }
    if !(proto == 6 && same_src) {
        return None;
    }
    let tcp_offset: usize = ((packet[0] & 0x0F) as usize) * 4;
    let b0 = packet[0];
    assert((b0 & 0x0F) == b0 % 16) by (bit_vector);
    if size < tcp_offset + TCP_HEADER_SIZE {
        return None;
    }
    let src_port = read_be16(packet, tcp_offset);
    let dst_port = read_be16(packet, tcp_offset + 2);
    let flags: u16 = read_be16(packet, tcp_offset + 12) & 0x3F;
    if src_port == dest_port && dst_port == source_port {
        if (flags & (TCP_SYN_FLAG | TCP_ACK_FLAG)) == (TCP_SYN_FLAG | TCP_ACK_FLAG) {
            assert(TCP_SYN_FLAG | TCP_ACK_FLAG == 0x12u16) by (bit_vector);
            return Some(true);
        }
        if (flags & TCP_RST_FLAG) != 0 {
            assert(TCP_SYN_FLAG | TCP_ACK_FLAG == 0x12u16) by (bit_vector);
            return Some(false);
        }
        assert(TCP_SYN_FLAG | TCP_ACK_FLAG == 0x12u16) by (bit_vector);
    }
    None
}

/// `p` holds a complete TCP header, after its IP header, sent from
/// `dest_ip:dest_port` to local port `source_port`.
pub open spec fn is_reply_segment(p: Seq<u8>, source_port: u16, dest_ip: Ipv4Addr, dest_port: u16) -> bool {
    let off = (p[0] % 16) as int * 4;
    &&& p.len() >= 40
    &&& p.len() >= off + 20
    &&& p[9] == 6
    &&& p[12] == dest_ip.0 && p[13] == dest_ip.1 && p[14] == dest_ip.2 && p[15] == dest_ip.3
    &&& p[off] as int * 256 + p[off + 1] as int == dest_port as int
    &&& p[off + 2] as int * 256 + p[off + 3] as int == source_port as int
}

proof fn lemma_flag_bits(hi: u8, lo: u8, x: u16)
    by (bit_vector)
    requires
        x == (hi as u16) * 256 + (lo as u16),
    ensures
        ((x & 0x3F) & 0x12 == 0x12) == (lo & 0x12 == 0x12),
        ((x & 0x3F) & 0x04 != 0) == (lo & 0x04 != 0),
{
}

proof fn lemma_reply_segment_fields(p: Seq<u8>, source_port: u16, dest_ip: Ipv4Addr, dest_port: u16)
    requires
        is_reply_segment(p, source_port, dest_ip, dest_port),
    ensures
        ({
            let off = (p[0] % 16) as int * 4;
            &&& p.subrange(12, 16) == dest_ip.octet_seq()
            &&& be16_at(p, off) == dest_port
            &&& be16_at(p, off + 2) == source_port
            &&& ((be16_at(p, off + 12) & 0x3F) & 0x12 == 0x12) == (p[off + 13] & 0x12 == 0x12)
            &&& ((be16_at(p, off + 12) & 0x3F) & 0x04 != 0) == (p[off + 13] & 0x04 != 0)
        }),
{
    let off = (p[0] % 16) as int * 4;
    assert(p.subrange(12, 16) =~= dest_ip.octet_seq());
    let hi = p[off + 12];
    let lo = p[off + 13];
    lemma_flag_bits(hi, lo, be16_at(p, off + 12));
}

/// A SYN-ACK from the probed address and port to the probe's local port means
/// the port is open, however long the packet is (TCP options included).
pub proof fn lemma_syn_ack_means_open(p: Seq<u8>, source_port: u16, dest_ip: Ipv4Addr, dest_port: u16)
    requires
        is_reply_segment(p, source_port, dest_ip, dest_port),
        p[(p[0] % 16) as int * 4 + 13] & 0x12 == 0x12,
    ensures
        syn_response_verdict(p, source_port, dest_ip, dest_port) == Some(true),
{
    lemma_reply_segment_fields(p, source_port, dest_ip, dest_port);
}

/// A reset (without SYN and ACK both set) from the probed address and port to
/// the probe's local port means the port is closed, however long the packet is.
pub proof fn lemma_rst_means_closed(p: Seq<u8>, source_port: u16, dest_ip: Ipv4Addr, dest_port: u16)
    requires
        is_reply_segment(p, source_port, dest_ip, dest_port),
        p[(p[0] % 16) as int * 4 + 13] & 0x12 != 0x12,
        p[(p[0] % 16) as int * 4 + 13] & 0x04 != 0,
    ensures
        syn_response_verdict(p, source_port, dest_ip, dest_port) == Some(false),
{
    lemma_reply_segment_fields(p, source_port, dest_ip, dest_port);
}

/// Only a TCP segment from the probed address and port to the probe's local
/// port can answer the probe.
pub proof fn lemma_only_replies_answer(p: Seq<u8>, source_port: u16, dest_ip: Ipv4Addr, dest_port: u16)
    requires
        syn_response_verdict(p, source_port, dest_ip, dest_port) is Some,
    ensures
        is_reply_segment(p, source_port, dest_ip, dest_port),
{
    let off = (p[0] % 16) as int * 4;
    assert(p.subrange(12, 16)[0] == p[12] && p.subrange(12, 16)[1] == p[13]);
    assert(p.subrange(12, 16)[2] == p[14] && p.subrange(12, 16)[3] == p[15]);
}

/// Bytes after the TCP header (options, payload) do not change what a packet
/// says: extending a packet whose TCP header is complete keeps its verdict.
pub proof fn lemma_verdict_ignores_trailing_bytes(
    p: Seq<u8>,
    q: Seq<u8>,
    source_port: u16,
    dest_ip: Ipv4Addr,
    dest_port: u16,
)
    requires
        p.len() >= 40,
        p.len() >= (p[0] % 16) as int * 4 + 20,
        q.len() >= p.len(),
        q.subrange(0, p.len() as int) == p,
    ensures
        syn_response_verdict(q, source_port, dest_ip, dest_port) == syn_response_verdict(
            p,
            source_port,
            dest_ip,
            dest_port,
        ),
{
    assert forall|i: int| 0 <= i < p.len() implies q[i] == p[i] by {
        assert(q.subrange(0, p.len() as int)[i] == q[i]);
    }
    assert(q.subrange(12, 16) =~= p.subrange(12, 16));
    let off = (p[0] % 16) as int * 4;
    assert(be16_at(q, off) == be16_at(p, off));
    assert(be16_at(q, off + 2) == be16_at(p, off + 2));
    assert(be16_at(q, off + 12) == be16_at(p, off + 12));
}

/// Get the default source IP address
pub fn get_default_source_ip() -> (r: Ipv4Addr)
    ensures
        r == Ipv4Addr(127, 0, 0, 1),
{
    Ipv4Addr::new(127, 0, 0, 1)
}

/// `rand::random::<u16>()`: a uniformly drawn 16-bit value. Nothing is promised
/// of which value comes back.
#[verifier::external_body]
fn random_u16() -> u16 {
    rand::random::<u16>()
}

/// `rand::random::<u32>()`: a uniformly drawn 32-bit value. Nothing is promised
/// of which value comes back.
#[verifier::external_body]
fn random_u32() -> u32 {
    rand::random::<u32>()
}

/// A fresh SYN probe from the default source address, with a random IP
/// identification and TCP sequence number.
pub fn new_syn_packet(source_port: u16, dest_ip: Ipv4Addr, dest_port: u16) -> (packet: Vec<u8>)
    ensures
        exists|identification: u16, sequence: u32|
            packet@ == syn_packet(
                identification,
                sequence,
                Ipv4Addr(127, 0, 0, 1),
                dest_ip,
                source_port,
                dest_port,
            ),
{
    let local_ip = get_default_source_ip();
    let identification = random_u16();
    let sequence = random_u32();
    build_syn_packet(identification, sequence, local_ip, dest_ip, source_port, dest_port)
}

/// `rng.gen_range(low..high)` on the thread-local generator: a value drawn from
/// `[low, high)`; the range must not be empty.
#[verifier::external_body]
fn random_u16_in(low: u16, high: u16) -> (r: u16)
    requires
        low < high,
    ensures
        low <= r < high,
{
    rand::thread_rng().gen_range(low..high)
}

/// Picks the local port of a probe, at random from the dynamic range.
pub fn pick_source_port() -> (port: u16)
    ensures
        49152 <= port < 65535,
{
    random_u16_in(49152, 65535)
}


/// Configuration for the scanner
#[derive(Debug, Clone)]
pub struct ScanConfig {
    pub targets: Vec<Target>,
    /// Response timeout in milliseconds.
    pub timeout_ms: u64,
    /// Maximum number of concurrent scans.
    pub max_concurrent_scans: usize,
    /// A progress report is due after every this many results.
    pub batch_report_size: usize,
    /// Number of retries for ambiguous results.
    pub retry_count: u8,
}

/// `num_cpus::get()`: the number of logical CPUs available to this process,
/// which the crate documents to be at least 1. Which number comes back
/// depends on the machine.
#[verifier::external_body]
fn available_cpus() -> (n: usize)
    ensures
        n >= 1,
{
    num_cpus::get()
}

/// Fifty concurrent scans per CPU, capped at `usize::MAX`.
pub open spec fn concurrent_scans_spec(cpus: usize) -> usize {
    if cpus <= usize::MAX / 50 {
        (cpus * 50) as usize
    } else {
        usize::MAX
    }
}

/// The number of concurrent scans the default configuration allows on a
/// machine with `cpus` CPUs.
pub fn concurrent_scans_for(cpus: usize) -> (n: usize)
    ensures
        n == concurrent_scans_spec(cpus),
{
    if cpus <= usize::MAX / 50 {
        cpus * 50
    } else {
        usize::MAX
    }
}

impl Default for ScanConfig {
    /// No targets, a 100 ms timeout, fifty concurrent scans per CPU of this
    /// machine, a report every 100 results and one retry.
    fn default() -> (config: Self)
        ensures
            config.targets@ == Seq::<Target>::empty(),
            config.timeout_ms == 100,
            exists|cpus: usize| cpus >= 1 && config.max_concurrent_scans == concurrent_scans_spec(cpus),
            config.batch_report_size == 100,
            config.retry_count == 1,
    {
        let cpus = available_cpus();
        ScanConfig {
            targets: Vec::new(),
            timeout_ms: 100,
            max_concurrent_scans: concurrent_scans_for(cpus),
            batch_report_size: 100,
            retry_count: 1,
        }
    }
}

pub open spec fn is_ipv4_target(t: Target) -> bool {
    t.addr is V4
}

/// The IPv4 targets of `targets`, in order; a raw SYN scan skips the others.
pub fn ipv4_targets(targets: &Vec<Target>) -> (r: Vec<Target>)
    ensures
        r@ == targets@.filter(|t: Target| is_ipv4_target(t)),
{
    let mut r: Vec<Target> = Vec::new();
    let mut i: usize = 0;
    while i < targets.len()
        invariant
            i <= targets@.len(),
            r@ == targets@.take(i as int).filter(|t: Target| is_ipv4_target(t)),
        decreases targets@.len() - i,
    {
        let t = targets[i];
        proof {
            reveal_with_fuel(Seq::<Target>::filter, 1);
            assert(targets@.take(i + 1).drop_last() =~= targets@.take(i as int));
        }
        if let IpAddr::V4(_) = t.addr {
            r.push(t);
        }
        i = i + 1;
    }
    assert(targets@.take(targets@.len() as int) =~= targets@);
    r
}

/// Simple helper function to create common port ranges
pub fn create_port_range(addr: IpAddr, start_port: u16, end_port: u16) -> (targets: Vec<Target>)
    requires
        start_port <= end_port,
        end_port - start_port < u16::MAX,
    ensures
        targets@ == port_range_targets(addr, start_port, end_port),
{
    let mut targets: Vec<Target> = Vec::with_capacity((end_port - start_port + 1) as usize);
    let mut port: u32 = start_port as u32;
    while port <= end_port as u32
        invariant
            start_port <= port <= end_port as u32 + 1,
            targets@ =~= port_range_targets(addr, start_port, end_port).take(port - start_port),
        decreases end_port as u32 + 1 - port,
    {
        targets.push(Target { addr, port: port as u16 });
        port = port + 1;
    }
    targets
}

/// The whole budget for probing one target: a timeout per attempt, one more
/// for good measure, and half a second.
pub fn hard_timeout_ms(timeout_ms: u64, retry_count: u8) -> (ms: u64)
    requires
        timeout_ms * (retry_count + 2) + 500 <= u64::MAX,
    ensures
        ms == timeout_ms * (retry_count + 2) + 500,
{
    timeout_ms * (retry_count as u64 + 2) + 500
}

/// The address a SYN probe is sent to. A raw SYN probe is IPv4 only: any other
/// target is reported closed at once, with no response time.
pub fn probe_address(target: Target) -> (r: Result<Ipv4Addr, ScanResult>)
    ensures
        match target.addr {
            IpAddr::V4(a) => r == Ok::<Ipv4Addr, ScanResult>(a),
            _ => r == Err::<Ipv4Addr, ScanResult>(
                ScanResult { addr: target.addr, port: target.port, state: PortState::Closed, response_time_ms: 0 },
            ),
        },
{
    match target.addr {
        IpAddr::V4(a) => Ok(a),
        _ => Err(ScanResult { addr: target.addr, port: target.port, state: PortState::Closed, response_time_ms: 0 }),
    }
}

/// The result reported for a target whose probing ran out of its whole budget.
pub fn timed_out_result(target: Target, timeout_ms: u64, retry_count: u8) -> (r: ScanResult)
    requires
        timeout_ms * (retry_count + 1) <= u64::MAX,
    ensures
        r == (ScanResult {
            addr: target.addr,
            port: target.port,
            state: PortState::Closed,
            response_time_ms: (timeout_ms * (retry_count + 1)) as u64,
        }),
{
    ScanResult {
        addr: target.addr,
        port: target.port,
        state: PortState::Closed,
        response_time_ms: timeout_ms * (retry_count as u64 + 1),
    }
}

/// Which socket of a pool of `pool_len` serves `port`.
pub fn socket_index(port: u16, pool_len: usize) -> (i: usize)
    requires
        pool_len > 0,
    ensures
        i == port as int % pool_len as int,
        i < pool_len,
{
    (port as usize) % pool_len
}

/// What came of one attempt at probing a target.
#[derive(Debug, Clone, Copy, PartialEq, Eq, Structural)]
pub enum ProbeOutcome {
    /// The SYN packet could not be sent.
    SendFailed,
    /// The receiving socket could not be duplicated.
    SocketCloneFailed,
    /// A SYN-ACK came back.
    Open,
    /// A RST came back.
    Closed,
    /// Receiving failed.
    ReceiveFailed,
    /// The receiving task failed.
    TaskFailed,
    /// No answer within the timeout.
    TimedOut,
}

/// The attempts at one target: up to `retry_count + 1` of them, until a
/// SYN-ACK or a RST settles the state. The state stays closed unless an
/// attempt sees the port open.
pub struct ProbeAttempts {
    pub retry_count: u8,
    /// Index of the next attempt.
    pub attempt: u16,
    pub state: PortState,
    pub settled: bool,
}

impl ProbeAttempts {
    pub fn new(retry_count: u8) -> (r: Self)
        ensures
            r == (ProbeAttempts { retry_count, attempt: 0, state: PortState::Closed, settled: false }),
    {
        ProbeAttempts { retry_count, attempt: 0, state: PortState::Closed, settled: false }
    }

    /// The index of the next attempt, or `None` when probing is over.
    pub fn next_attempt(&self) -> (r: Option<u16>)
        ensures
            r == (if !self.settled && self.attempt <= self.retry_count {
                Some(self.attempt)
            } else {
                None
            }),
    {
        if !self.settled && self.attempt <= self.retry_count as u16 {
            Some(self.attempt)
        } else {
            None
        }
    }

    /// Takes in the outcome of the current attempt.
    pub fn record(&mut self, outcome: ProbeOutcome)
        requires
            !old(self).settled,
            old(self).attempt <= old(self).retry_count,
        ensures
            final(self).retry_count == old(self).retry_count,
            final(self).attempt == old(self).attempt + 1,
            final(self).state == match outcome {
                ProbeOutcome::Open => PortState::Open,
                ProbeOutcome::Closed => PortState::Closed,
                _ => old(self).state,
            },
            final(self).settled == match outcome {
                ProbeOutcome::Open | ProbeOutcome::Closed => true,
                ProbeOutcome::SendFailed | ProbeOutcome::SocketCloneFailed => false,
                _ => old(self).attempt >= old(self).retry_count,
            },
    {
        match outcome {
            ProbeOutcome::Open => {
                self.state = PortState::Open;
                self.settled = true;
            },
            ProbeOutcome::Closed => {
                self.state = PortState::Closed;
                self.settled = true;
            },
            ProbeOutcome::SendFailed | ProbeOutcome::SocketCloneFailed => {},
            _ => {
                if self.attempt >= self.retry_count as u16 {
                    self.settled = true;
                }
            },
        }
        self.attempt = self.attempt + 1;
    }
}

/// Counters of a concurrent scan, updated as results arrive.
pub struct ScanProgress {
    pub total: usize,
    pub batch_size: usize,
    pub count: usize,
    pub open: usize,
    pub closed: usize,
}

/// How many of `states` are `state`.
pub open spec fn count_of(states: Seq<PortState>, state: PortState) -> nat
    decreases states.len(),
{
    if states.len() == 0 {
        0
    } else {
        count_of(states.drop_last(), state) + if states.last() == state {
            1nat
        } else {
            0nat
        }
    }
}

impl ScanProgress {
    /// The counters after one more result in `state`.
    pub open spec fn after_record(self, state: PortState) -> ScanProgress {
        ScanProgress {
            count: (self.count + 1) as usize,
            open: if state == PortState::Open {
                (self.open + 1) as usize
            } else {
                self.open
            },
            closed: if state == PortState::Open {
                self.closed
            } else {
                (self.closed + 1) as usize
            },
            ..self
        }
    }

    /// The counters after results in `states`, in order.
    pub open spec fn after_records(self, states: Seq<PortState>) -> ScanProgress
        decreases states.len(),
    {
        if states.len() == 0 {
            self
        } else {
            self.after_records(states.drop_last()).after_record(states.last())
        }
    }

    pub fn new(total: usize, batch_size: usize) -> (p: Self)
        ensures
            p == (ScanProgress { total, batch_size, count: 0, open: 0, closed: 0 }),
    {
        ScanProgress { total, batch_size, count: 0, open: 0, closed: 0 }
    }

    /// Counts one more result; returns whether a progress report is due
    /// (after every `batch_size` results, and after the last one).
    pub fn record(&mut self, state: PortState) -> (report_due: bool)
        requires
            old(self).count < usize::MAX,
            old(self).open + old(self).closed == old(self).count,
            old(self).batch_size > 0,
        ensures
            *final(self) == old(self).after_record(state),
            final(self).total == old(self).total,
            final(self).batch_size == old(self).batch_size,
            final(self).count == old(self).count + 1,
            final(self).open + final(self).closed == final(self).count,
            final(self).open == old(self).open + if state == PortState::Open { 1int } else { 0 },
            report_due == (final(self).count % final(self).batch_size == 0 || final(self).count
                == final(self).total),
    {
        self.count = self.count + 1;
        if state == PortState::Open {
            self.open = self.open + 1;
        } else {
            self.closed = self.closed + 1;
        }
        self.count % self.batch_size == 0 || self.count == self.total
    }
}

/// Counting the results of a scan from the start, one record per result:
/// the count is the number of results, and the open and closed counters are
/// the numbers of open and of closed ones. So after one result per IPv4
/// target the count equals the number of targets, and the last record
/// announces the final report.
pub proof fn lemma_progress_counts(total: usize, batch_size: usize, states: Seq<PortState>)
    requires
        states.len() <= usize::MAX,
    ensures
        ({
            let p = (ScanProgress { total, batch_size, count: 0, open: 0, closed: 0 }).after_records(
                states,
            );
            &&& p.count == states.len()
            &&& p.open == count_of(states, PortState::Open)
            &&& p.closed == count_of(states, PortState::Closed)
            &&& p.total == total
            &&& p.batch_size == batch_size
        }),
    decreases states.len(),
{
    if states.len() > 0 {
        lemma_progress_counts(total, batch_size, states.drop_last());
        lemma_count_of_bound(states.drop_last(), PortState::Open);
        lemma_count_of_bound(states.drop_last(), PortState::Closed);
    }
}

proof fn lemma_count_of_bound(states: Seq<PortState>, state: PortState)
    ensures
        count_of(states, state) <= states.len(),
    decreases states.len(),
{
    if states.len() > 0 {
        lemma_count_of_bound(states.drop_last(), state);
    }
}

/// What the heartbeat saw at one of its ticks.
#[derive(Debug, Clone, Copy, PartialEq, Eq, Structural)]
pub struct HeartbeatVerdict {
    /// Number of consecutive ticks without progress (zero when progress was made).
    pub stuck_ticks: u32,
    /// Every target has a result: the heartbeat stops.
    pub finished: bool,
}

/// Watches the number of processed targets at regular ticks.
pub struct Heartbeat {
    pub total: usize,
    pub last_count: usize,
    pub stuck_count: u32,
}

impl Heartbeat {
    pub fn new(total: usize) -> (h: Self)
        ensures
            h == (Heartbeat { total, last_count: 0, stuck_count: 0 }),
    {
        Heartbeat { total, last_count: 0, stuck_count: 0 }
    }

    /// One tick with `current` targets processed.
    pub fn tick(&mut self, current: usize) -> (v: HeartbeatVerdict)
        ensures
            final(self).total == old(self).total,
            final(self).last_count == current,
            final(self).stuck_count == (if current == old(self).last_count && current < old(self).total {
                if old(self).stuck_count < u32::MAX { old(self).stuck_count + 1 } else { u32::MAX as int }
            } else {
                0
            }),
            v == (HeartbeatVerdict { stuck_ticks: final(self).stuck_count, finished: current >= old(self).total }),
    {
        if current == self.last_count && current < self.total {
            self.stuck_count = self.stuck_count.saturating_add(1);
        } else {
            self.stuck_count = 0;
        }
        self.last_count = current;
        HeartbeatVerdict { stuck_ticks: self.stuck_count, finished: current >= self.total }
    }
}

} // verus!
