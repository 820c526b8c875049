use vstd::prelude::*;
use vstd::string::StrSliceExecFns;

verus! {

/// Address of the GeoIP service.
pub const BASE_URL: &'static str = "https://get.geojs.io/v1/ip/geo";

pub open spec fn is_ascii_digit(c: char) -> bool {
    '0' <= c <= '9'
}

pub open spec fn all_digits(s: Seq<char>) -> bool {
    forall|i: int| 0 <= i < s.len() ==> is_ascii_digit(s[i])
}

/// Value of a string of decimal digits.
pub open spec fn decimal_value(s: Seq<char>) -> nat
    decreases s.len(),
{
    if s.len() == 0 {
        0
    } else {
        decimal_value(s.drop_last()) * 10 + (s.last() as nat - '0' as nat) as nat
    }
}

/// `s` is one field of a dotted-quad address: at least one decimal digit and
/// nothing else (leading zeros allowed), with a value of at most 255.
pub open spec fn is_octet_field(s: Seq<char>) -> bool {
    s.len() > 0 && all_digits(s) && decimal_value(s) <= 255
}

/// The pieces of `s` between dots, as `str::split('.')` yields them.
pub open spec fn split_dots(s: Seq<char>) -> Seq<Seq<char>>
    decreases s.len(),
{
    if s.len() == 0 {
        seq![Seq::empty()]
    } else {
        let p = split_dots(s.drop_last());
        if s.last() == '.' {
            p.push(Seq::empty())
        } else {
            p.update(p.len() - 1, p.last().push(s.last()))
        }
    }
}

/// Four dot-separated pieces, each a decimal number from 0 to 255.
pub open spec fn is_valid_ip_spec(s: Seq<char>) -> bool {
    let parts = split_dots(s);
    parts.len() == 4 && forall|i: int| 0 <= i < 4 ==> is_octet_field(#[trigger] parts[i])
}

/// `s` is an IPv4 address in the form that the standard library's address
/// parser accepts: four dot-separated fields of one to three digits, without
/// leading zeros, each at most 255.
pub open spec fn is_canonical_ipv4_text(s: Seq<char>) -> bool {
    let parts = split_dots(s);
    parts.len() == 4 && forall|i: int|
        0 <= i < 4 ==> {
            let f = #[trigger] parts[i];
            &&& 1 <= f.len() <= 3
            &&& all_digits(f)
            &&& f.len() > 1 ==> f[0] != '0'
            &&& decimal_value(f) <= 255
        }
}

/// Every address written as the standard dotted quad passes the address check.
pub proof fn lemma_canonical_ipv4_is_valid(s: Seq<char>)
    requires
        is_canonical_ipv4_text(s),
    ensures
        is_valid_ip_spec(s),
{
    let parts = split_dots(s);
    assert forall|i: int| 0 <= i < 4 implies is_octet_field(#[trigger] parts[i]) by {}
}

proof fn lemma_split_dots_len(s: Seq<char>)
    ensures
        split_dots(s).len() >= 1,
    decreases s.len(),
{
    if s.len() > 0 {
        lemma_split_dots_len(s.drop_last());
    }
}

proof fn lemma_decimal_value_grows(s: Seq<char>, i: int)
    requires
        0 <= i <= s.len(),
    ensures
        decimal_value(s.take(i)) <= decimal_value(s),
    decreases s.len() - i,
{
    if i < s.len() {
        assert(s.drop_last().take(i) =~= s.take(i));
        lemma_decimal_value_grows(s.drop_last(), i);
    } else {
        assert(s.take(i) =~= s);
    }
}

/// Whether characters `from..to` of `s` form an address field.
fn segment_is_octet_field(s: &str, from: usize, to: usize) -> (r: bool)
    requires
        from <= to <= s@.len(),
    ensures
        r == is_octet_field(s@.subrange(from as int, to as int)),
{
    let ghost seg = s@.subrange(from as int, to as int);
    if from == to {
        return false;
    }
    let mut value: u32 = 0;
    let mut i = from;
    while i < to
        invariant
            from <= i <= to <= s@.len(),
            seg == s@.subrange(from as int, to as int),
            all_digits(seg.take(i - from)),
            value == decimal_value(seg.take(i - from)),
            value <= 255,
        decreases to - i,
    {
        let c = s.get_char(i);
        if !('0' <= c && c <= '9') {
            assert(seg[i - from] == c);
            assert(!all_digits(seg));
            return false;
        }
        let d = (c as u32) - ('0' as u32);
        value = value * 10 + d;
        i = i + 1;
        proof {
            let t = seg.take(i - from);
            assert(t.drop_last() =~= seg.take(i - 1 - from));
            assert(t.last() == c);
        }
        if value > 255 {
            proof {
                lemma_decimal_value_grows(seg, i - from);
            }
            return false;
        }
    }
    assert(seg.take(to - from) =~= seg);
    true
}

proof fn lemma_split_dots_grows(s: Seq<char>, i: int)
    requires
        0 <= i <= s.len(),
    ensures
        split_dots(s.take(i)).len() <= split_dots(s).len(),
    decreases s.len() - i,
{
    if i < s.len() {
        assert(s.drop_last().take(i) =~= s.take(i));
        lemma_split_dots_grows(s.drop_last(), i);
        lemma_split_dots_len(s.drop_last());
    } else {
        assert(s.take(i) =~= s);
    }
}

// Function to check if a string is a valid IP address
pub fn is_valid_ip(ip: &str) -> (r: bool)
    ensures
        r == is_valid_ip_spec(ip@),
{
    let n = ip.unicode_len();
    let mut seg_start: usize = 0;
    let mut count: usize = 1;
    let mut all_ok = true;
    let mut i: usize = 0;
    assert(ip@.take(0) =~= Seq::<char>::empty());
    assert(ip@.subrange(0, 0) =~= Seq::<char>::empty());
    while i < n
        invariant
            n == ip@.len(),
            seg_start <= i <= n,
            1 <= count <= 4,
            split_dots(ip@.take(i as int)).len() == count,
            split_dots(ip@.take(i as int)).last() == ip@.subrange(seg_start as int, i as int),
            all_ok == forall|j: int|
                0 <= j < count - 1 ==> is_octet_field(#[trigger] split_dots(ip@.take(i as int))[j]),
        decreases n - i,
    {
        let c = ip.get_char(i);
        let ghost p = split_dots(ip@.take(i as int));
        let ghost t = ip@.take(i + 1);
        assert(t.drop_last() =~= ip@.take(i as int));
        assert(t.last() == c);
        assert(t.len() > 0);
        let ghost q = split_dots(t);
        if c == '.' {
            if count == 4 {
                proof {
                    assert(q.len() == 5);
                    lemma_split_dots_grows(ip@, i + 1);
                    assert(ip@.take(n as int) =~= ip@);
                }
                return false;
            }
            let ok = segment_is_octet_field(ip, seg_start, i);
            let ghost old_ok = all_ok;
            all_ok = all_ok && ok;
            count = count + 1;
            seg_start = i + 1;
            proof {
                assert(q == p.push(Seq::empty()));
                assert(ip@.subrange(seg_start as int, i + 1) =~= Seq::<char>::empty());
                assert(forall|j: int| 0 <= j < count - 2 ==> #[trigger] q[j] == p[j]);
                assert(q[count - 2] == p.last());
                assert(ok == is_octet_field(q[count - 2]));
                assert(old_ok == forall|j: int| 0 <= j < count - 2 ==> is_octet_field(#[trigger] p[j]));
                if all_ok {
                    assert forall|j: int| 0 <= j < count - 1 implies is_octet_field(#[trigger] q[j]) by {
                        if j < count - 2 {
                            assert(q[j] == p[j]);
                        }
                    }
                } else if !ok {
                    assert(!is_octet_field(q[count - 2]));
                } else {
                    let j = choose|j: int| 0 <= j < count - 2 && !is_octet_field(#[trigger] p[j]);
                    assert(q[j] == p[j]);
                }
                assert(all_ok == (forall|j: int| 0 <= j < count - 1 ==> is_octet_field(#[trigger] q[j])));
            }
        } else {
            proof {
                assert(q == p.update(p.len() - 1, p.last().push(c)));
                assert(q.last() =~= ip@.subrange(seg_start as int, i + 1));
                assert(forall|j: int| 0 <= j < count - 1 ==> #[trigger] q[j] == p[j]);
                if !all_ok {
                    let j = choose|j: int| 0 <= j < count - 1 && !is_octet_field(#[trigger] p[j]);
                    assert(q[j] == p[j]);
                }
                assert(all_ok == (forall|j: int| 0 <= j < count - 1 ==> is_octet_field(#[trigger] q[j])));
            }
        }
        i = i + 1;
    }
    assert(ip@.take(n as int) =~= ip@);
    if count != 4 {
        return false;
    }
    let last_ok = segment_is_octet_field(ip, seg_start, n);
    proof {
        let parts = split_dots(ip@);
        if all_ok && last_ok {
            assert forall|j: int| 0 <= j < 4 implies is_octet_field(#[trigger] parts[j]) by {
                if j == 3 {
                    assert(parts[j] == parts.last());
                }
            }
        } else if !last_ok {
            assert(parts[3] == parts.last());
        }
    }
    all_ok && last_ok
}

// Function to check if a string is a valid domain
pub fn is_valid_domain(domain: &str) -> (r: bool)
    ensures
        r == domain@.contains('.'),
{
    let n = domain.unicode_len();
    let mut i: usize = 0;
    while i < n
        invariant
            n == domain@.len(),
            i <= n,
            forall|j: int| 0 <= j < i ==> domain@[j] != '.',
        decreases n - i,
    {
        if domain.get_char(i) == '.' {
            return true;
        }
        i = i + 1;
    }
    false
}


/// The address of the service's answer for `ip`, or for the caller's own
/// address when no (or an empty) `ip` is given.
pub open spec fn geoip_url_spec(ip: Option<Seq<char>>) -> Seq<char> {
    match ip {
        Some(a) => if a.len() > 0 {
            BASE_URL@ + "/"@ + a + ".json"@
        } else {
            BASE_URL@ + ".json"@
        },
        None => BASE_URL@ + ".json"@,
    }
}

/// The request URL that `get_geoip_data` fetches.
pub fn geoip_url(ip: Option<&str>) -> (url: String)
    ensures
        url@ == geoip_url_spec(match ip {
            Some(a) => Some(a@),
            None => None,
        }),
{
    let mut url = BASE_URL.to_owned();
    match ip {
        Some(ip_addr) => {
            if !ip_addr.is_empty() {
                url.append("/");
                url.append(ip_addr);
            }
        },
        None => {},
    }
    url.append(".json");
    url
}

} // verus!
