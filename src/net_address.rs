use vstd::prelude::*;
use vstd::string::StringSliceAdditionalSpecFns;

verus! {

/// The pieces of `s` between the separators `sep`, as `str::split` gives
/// them (an empty input is one empty piece).
pub open spec fn split_on(s: Seq<u8>, sep: u8) -> Seq<Seq<u8>>
    decreases s.len(),
{
    if s.len() == 0 {
        seq![Seq::empty()]
    } else {
        let pre = split_on(s.drop_last(), sep);
        if s.last() == sep {
            pre.push(Seq::empty())
        } else {
            pre.update(pre.len() - 1, pre.last().push(s.last()))
        }
    }
}

/// The value of an ASCII digit in base `radix` (10 or 16, either case).
pub open spec fn digit_value(b: u8, radix: nat) -> Option<nat> {
    if 0x30 <= b <= 0x39 {
        Some((b - 0x30) as nat)
    } else if radix == 16 && 0x61 <= b <= 0x66 {
        Some((b - 0x61 + 10) as nat)
    } else if radix == 16 && 0x41 <= b <= 0x46 {
        Some((b - 0x41 + 10) as nat)
    } else {
        None
    }
}

/// The value of a string of digits in base `radix`.
pub open spec fn digits_value(s: Seq<u8>, radix: nat) -> Option<nat>
    decreases s.len(),
{
    if s.len() == 0 {
        Some(0)
    } else {
        match (digits_value(s.drop_last(), radix), digit_value(s.last(), radix)) {
            (Some(v), Some(d)) => Some(v * radix + d),
            _ => None,
        }
    }
}

/// A number without its optional leading `+`.
pub open spec fn unsigned_body(s: Seq<u8>) -> Seq<u8> {
    if s.len() > 0 && s[0] == 0x2b {
        s.drop_first()
    } else {
        s
    }
}

/// An unsigned number in base `radix` at most `max`, as the standard
/// library reads one: an optional `+`, then at least one digit.
pub open spec fn unsigned_value(s: Seq<u8>, radix: nat, max: nat) -> Option<nat> {
    let body = unsigned_body(s);
    if body.len() == 0 {
        None
    } else {
        match digits_value(body, radix) {
            Some(v) => if v <= max {
                Some(v)
            } else {
                None
            },
            None => None,
        }
    }
}

/// Whether every piece reads as a number in base `radix` at most `max`.
pub open spec fn all_numbers(parts: Seq<Seq<u8>>, radix: nat, max: nat) -> bool {
    forall|i: int| 0 <= i < parts.len() ==> #[trigger] unsigned_value(parts[i], radix, max) is Some
}

/// A socket address.
#[derive(Debug)]
pub enum NetAddress {
    /// An IPv4 address (four octets) and a port.
    V4 { octets: Vec<u8>, port: u16 },
    /// An IPv6 address (eight segments) and a port.
    V6 { segments: Vec<u16>, port: u16 },
}

/// The mathematical value of a socket address.
pub enum Address {
    V4 { octets: Seq<u8>, port: u16 },
    V6 { segments: Seq<u16>, port: u16 },
}

impl View for NetAddress {
    type V = Address;

    open spec fn view(&self) -> Address {
        match self {
            NetAddress::V4 { octets, port } => Address::V4 { octets: octets@, port: *port },
            NetAddress::V6 { segments, port } => Address::V6 { segments: segments@, port: *port },
        }
    }
}

/// An IPv4 socket address `a.b.c.d:port`: every dot-separated piece must be
/// a number up to 255, and the first four are the octets.
pub open spec fn ipv4_of(host: Seq<u8>, port: Seq<u8>) -> Option<Address> {
    let pieces = split_on(host, 0x2e);
    if pieces.len() < 4 || !all_numbers(pieces, 10, 255) || unsigned_value(port, 10, 0xffff) is None {
        None
    } else {
        Some(
            Address::V4 {
                octets: Seq::new(4, |i: int| unsigned_value(pieces[i], 10, 255)->Some_0 as u8),
                port: unsigned_value(port, 10, 0xffff)->Some_0 as u16,
            },
        )
    }
}

/// An IPv6 socket address of colon-separated hexadecimal segments with the
/// port as ninth piece: every piece but the last must be a hexadecimal
/// number up to `0xffff`, and the first eight are the segments.
pub open spec fn ipv6_of(parts: Seq<Seq<u8>>) -> Option<Address> {
    if parts.len() < 9 || unsigned_value(parts[8], 10, 0xffff) is None || !all_numbers(
        parts.drop_last(),
        16,
        0xffff,
    ) {
        None
    } else {
        Some(
            Address::V6 {
                segments: Seq::new(8, |i: int| unsigned_value(parts[i], 16, 0xffff)->Some_0 as u16),
                port: unsigned_value(parts[8], 10, 0xffff)->Some_0 as u16,
            },
        )
    }
}

/// The socket address written in `s`: IPv4 when it has exactly one colon,
/// IPv6 otherwise.
pub open spec fn net_address_of(s: Seq<u8>) -> Option<Address> {
    let parts = split_on(s, 0x3a);
    if parts.len() == 2 {
        ipv4_of(parts[0], parts[1])
    } else {
        ipv6_of(parts)
    }
}

/// The views of a vector of byte strings.
pub open spec fn pieces_view(v: Seq<Vec<u8>>) -> Seq<Seq<u8>> {
    v.map_values(|p: Vec<u8>| p@)
}

/// Splits bytes on a separator.
fn split_bytes(s: &[u8], sep: u8) -> (r: Vec<Vec<u8>>)
    ensures
        pieces_view(r@) == split_on(s@, sep),
{
    let mut pieces: Vec<Vec<u8>> = Vec::new();
    let mut current: Vec<u8> = Vec::new();
    let mut i: usize = 0;
    assert(s@.subrange(0, 0) =~= Seq::<u8>::empty());
    assert(pieces_view(pieces@).push(current@) =~= split_on(Seq::<u8>::empty(), sep));
    while i < s.len()
        invariant
            i <= s@.len(),
            pieces_view(pieces@).push(current@) == split_on(s@.subrange(0, i as int), sep),
        decreases s@.len() - i,
    {
        let b = s[i];
        let ghost prefix = s@.subrange(0, i + 1);
        assert(prefix.drop_last() =~= s@.subrange(0, i as int));
        if b == sep {
            let done = current;
            pieces.push(done);
            current = Vec::new();
            assert(pieces_view(pieces@).push(current@) =~= split_on(prefix, sep));
        } else {
            current.push(b);
            assert(pieces_view(pieces@).push(current@) =~= split_on(prefix, sep));
        }
        i = i + 1;
    }
    assert(s@.subrange(0, s@.len() as int) =~= s@);
    pieces.push(current);
    assert(pieces_view(pieces@) =~= split_on(s@, sep));
    pieces
}

/// Reads one digit.
fn parse_digit(b: u8, radix: u64) -> (r: Option<u64>)
    requires
        radix == 10 || radix == 16,
    ensures
        match digit_value(b, radix as nat) {
            Some(d) => r == Some(d as u64),
            None => r is None,
        },
{
    if 0x30 <= b && b <= 0x39 {
        Some((b - 0x30) as u64)
    } else if radix == 16 && 0x61 <= b && b <= 0x66 {
        Some((b - 0x61 + 10) as u64)
    } else if radix == 16 && 0x41 <= b && b <= 0x46 {
        Some((b - 0x41 + 10) as u64)
    } else {
        None
    }
}

proof fn lemma_digits_grow(s: Seq<u8>, k: int, radix: nat)
    requires
        0 <= k <= s.len(),
        radix >= 1,
        digits_value(s, radix) is Some,
    ensures
        digits_value(s.subrange(0, k), radix) is Some,
        digits_value(s.subrange(0, k), radix)->Some_0 <= digits_value(s, radix)->Some_0,
    decreases s.len(),
{
    if k == s.len() {
        assert(s.subrange(0, k) =~= s);
    } else {
        assert(s.drop_last() =~= s.subrange(0, s.len() - 1));
        lemma_digits_grow(s.drop_last(), k, radix);
        assert(s.drop_last().subrange(0, k) =~= s.subrange(0, k));
        let v = digits_value(s.drop_last(), radix)->Some_0;
        let d = digit_value(s.last(), radix)->Some_0;
        assert(v <= v * radix + d) by (nonlinear_arith)
            requires
                radix >= 1,
        ;
    }
}

/// Reads an unsigned number in base `radix` at most `max`.
fn parse_unsigned(s: &[u8], radix: u64, max: u64) -> (r: Option<u64>)
    requires
        radix == 10 || radix == 16,
        max <= 0xffff,
    ensures
        match unsigned_value(s@, radix as nat, max as nat) {
            Some(v) => r == Some(v as u64),
            None => r is None,
        },
{
    let ghost body = unsigned_body(s@);
    let start: usize = if s.len() > 0 && s[0] == 0x2b { 1 } else { 0 };
    assert(body =~= s@.subrange(start as int, s@.len() as int));
    if start == s.len() {
        return None;
    }
    let mut value: u64 = 0;
    let mut i: usize = start;
    while i < s.len()
        invariant
            start <= i <= s@.len(),
            body == s@.subrange(start as int, s@.len() as int),
            body == unsigned_body(s@),
            body.len() > 0,
            radix == 10 || radix == 16,
            max <= 0xffff,
            value <= max,
            digits_value(body.subrange(0, i - start), radix as nat) == Some(value as nat),
        decreases s@.len() - i,
    {
        let ghost prefix = body.subrange(0, i - start + 1);
        assert(prefix.drop_last() =~= body.subrange(0, i - start));
        assert(prefix.last() == s@[i as int]);
        match parse_digit(s[i], radix) {
            None => {
                proof {
                    assert(digits_value(prefix, radix as nat) is None);
                    if digits_value(body, radix as nat) is Some {
                        lemma_digits_grow(body, i - start + 1, radix as nat);
                    }
                    assert(digits_value(body, radix as nat) is None);
                }
                return None;
            },
            Some(d) => {
                assert(value * radix + d <= 0xffff * 16 + 15) by (nonlinear_arith)
                    requires
                        value <= 0xffff,
                        radix <= 16,
                        d < 16,
                ;
                let next = value * radix + d;
                assert(digits_value(prefix, radix as nat) == Some(next as nat));
                if next > max {
                    proof {
                        if digits_value(body, radix as nat) is Some {
                            lemma_digits_grow(body, i - start + 1, radix as nat);
                        }
                    }
                    return None;
                }
                value = next;
            },
        }
        i = i + 1;
    }
    assert(body.subrange(0, body.len() as int) =~= body);
    Some(value)
}

/// Parses an IPv4 socket address from its host and port pieces.
fn parse_ipv4(host: &Vec<u8>, port: &Vec<u8>) -> (r: Option<NetAddress>)
    ensures
        match ipv4_of(host@, port@) {
            Some(a) => r matches Some(n) && n@ == a,
            None => r is None,
        },
{
    let pieces = split_bytes(host.as_slice(), 0x2e);
    let ghost pv = split_on(host@, 0x2e);
    let mut octets: Vec<u8> = Vec::new();
    let mut i: usize = 0;
    while i < pieces.len()
        invariant
            pieces_view(pieces@) == pv,
            pv == split_on(host@, 0x2e),
            i <= pieces@.len(),
            octets@.len() == i,
            forall|k: int| 0 <= k < i ==> #[trigger] unsigned_value(pv[k], 10, 255) is Some,
            forall|k: int| 0 <= k < i ==> octets@[k] == unsigned_value(#[trigger] pv[k], 10, 255)->Some_0 as u8,
        decreases pieces@.len() - i,
    {
        assert(pieces@[i as int]@ == pv[i as int]);
        match parse_unsigned(pieces[i].as_slice(), 10, 255) {
            None => {
                assert(unsigned_value(pv[i as int], 10, 255) is None);
                assert(!all_numbers(pv, 10, 255));
                return None;
            },
            Some(v) => octets.push(v as u8),
        }
        i = i + 1;
    }
    if pieces.len() < 4 {
        return None;
    }
    let port_value = match parse_unsigned(port.as_slice(), 10, 0xffff) {
        None => return None,
        Some(v) => v as u16,
    };
    let first_four = vec![octets[0], octets[1], octets[2], octets[3]];
    let r = NetAddress::V4 { octets: first_four, port: port_value };
    assert(first_four@ =~= Seq::new(4, |k: int| unsigned_value(pv[k], 10, 255)->Some_0 as u8));
    Some(r)
}

/// Parses an IPv6 socket address from its colon-separated pieces.
fn parse_ipv6(parts: &Vec<Vec<u8>>) -> (r: Option<NetAddress>)
    ensures
        match ipv6_of(pieces_view(parts@)) {
            Some(a) => r matches Some(n) && n@ == a,
            None => r is None,
        },
{
    let ghost pv = pieces_view(parts@);
    if parts.len() < 9 {
        return None;
    }
    let port_value = match parse_unsigned(parts[8].as_slice(), 10, 0xffff) {
        None => return None,
        Some(v) => v as u16,
    };
    let ghost rest = pv.drop_last();
    let mut segments: Vec<u16> = Vec::new();
    let mut i: usize = 0;
    while i < parts.len() - 1
        invariant
            pv == pieces_view(parts@),
            rest == pv.drop_last(),
            parts@.len() >= 9,
            i <= parts@.len() - 1,
            segments@.len() == i,
            forall|k: int| 0 <= k < i ==> #[trigger] unsigned_value(rest[k], 16, 0xffff) is Some,
            forall|k: int| 0 <= k < i ==> segments@[k] == unsigned_value(#[trigger] rest[k], 16, 0xffff)->Some_0 as u16,
        decreases parts@.len() - 1 - i,
    {
        assert(parts@[i as int]@ == rest[i as int]);
        match parse_unsigned(parts[i].as_slice(), 16, 0xffff) {
            None => {
                assert(unsigned_value(rest[i as int], 16, 0xffff) is None);
                assert(!all_numbers(rest, 16, 0xffff));
                return None;
            },
            Some(v) => segments.push(v as u16),
        }
        i = i + 1;
    }
    let mut first_eight: Vec<u16> = Vec::new();
    let mut k: usize = 0;
    while k < 8
        invariant
            k <= 8,
            segments@.len() >= 8,
            first_eight@ == segments@.subrange(0, k as int),
        decreases 8 - k,
    {
        first_eight.push(segments[k]);
        k = k + 1;
        assert(first_eight@ =~= segments@.subrange(0, k as int));
    }
    assert(first_eight@ =~= Seq::new(8, |j: int| unsigned_value(pv[j], 16, 0xffff)->Some_0 as u16)) by {
        assert forall|j: int| 0 <= j < 8 implies first_eight@[j] == unsigned_value(pv[j], 16, 0xffff)->Some_0 as u16 by {
            assert(rest[j] == pv[j]);
        }
    }
    Some(NetAddress::V6 { segments: first_eight, port: port_value })
}

/// Parses a socket address string: `a.b.c.d:port`, or eight hexadecimal
/// segments and a port all separated by colons. Returns `None` when the
/// string is not such an address.
pub fn parse_net_address(ip_str: &str) -> (r: Option<NetAddress>)
    ensures
        match net_address_of(ip_str.spec_bytes()) {
            Some(a) => r matches Some(n) && n@ == a,
            None => r is None,
        },
{
    let parts = split_bytes(ip_str.as_bytes(), 0x3a);
    if parts.len() == 2 {
        assert(parts@[0]@ == pieces_view(parts@)[0]);
        assert(parts@[1]@ == pieces_view(parts@)[1]);
        parse_ipv4(&parts[0], &parts[1])
    } else {
        parse_ipv6(&parts)
    }
}

} // verus!
