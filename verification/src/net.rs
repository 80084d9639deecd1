//! IP addresses and networks as plain values, and whether a network holds an
//! address.
use vstd::prelude::*;

verus! {

/// An IP address by its octets, most significant first.
#[derive(Debug, PartialEq, Eq, Clone, Copy)]
pub enum IpAddress {
    V4([u8; 4]),
    V6([u8; 16]),
}

/// A network: an address and the number of leading bits that name it.
#[derive(Debug, PartialEq, Eq, Clone, Copy)]
pub struct Network {
    pub addr: IpAddress,
    pub prefix: u8,
}

/// The prefix of a network is at most the number of bits of its address.
pub open spec fn network_prefix_ok(n: Network) -> bool {
    match n.addr {
        IpAddress::V4(_) => n.prefix <= 32,
        IpAddress::V6(_) => n.prefix <= 128,
    }
}

/// What `ipnetwork::IpNetwork::from_str` gives for a text: the network's
/// address and prefix, or `None` when the text is no network.
pub uninterp spec fn network_parse(s: Seq<char>) -> Option<Network>;

/// Parses `s` with `ipnetwork::IpNetwork::from_str` and takes the address
/// (`ip()`) and the prefix (`prefix()`) of the network. Claimed: the result
/// depends on the text alone, and a prefix never exceeds the bits of the
/// address (the constructors of the crate refuse a larger prefix).
#[verifier::external_body]
pub(crate) fn parse_network(s: &str) -> (r: Option<Network>)
    ensures
        r == network_parse(s@),
        r matches Some(n) ==> network_prefix_ok(n),
{
    match s.parse::<ipnetwork::IpNetwork>() {
        Ok(ipnetwork::IpNetwork::V4(n)) => Some(
            Network { addr: IpAddress::V4(n.ip().octets()), prefix: n.prefix() },
        ),
        Ok(ipnetwork::IpNetwork::V6(n)) => Some(
            Network { addr: IpAddress::V6(n.ip().octets()), prefix: n.prefix() },
        ),
        Err(_) => None,
    }
}

/// The big-endian number that the octets spell, as a 32-bit value.
pub open spec fn be_u32(s: Seq<u8>) -> u32
    decreases s.len(),
{
    if s.len() == 0 {
        0
    } else {
        ((be_u32(s.drop_last()) << 8u32) | (s.last() as u32)) as u32
    }
}

/// The big-endian number that the octets spell, as a 128-bit value.
pub open spec fn be_u128(s: Seq<u8>) -> u128
    decreases s.len(),
{
    if s.len() == 0 {
        0
    } else {
        ((be_u128(s.drop_last()) << 8u128) | (s.last() as u128)) as u128
    }
}

/// The mask of the first `p` bits of an IPv4 address, as the network crate
/// computes it.
pub open spec fn v4_mask(p: u8) -> u32 {
    (!((0xffff_ffffu64 >> p) as u64)) as u32
}

/// The mask of the first `p` bits of an IPv6 address, as the network crate
/// computes it.
pub open spec fn v6_mask(p: u8) -> u128 {
    if p == 0 {
        0
    } else {
        (u128::MAX << ((128 - p) as u128)) as u128
    }
}

/// A network holds an address of its own family whose first `prefix` bits
/// are those of the network's address.
pub open spec fn network_contains(n: Network, ip: IpAddress) -> bool {
    match (n.addr, ip) {
        (IpAddress::V4(a), IpAddress::V4(b)) => (be_u32(b@) & v4_mask(n.prefix)) == (be_u32(a@)
            & v4_mask(n.prefix)),
        (IpAddress::V6(a), IpAddress::V6(b)) => (be_u128(b@) & v6_mask(n.prefix)) == (be_u128(a@)
            & v6_mask(n.prefix)),
        _ => false,
    }
}

fn octets_u32(a: &[u8]) -> (r: u32)
    ensures
        r == be_u32(a@),
{
    let mut acc: u32 = 0;
    let mut i: usize = 0;
    while i < a.len()
        invariant
            i <= a@.len(),
            acc == be_u32(a@.take(i as int)),
        decreases a@.len() - i,
    {
        assert(a@.take(i + 1).drop_last() =~= a@.take(i as int));
        acc = (acc << 8u32) | (a[i] as u32);
        i = i + 1;
    }
    assert(a@.take(a@.len() as int) =~= a@);
    acc
}

fn octets_u128(a: &[u8]) -> (r: u128)
    ensures
        r == be_u128(a@),
{
    let mut acc: u128 = 0;
    let mut i: usize = 0;
    while i < a.len()
        invariant
            i <= a@.len(),
            acc == be_u128(a@.take(i as int)),
        decreases a@.len() - i,
    {
        assert(a@.take(i + 1).drop_last() =~= a@.take(i as int));
        acc = (acc << 8u128) | (a[i] as u128);
        i = i + 1;
    }
    assert(a@.take(a@.len() as int) =~= a@);
    acc
}

/// Whether the network `n` holds the address `ip`.
pub fn contains(n: &Network, ip: &IpAddress) -> (r: bool)
    requires
        network_prefix_ok(*n),
    ensures
        r == network_contains(*n, *ip),
{
    match (&n.addr, ip) {
        (IpAddress::V4(a), IpAddress::V4(b)) => {
            let mask: u32 = (!(0xffff_ffffu64 >> n.prefix)) as u32;
            (octets_u32(b.as_slice()) & mask) == (octets_u32(a.as_slice()) & mask)
        },
        (IpAddress::V6(a), IpAddress::V6(b)) => {
            let mask: u128 = if n.prefix == 0 {
                0
            } else {
                u128::MAX << (128 - n.prefix)
            };
            (octets_u128(b.as_slice()) & mask) == (octets_u128(a.as_slice()) & mask)
        },
        _ => false,
    }
}

} // verus!
