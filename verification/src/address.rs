//! Origin addresses and their canonical form.

use vstd::prelude::*;

verus! {

/// An IP address as plain bits, most significant byte first.
#[derive(Clone, Copy, Debug, PartialEq, Eq, Structural)]
pub enum IpAddress {
    /// The 32 bits of an IPv4 address.
    V4(u32),
    /// The 128 bits of an IPv6 address.
    V6(u128),
}

/// The first IPv4-mapped IPv6 address, `::ffff:0.0.0.0`.
pub const V4_MAPPED_FIRST: u128 = 0xffff_0000_0000u128;

/// The last IPv4-mapped IPv6 address, `::ffff:255.255.255.255`.
pub const V4_MAPPED_LAST: u128 = 0xffff_ffff_ffffu128;

/// Whether the 128 bits are an IPv4-mapped IPv6 address (`::ffff:a.b.c.d`).
pub open spec fn is_v4_mapped(bits: u128) -> bool {
    V4_MAPPED_FIRST <= bits <= V4_MAPPED_LAST
}

impl IpAddress {
    /// The canonical form: an IPv4-mapped IPv6 address becomes the IPv4
    /// address it carries, every other address is itself.
    pub open spec fn canonical(self) -> IpAddress {
        match self {
            IpAddress::V4(bits) => IpAddress::V4(bits),
            IpAddress::V6(bits) => if is_v4_mapped(bits) {
                IpAddress::V4((bits - V4_MAPPED_FIRST) as u32)
            } else {
                IpAddress::V6(bits)
            },
        }
    }

    /// Whether the address is its own canonical form.
    pub open spec fn is_canonical(self) -> bool {
        self.canonical() == self
    }

    /// The 128-bit key under which the address is cached: an IPv6 address is
    /// its own bits, an IPv4 address the bits of its IPv4-mapped form.
    pub open spec fn key(self) -> u128 {
        match self {
            IpAddress::V4(bits) => (V4_MAPPED_FIRST + bits) as u128,
            IpAddress::V6(bits) => bits,
        }
    }

    /// Normalizes IPv4-mapped IPv6 addresses to IPv4.
    pub fn to_canonical(self) -> (r: IpAddress)
        ensures
            r == self.canonical(),
    {
        match self {
            IpAddress::V4(bits) => IpAddress::V4(bits),
            IpAddress::V6(bits) => {
                if V4_MAPPED_FIRST <= bits && bits <= V4_MAPPED_LAST {
                    let low: u128 = bits - V4_MAPPED_FIRST;
                    IpAddress::V4(low as u32)
                } else {
                    IpAddress::V6(bits)
                }
            },
        }
    }

    /// Computes the cache key of the address.
    pub fn cache_key(self) -> (k: u128)
        ensures
            k == self.key(),
    {
        match self {
            IpAddress::V4(bits) => V4_MAPPED_FIRST + (bits as u128),
            IpAddress::V6(bits) => bits,
        }
    }
}

/// Canonicalizing twice is canonicalizing once.
pub proof fn lemma_canonical_idempotent(ip: IpAddress)
    ensures
        ip.canonical().is_canonical(),
{
}

/// An address and its canonical form share one cache key.
pub proof fn lemma_key_of_canonical(ip: IpAddress)
    ensures
        ip.canonical().key() == ip.key(),
{
}

/// Two addresses share a cache key exactly when their canonical forms agree.
pub proof fn lemma_key_injective(a: IpAddress, b: IpAddress)
    ensures
        a.key() == b.key() <==> a.canonical() == b.canonical(),
{
}

} // verus!
