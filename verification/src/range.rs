//! CIDR ranges: a network address and a prefix length.
//!
//! The text form of a range is read by the `cidr` crate. Membership is
//! decided here, on the bits.

use crate::addr::IpAddr;
use vstd::prelude::*;

verus! {

/// A block of addresses of one family: those that share the first
/// `network_length` bits with `address`.
#[allow(inconsistent_fields)]
#[derive(Clone, Copy, Debug, PartialEq, Eq, Structural)]
pub enum IpCidr {
    V4 { address: u32, network_length: u8 },
    V6 { address: u128, network_length: u8 },
}

/// The bits of an IPv4 address that lie behind a prefix of `len` bits.
pub open spec fn host_mask_v4(len: u8) -> u32 {
    if len >= 32 {
        0u32
    } else {
        0xffff_ffffu32 >> (len as u32)
    }
}

/// The bits of an IPv6 address that lie behind a prefix of `len` bits.
pub open spec fn host_mask_v6(len: u8) -> u128 {
    if len >= 128 {
        0u128
    } else {
        0xffff_ffff_ffff_ffff_ffff_ffff_ffff_ffffu128 >> (len as u128)
    }
}

/// What the `cidr` crate's `IpCidr::from_str` makes of a text: the range it
/// denotes, or `None` where it reports an error.
pub uninterp spec fn cidr_of_text(text: Seq<char>) -> Option<IpCidr>;

impl IpCidr {
    /// The prefix is no longer than an address, and the address has no bit
    /// set behind the prefix.
    pub open spec fn wf(self) -> bool {
        match self {
            IpCidr::V4 { address, network_length } => network_length <= 32 && address
                & host_mask_v4(network_length) == 0,
            IpCidr::V6 { address, network_length } => network_length <= 128 && address
                & host_mask_v6(network_length) == 0,
        }
    }

    /// The first address of the range.
    pub open spec fn spec_first_address(self) -> IpAddr {
        match self {
            IpCidr::V4 { address, network_length } => IpAddr::V4(address),
            IpCidr::V6 { address, network_length } => IpAddr::V6(address),
        }
    }

    /// The last address of the range.
    pub open spec fn spec_last_address(self) -> IpAddr {
        match self {
            IpCidr::V4 { address, network_length } => IpAddr::V4(
                address | host_mask_v4(network_length),
            ),
            IpCidr::V6 { address, network_length } => IpAddr::V6(
                address | host_mask_v6(network_length),
            ),
        }
    }

    /// Whether `ip` is of the range's family and shares the range's prefix.
    pub open spec fn spec_contains(self, ip: IpAddr) -> bool {
        match (self, ip) {
            (IpCidr::V4 { address, network_length }, IpAddr::V4(bits)) => (address & !host_mask_v4(
                network_length,
            )) == (bits & !host_mask_v4(network_length)),
            (IpCidr::V6 { address, network_length }, IpAddr::V6(bits)) => (address & !host_mask_v6(
                network_length,
            )) == (bits & !host_mask_v6(network_length)),
            _ => false,
        }
    }

    /// Whether `ip` is of the range's family and lies between its first and
    /// its last address, both included.
    pub open spec fn in_range(self, ip: IpAddr) -> bool {
        match (self.spec_first_address(), ip, self.spec_last_address()) {
            (IpAddr::V4(first), IpAddr::V4(bits), IpAddr::V4(last)) => first <= bits <= last,
            (IpAddr::V6(first), IpAddr::V6(bits), IpAddr::V6(last)) => first <= bits <= last,
            _ => false,
        }
    }

    /// A well-formed range contains exactly the addresses of its family from
    /// its first address to its last, both of them included.
    pub proof fn lemma_contains_iff_in_range(self, ip: IpAddr)
        requires
            self.wf(),
        ensures
            self.spec_contains(ip) <==> self.in_range(ip),
    {
        match (self, ip) {
            (IpCidr::V4 { address, network_length }, IpAddr::V4(bits)) => {
                let len = network_length as u32;
                let mask = host_mask_v4(network_length);
                if network_length < 32 {
                    assert(((address & !mask) == (bits & !mask)) <==> (address <= bits && bits
                        <= address | mask)) by (bit_vector)
                        requires
                            len < 32,
                            mask == 0xffff_ffffu32 >> len,
                            address & mask == 0,
                    ;
                } else {
                    assert(((address & !mask) == (bits & !mask)) <==> (address <= bits && bits
                        <= address | mask)) by (bit_vector)
                        requires
                            mask == 0,
                    ;
                }
            },
            (IpCidr::V6 { address, network_length }, IpAddr::V6(bits)) => {
                let len = network_length as u128;
                let mask = host_mask_v6(network_length);
                if network_length < 128 {
                    assert(((address & !mask) == (bits & !mask)) <==> (address <= bits && bits
                        <= address | mask)) by (bit_vector)
                        requires
                            len < 128,
                            mask == 0xffff_ffff_ffff_ffff_ffff_ffff_ffff_ffffu128 >> len,
                            address & mask == 0,
                    ;
                } else {
                    assert(((address & !mask) == (bits & !mask)) <==> (address <= bits && bits
                        <= address | mask)) by (bit_vector)
                        requires
                            mask == 0,
                    ;
                }
            },
            _ => {},
        }
    }

    /// The first and the last address of a well-formed range are in it.
    pub proof fn lemma_bounds_are_contained(self)
        requires
            self.wf(),
        ensures
            self.in_range(self.spec_first_address()),
            self.in_range(self.spec_last_address()),
            self.spec_contains(self.spec_first_address()),
            self.spec_contains(self.spec_last_address()),
    {
        self.lemma_contains_iff_in_range(self.spec_first_address());
        self.lemma_contains_iff_in_range(self.spec_last_address());
        match self {
            IpCidr::V4 { address, network_length } => {
                let mask = host_mask_v4(network_length);
                assert(address <= address | mask) by (bit_vector);
            },
            IpCidr::V6 { address, network_length } => {
                let mask = host_mask_v6(network_length);
                assert(address <= address | mask) by (bit_vector);
            },
        }
    }

    /// The first address of the range.
    pub fn first_address(&self) -> (ip: IpAddr)
        ensures
            ip == self.spec_first_address(),
    {
        match *self {
            IpCidr::V4 { address, network_length } => IpAddr::V4(address),
            IpCidr::V6 { address, network_length } => IpAddr::V6(address),
        }
    }

    /// The last address of the range.
    pub fn last_address(&self) -> (ip: IpAddr)
        ensures
            ip == self.spec_last_address(),
    {
        match *self {
            IpCidr::V4 { address, network_length } => IpAddr::V4(address | v4_host_mask(network_length)),
            IpCidr::V6 { address, network_length } => IpAddr::V6(address | v6_host_mask(network_length)),
        }
    }

    /// The number of leading bits that the addresses of the range share.
    pub fn network_length(&self) -> (len: u8)
        ensures
            len == match *self {
                IpCidr::V4 { address, network_length } => network_length,
                IpCidr::V6 { address, network_length } => network_length,
            },
    {
        match *self {
            IpCidr::V4 { address, network_length } => network_length,
            IpCidr::V6 { address, network_length } => network_length,
        }
    }

    /// Whether `ip` is in the range.
    pub fn contains(&self, ip: &IpAddr) -> (r: bool)
        ensures
            r == self.spec_contains(*ip),
    {
        match (*self, *ip) {
            (IpCidr::V4 { address, network_length }, IpAddr::V4(bits)) => {
                let net_mask: u32 = !v4_host_mask(network_length);
                (address & net_mask) == (bits & net_mask)
            },
            (IpCidr::V6 { address, network_length }, IpAddr::V6(bits)) => {
                let net_mask: u128 = !v6_host_mask(network_length);
                (address & net_mask) == (bits & net_mask)
            },
            _ => false,
        }
    }
}

/// The bits of an IPv4 address that lie behind a prefix of `len` bits.
pub fn v4_host_mask(len: u8) -> (mask: u32)
    ensures
        mask == host_mask_v4(len),
{
    if len >= 32 {
        0
    } else {
        0xffff_ffffu32 >> (len as u32)
    }
}

/// The bits of an IPv6 address that lie behind a prefix of `len` bits.
pub fn v6_host_mask(len: u8) -> (mask: u128)
    ensures
        mask == host_mask_v6(len),
{
    if len >= 128 {
        0
    } else {
        0xffff_ffff_ffff_ffff_ffff_ffff_ffff_ffffu128 >> (len as u128)
    }
}

/// Reads a range with `cidr::IpCidr::from_str` and hands over its first
/// address and prefix length. The crate only builds ranges whose prefix fits
/// the family and whose address has no bit set behind the prefix; what it
/// accepts as text is not stated here.
#[verifier::external_body]
pub(crate) fn cidr_from_str(text: &str) -> (r: Option<IpCidr>)
    ensures
        r == cidr_of_text(text@),
        r is Some ==> r->0.wf(),
{
    match text.parse::<cidr::IpCidr>() {
        Ok(cidr::IpCidr::V4(c)) => Some(
            IpCidr::V4 { address: u32::from(c.first_address()), network_length: c.network_length() },
        ),
        Ok(cidr::IpCidr::V6(c)) => Some(
            IpCidr::V6 { address: u128::from(c.first_address()), network_length: c.network_length() },
        ),
        Err(_) => None,
    }
}

} // verus!
