//! The socket-address variant and its conversion to and from the generic
//! byte-level form the kernel exchanges.
//!
//! A typed address serializes to exactly the bytes of its family's native
//! structure, with the declared length the kernel expects: the full
//! structure size for IPv4, IPv6 and netlink, and the path-field offset
//! plus the actual path length for a Unix-domain address. Parsing reads the
//! family discriminant and validates the declared length per family.

use vstd::prelude::*;
use vstd::bytes::{
    spec_u16_to_le_bytes, spec_u16_from_le_bytes, spec_u32_to_le_bytes, spec_u32_from_le_bytes,
    lemma_auto_spec_u16_to_from_le_bytes, lemma_auto_spec_u32_to_from_le_bytes,
};
use crate::layout::{
    AF_UNIX, AF_INET, AF_INET6, AF_NETLINK, FAMILY_LEN, SOCKADDR_IN_LEN, SOCKADDR_IN6_LEN,
    SOCKADDR_NL_LEN, SUN_PATH_OFFSET, SUN_PATH_CAP,
};
use crate::wire::{
    zeros, push_zeros, push_u16_le, push_u16_be, push_u32_le, read_u16_le, read_u16_be,
    read_u32_le, spec_u16_to_be_bytes, spec_u16_from_be_bytes, lemma_u16_be_round_trip,
};

verus! {

broadcast use vstd::slice::axiom_spec_len;

/// An IPv4 endpoint: four address octets and a port in host order.
#[derive(Clone, Debug, PartialEq, Eq)]
pub struct Ipv4Addr {
    pub octets: Vec<u8>,
    pub port: u16,
}

/// An IPv6 endpoint: sixteen address octets, a port in host order, and the
/// flow and scope identifiers.
#[derive(Clone, Debug, PartialEq, Eq)]
pub struct Ipv6Addr {
    pub octets: Vec<u8>,
    pub port: u16,
    pub flowinfo: u32,
    pub scope_id: u32,
}

/// A Unix-domain address: the path bytes themselves, without any
/// terminator and without the structure's fixed capacity. The vector's
/// length is the address's explicit path length.
#[derive(Clone, Debug, PartialEq, Eq)]
pub struct UnixAddr {
    pub path: Vec<u8>,
}

/// A netlink address: process identifier and multicast group mask.
#[derive(Clone, Copy, Debug, PartialEq, Eq, Structural)]
pub struct NetlinkAddr {
    pub pid: u32,
    pub groups: u32,
}

/// An internet address of either family.
#[derive(Clone, Debug, PartialEq, Eq)]
pub enum InetAddr {
    V4(Ipv4Addr),
    V6(Ipv6Addr),
}

/// The tagged socket-address variant, discriminated by address family.
#[derive(Clone, Debug, PartialEq, Eq)]
pub enum SockAddr {
    Inet(InetAddr),
    Unix(UnixAddr),
    Netlink(NetlinkAddr),
}

/// The mathematical model of a socket address.
pub enum SockAddrModel {
    V4 { port: u16, octets: Seq<u8> },
    V6 { port: u16, flowinfo: u32, octets: Seq<u8>, scope_id: u32 },
    Unix { path: Seq<u8> },
    Netlink { pid: u32, groups: u32 },
}

impl View for SockAddr {
    type V = SockAddrModel;

    open spec fn view(&self) -> SockAddrModel {
        match self {
            SockAddr::Inet(InetAddr::V4(a)) => SockAddrModel::V4 {
                port: a.port,
                octets: a.octets@,
            },
            SockAddr::Inet(InetAddr::V6(a)) => SockAddrModel::V6 {
                port: a.port,
                flowinfo: a.flowinfo,
                octets: a.octets@,
                scope_id: a.scope_id,
            },
            SockAddr::Unix(a) => SockAddrModel::Unix { path: a.path@ },
            SockAddr::Netlink(a) => SockAddrModel::Netlink { pid: a.pid, groups: a.groups },
        }
    }
}

/// The address families the library knows, one per variant of the
/// socket-address type.
#[derive(Clone, Copy, Debug, PartialEq, Eq, Structural)]
pub enum AddressFamily {
    Unix,
    Inet,
    Inet6,
    Netlink,
}

impl AddressFamily {
    /// The discriminant the kernel stores for this family.
    pub fn family_code(&self) -> (r: u16)
        ensures
            *self == AddressFamily::Unix ==> r == AF_UNIX,
            *self == AddressFamily::Inet ==> r == AF_INET,
            *self == AddressFamily::Inet6 ==> r == AF_INET6,
            *self == AddressFamily::Netlink ==> r == AF_NETLINK,
    {
        match self {
            AddressFamily::Unix => AF_UNIX,
            AddressFamily::Inet => AF_INET,
            AddressFamily::Inet6 => AF_INET6,
            AddressFamily::Netlink => AF_NETLINK,
        }
    }
}

/// A well-formed address: the octet count matches the family and a
/// Unix-domain path fits the structure's path field.
pub open spec fn wf_addr(a: SockAddrModel) -> bool {
    match a {
        SockAddrModel::V4 { octets, .. } => octets.len() == 4,
        SockAddrModel::V6 { octets, .. } => octets.len() == 16,
        SockAddrModel::Unix { path } => path.len() <= SUN_PATH_CAP,
        SockAddrModel::Netlink { .. } => true,
    }
}

/// Why a generic address buffer did not convert to a typed variant.
#[derive(Clone, Copy, Debug, PartialEq, Eq, Structural)]
pub enum AddrError {
    /// The declared length is shorter than the family field itself: no
    /// address is present. Recoverable.
    NotConnected,
    /// The declared length does not match the exact structure size the
    /// family requires, or a Unix-domain path would overrun the path
    /// field. A kernel-contract violation, reported as an error rather
    /// than treated as fatal, so a malformed kernel response cannot bring
    /// the caller down.
    SizeMismatch,
    /// The family discriminant is not one the library knows: an
    /// unexpected, unrecoverable condition, reported as its own variant
    /// and never as a silently defaulted address.
    UnexpectedFamily,
}

/// The generic byte form of a typed address, exactly as long as the
/// declared length handed to the kernel.
pub open spec fn addr_bytes(a: SockAddrModel) -> Seq<u8> {
    match a {
        SockAddrModel::V4 { port, octets } => spec_u16_to_le_bytes(AF_INET) + spec_u16_to_be_bytes(
            port,
        ) + octets + zeros(8),
        SockAddrModel::V6 { port, flowinfo, octets, scope_id } => spec_u16_to_le_bytes(AF_INET6)
            + spec_u16_to_be_bytes(port) + spec_u32_to_le_bytes(flowinfo) + octets
            + spec_u32_to_le_bytes(scope_id),
        SockAddrModel::Unix { path } => spec_u16_to_le_bytes(AF_UNIX) + path,
        SockAddrModel::Netlink { pid, groups } => spec_u16_to_le_bytes(AF_NETLINK) + zeros(2)
            + spec_u32_to_le_bytes(pid) + spec_u32_to_le_bytes(groups),
    }
}

/// The typed address stored in a generic buffer whose first `len` bytes
/// are valid, or the error that says why there is none.
pub open spec fn parse_sockaddr(b: Seq<u8>, len: int) -> Result<SockAddrModel, AddrError>
    recommends
        0 <= len <= b.len(),
{
    if len < FAMILY_LEN {
        Err(AddrError::NotConnected)
    } else {
        let fam = spec_u16_from_le_bytes(b.subrange(0, 2));
        if fam == AF_INET {
            if len != SOCKADDR_IN_LEN {
                Err(AddrError::SizeMismatch)
            } else {
                Ok(
                    SockAddrModel::V4 {
                        port: spec_u16_from_be_bytes(b.subrange(2, 4)),
                        octets: b.subrange(4, 8),
                    },
                )
            }
        } else if fam == AF_INET6 {
            if len != SOCKADDR_IN6_LEN {
                Err(AddrError::SizeMismatch)
            } else {
                Ok(
                    SockAddrModel::V6 {
                        port: spec_u16_from_be_bytes(b.subrange(2, 4)),
                        flowinfo: spec_u32_from_le_bytes(b.subrange(4, 8)),
                        octets: b.subrange(8, 24),
                        scope_id: spec_u32_from_le_bytes(b.subrange(24, 28)),
                    },
                )
            }
        } else if fam == AF_UNIX {
            if len - SUN_PATH_OFFSET > SUN_PATH_CAP {
                Err(AddrError::SizeMismatch)
            } else {
                Ok(SockAddrModel::Unix { path: b.subrange(SUN_PATH_OFFSET as int, len) })
            }
        } else if fam == AF_NETLINK {
            if len != SOCKADDR_NL_LEN {
                Err(AddrError::SizeMismatch)
            } else {
                Ok(
                    SockAddrModel::Netlink {
                        pid: spec_u32_from_le_bytes(b.subrange(4, 8)),
                        groups: spec_u32_from_le_bytes(b.subrange(8, 12)),
                    },
                )
            }
        } else {
            Err(AddrError::UnexpectedFamily)
        }
    }
}

/// Convert a generic address buffer with its declared length into the
/// typed variant for its family discriminant. A length too short for the
/// discriminant, a length that is not the family's exact structure size,
/// and an unknown discriminant each yield their own error; an unknown
/// discriminant is never converted to a default variant.
pub fn sockaddr_storage_to_addr(buf: &[u8], len: usize) -> (r: Result<SockAddr, AddrError>)
    requires
        len <= buf@.len(),
    ensures
        match parse_sockaddr(buf@, len as int) {
            Ok(m) => r is Ok && r->Ok_0@ == m && wf_addr(m),
            Err(e) => r is Err && r->Err_0 == e,
        },
{
    let n: usize = buf.len();
    proof {
        assert(len <= n);
    }
    if len < FAMILY_LEN {
        return Err(AddrError::NotConnected);
    }
    let fam = read_u16_le(buf, 0);
    if fam == AF_INET {
        if len != SOCKADDR_IN_LEN {
            return Err(AddrError::SizeMismatch);
        }
        let port = read_u16_be(buf, 2);
        let octets = vstd::slice::slice_to_vec(vstd::slice::slice_subrange(buf, 4, 8));
        Ok(SockAddr::Inet(InetAddr::V4(Ipv4Addr { octets, port })))
    } else if fam == AF_INET6 {
        if len != SOCKADDR_IN6_LEN {
            return Err(AddrError::SizeMismatch);
        }
        let port = read_u16_be(buf, 2);
        let flowinfo = read_u32_le(buf, 4);
        let octets = vstd::slice::slice_to_vec(vstd::slice::slice_subrange(buf, 8, 24));
        let scope_id = read_u32_le(buf, 24);
        Ok(SockAddr::Inet(InetAddr::V6(Ipv6Addr { octets, port, flowinfo, scope_id })))
    } else if fam == AF_UNIX {
        if len - SUN_PATH_OFFSET > SUN_PATH_CAP {
            return Err(AddrError::SizeMismatch);
        }
        let path = vstd::slice::slice_to_vec(vstd::slice::slice_subrange(buf, SUN_PATH_OFFSET, len));
        Ok(SockAddr::Unix(UnixAddr { path }))
    } else if fam == AF_NETLINK {
        if len != SOCKADDR_NL_LEN {
            return Err(AddrError::SizeMismatch);
        }
        let pid = read_u32_le(buf, 4);
        let groups = read_u32_le(buf, 8);
        Ok(SockAddr::Netlink(NetlinkAddr { pid, groups }))
    } else {
        Err(AddrError::UnexpectedFamily)
    }
}

impl SockAddr {
    /// The family this address belongs to.
    pub fn family(&self) -> (r: AddressFamily)
        ensures
            (self@ is V4 || self@ is V6) <==> r == AddressFamily::Inet || r
                == AddressFamily::Inet6,
            self@ is V4 <==> r == AddressFamily::Inet,
            self@ is V6 <==> r == AddressFamily::Inet6,
            self@ is Unix <==> r == AddressFamily::Unix,
            self@ is Netlink <==> r == AddressFamily::Netlink,
    {
        match self {
            SockAddr::Inet(InetAddr::V4(_)) => AddressFamily::Inet,
            SockAddr::Inet(InetAddr::V6(_)) => AddressFamily::Inet6,
            SockAddr::Unix(_) => AddressFamily::Unix,
            SockAddr::Netlink(_) => AddressFamily::Netlink,
        }
    }

    /// The generic byte form of this address, for handing to the kernel:
    /// its length is the declared address length, which for a Unix-domain
    /// address is the path-field offset plus the actual path length.
    pub fn to_storage_bytes(&self) -> (r: Vec<u8>)
        requires
            wf_addr(self@),
        ensures
            r@ == addr_bytes(self@),
    {
        let mut b: Vec<u8> = Vec::new();
        match self {
            SockAddr::Inet(InetAddr::V4(a)) => {
                push_u16_le(&mut b, AF_INET);
                push_u16_be(&mut b, a.port);
                let mut i: usize = 0;
                while i < 4
                    invariant
                        i <= 4,
                        a.octets@.len() == 4,
                        b@ == spec_u16_to_le_bytes(AF_INET) + spec_u16_to_be_bytes(a.port)
                            + a.octets@.take(i as int),
                    decreases 4 - i,
                {
                    b.push(a.octets[i]);
                    proof {
                        assert(b@ =~= spec_u16_to_le_bytes(AF_INET) + spec_u16_to_be_bytes(a.port)
                            + a.octets@.take(i + 1));
                    }
                    i += 1;
                }
                push_zeros(&mut b, 8);
                proof {
                    assert(a.octets@.take(4) =~= a.octets@);
                    assert(b@ =~= addr_bytes(self@));
                }
            },
            SockAddr::Inet(InetAddr::V6(a)) => {
                push_u16_le(&mut b, AF_INET6);
                push_u16_be(&mut b, a.port);
                push_u32_le(&mut b, a.flowinfo);
                let ghost prefix = b@;
                let mut i: usize = 0;
                while i < 16
                    invariant
                        i <= 16,
                        a.octets@.len() == 16,
                        b@ == prefix + a.octets@.take(i as int),
                    decreases 16 - i,
                {
                    b.push(a.octets[i]);
                    proof {
                        assert(b@ =~= prefix + a.octets@.take(i + 1));
                    }
                    i += 1;
                }
                push_u32_le(&mut b, a.scope_id);
                proof {
                    assert(a.octets@.take(16) =~= a.octets@);
                    assert(b@ =~= addr_bytes(self@));
                }
            },
            SockAddr::Unix(a) => {
                push_u16_le(&mut b, AF_UNIX);
                let ghost prefix = b@;
                let n = a.path.len();
                let mut i: usize = 0;
                while i < n
                    invariant
                        i <= n,
                        n == a.path@.len(),
                        b@ == prefix + a.path@.take(i as int),
                    decreases n - i,
                {
                    b.push(a.path[i]);
                    proof {
                        assert(b@ =~= prefix + a.path@.take(i + 1));
                    }
                    i += 1;
                }
                proof {
                    assert(a.path@.take(n as int) =~= a.path@);
                    assert(b@ =~= addr_bytes(self@));
                }
            },
            SockAddr::Netlink(a) => {
                push_u16_le(&mut b, AF_NETLINK);
                push_zeros(&mut b, 2);
                push_u32_le(&mut b, a.pid);
                push_u32_le(&mut b, a.groups);
                proof {
                    assert(b@ =~= addr_bytes(self@));
                }
            },
        }
        b
    }
}

/// Address round trip: converting a well-formed typed address to its
/// generic form and parsing it back with its own declared length yields an
/// equal address. In particular a Unix-domain address comes back with its
/// original path length, not the path field's fixed capacity.
pub proof fn lemma_addr_round_trip(a: SockAddrModel)
    requires
        wf_addr(a),
    ensures
        parse_sockaddr(addr_bytes(a), addr_bytes(a).len() as int) == Ok::<
            SockAddrModel,
            AddrError,
        >(a),
{
    lemma_auto_spec_u16_to_from_le_bytes();
    lemma_auto_spec_u32_to_from_le_bytes();
    let b = addr_bytes(a);
    match a {
        SockAddrModel::V4 { port, octets } => {
            assert(b.len() == SOCKADDR_IN_LEN);
            assert(b.subrange(0, 2) =~= spec_u16_to_le_bytes(AF_INET));
            assert(b.subrange(2, 4) =~= spec_u16_to_be_bytes(port));
            lemma_u16_be_round_trip(port);
            assert(b.subrange(4, 8) =~= octets);
        },
        SockAddrModel::V6 { port, flowinfo, octets, scope_id } => {
            assert(b.len() == SOCKADDR_IN6_LEN);
            assert(b.subrange(0, 2) =~= spec_u16_to_le_bytes(AF_INET6));
            assert(b.subrange(2, 4) =~= spec_u16_to_be_bytes(port));
            lemma_u16_be_round_trip(port);
            assert(b.subrange(4, 8) =~= spec_u32_to_le_bytes(flowinfo));
            assert(b.subrange(8, 24) =~= octets);
            assert(b.subrange(24, 28) =~= spec_u32_to_le_bytes(scope_id));
        },
        SockAddrModel::Unix { path } => {
            assert(b.len() == SUN_PATH_OFFSET + path.len());
            assert(b.subrange(0, 2) =~= spec_u16_to_le_bytes(AF_UNIX));
            assert(b.subrange(SUN_PATH_OFFSET as int, b.len() as int) =~= path);
        },
        SockAddrModel::Netlink { pid, groups } => {
            assert(b.len() == SOCKADDR_NL_LEN);
            assert(b.subrange(0, 2) =~= spec_u16_to_le_bytes(AF_NETLINK));
            assert(b.subrange(4, 8) =~= spec_u32_to_le_bytes(pid));
            assert(b.subrange(8, 12) =~= spec_u32_to_le_bytes(groups));
        },
    }
}


/// An unrecognized family discriminant converts to the unexpected-family
/// error, for every buffer and declared length, never to a default
/// variant.
pub proof fn lemma_unknown_family_rejected(b: Seq<u8>, len: int)
    requires
        FAMILY_LEN <= len <= b.len(),
        spec_u16_from_le_bytes(b.subrange(0, 2)) != AF_INET,
        spec_u16_from_le_bytes(b.subrange(0, 2)) != AF_INET6,
        spec_u16_from_le_bytes(b.subrange(0, 2)) != AF_UNIX,
        spec_u16_from_le_bytes(b.subrange(0, 2)) != AF_NETLINK,
    ensures
        parse_sockaddr(b, len) == Err::<SockAddrModel, AddrError>(AddrError::UnexpectedFamily),
{
}

} // verus!
