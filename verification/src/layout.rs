//! Binary layout contract with the kernel, for 64-bit Linux.
//!
//! These constants mirror the kernel ABI: the control-message header field
//! sizes, the alignment unit, the address-family discriminants and the
//! per-family address structure sizes. A test holds them against the C
//! library's own definitions.

use vstd::prelude::*;

verus! {

/// Size in bytes of a control-message header: a 64-bit length followed by a
/// 32-bit level and a 32-bit type.
pub const CMSG_HDR_LEN: usize = 16;

/// Alignment unit for control-message records: the size of the native
/// ancillary-data unit (one machine word).
pub const CMSG_ALIGN_UNIT: usize = 8;

/// Protocol level of the socket layer itself.
pub const SOL_SOCKET: i32 = 1;

/// Control-message type carrying passed file descriptors.
pub const SCM_RIGHTS: i32 = 1;

/// Control-message type carrying a receive timestamp.
pub const SCM_TIMESTAMP: i32 = 29;

/// Size in bytes of one file-descriptor handle in a rights payload.
pub const FD_LEN: usize = 4;

/// Size in bytes of a timestamp payload: two 64-bit fields.
pub const TIMEVAL_LEN: usize = 16;

/// Address-family discriminant for Unix-domain sockets.
pub const AF_UNIX: u16 = 1;

/// Address-family discriminant for IPv4.
pub const AF_INET: u16 = 2;

/// Address-family discriminant for IPv6.
pub const AF_INET6: u16 = 10;

/// Address-family discriminant for netlink sockets.
pub const AF_NETLINK: u16 = 16;

/// Size in bytes of the generic address structure's family field.
pub const FAMILY_LEN: usize = 2;

/// Exact size in bytes of an IPv4 address structure.
pub const SOCKADDR_IN_LEN: usize = 16;

/// Exact size in bytes of an IPv6 address structure.
pub const SOCKADDR_IN6_LEN: usize = 28;

/// Exact size in bytes of a netlink address structure.
pub const SOCKADDR_NL_LEN: usize = 12;

/// Offset in bytes of the path field inside a Unix-domain address structure.
pub const SUN_PATH_OFFSET: usize = 2;

/// Capacity in bytes of the path field inside a Unix-domain address
/// structure.
pub const SUN_PATH_CAP: usize = 108;

/// Size in bytes of the generic address buffer large enough for any family.
pub const SOCKADDR_STORAGE_LEN: usize = 128;

/// Numeric argument of the shutdown call: disallow further receptions.
pub const SHUT_RD: i32 = 0;

/// Numeric argument of the shutdown call: disallow further transmissions.
pub const SHUT_WR: i32 = 1;

/// Numeric argument of the shutdown call: disallow both directions.
pub const SHUT_RDWR: i32 = 2;

} // verus!
