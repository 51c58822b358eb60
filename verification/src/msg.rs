//! The receive-side result type and the scratch-space helper for the
//! scatter-gather send and receive paths.
//!
//! The send path computes the ancillary buffer with `cmsg::encode_cmsgs`
//! and the generic address with `SockAddr::to_storage_bytes`; the receive
//! path assembles a `RecvMsg` from the plain values the kernel reported.

use vstd::prelude::*;
use crate::layout::{CMSG_HDR_LEN, CMSG_ALIGN_UNIT, SHUT_RD, SHUT_WR, SHUT_RDWR};
use crate::addr::{SockAddr, parse_sockaddr, sockaddr_storage_to_addr, wf_addr};
use crate::cmsg::CmsgIterator;
use crate::{spec_align, cmsg_align};

verus! {

/// Flags reported by or handed to a send or receive call, as the kernel's
/// plain bit mask.
#[derive(Clone, Copy, Debug, PartialEq, Eq, Structural)]
pub struct MsgFlags {
    pub bits: i32,
}

impl MsgFlags {
    /// No flags set.
    pub fn empty() -> (r: MsgFlags)
        ensures
            r.bits == 0,
    {
        MsgFlags { bits: 0 }
    }
}

/// Which direction of a full-duplex connection to shut down.
#[derive(Clone, Copy, Debug, PartialEq, Eq, Structural)]
pub enum Shutdown {
    /// Further receptions will be disallowed.
    Read,
    /// Further transmissions will be disallowed.
    Write,
    /// Further receptions and transmissions will be disallowed.
    Both,
}

/// The numeric argument the shutdown call expects for each direction.
pub fn shutdown_how(how: Shutdown) -> (r: i32)
    ensures
        how == Shutdown::Read ==> r == SHUT_RD,
        how == Shutdown::Write ==> r == SHUT_WR,
        how == Shutdown::Both ==> r == SHUT_RDWR,
{
    match how {
        Shutdown::Read => SHUT_RD,
        Shutdown::Write => SHUT_WR,
        Shutdown::Both => SHUT_RDWR,
    }
}

/// The size of a scratch region big enough to receive a chosen combination
/// of control messages: one padded record per expected message.
pub struct CmsgSpace {
    capacity: usize,
}

impl CmsgSpace {
    /// The accumulated capacity in bytes.
    pub closed spec fn capacity_of(self) -> nat {
        self.capacity as nat
    }

    /// Room for one control message with a payload of `data_len` bytes:
    /// the padded length of its record.
    pub fn new(data_len: usize) -> (r: CmsgSpace)
        requires
            data_len + CMSG_HDR_LEN + CMSG_ALIGN_UNIT <= usize::MAX,
        ensures
            r.capacity_of() == spec_align((CMSG_HDR_LEN + data_len) as nat),
    {
        CmsgSpace { capacity: cmsg_align(CMSG_HDR_LEN + data_len) }
    }

    /// Room for one more control message with a payload of `data_len`
    /// bytes, on top of the space already accumulated.
    pub fn and_space(self, data_len: usize) -> (r: CmsgSpace)
        requires
            data_len + CMSG_HDR_LEN + CMSG_ALIGN_UNIT <= usize::MAX,
            self.capacity_of() + spec_align((CMSG_HDR_LEN + data_len) as nat) <= usize::MAX,
        ensures
            r.capacity_of() == self.capacity_of() + spec_align((CMSG_HDR_LEN + data_len) as nat),
    {
        CmsgSpace { capacity: self.capacity + cmsg_align(CMSG_HDR_LEN + data_len) }
    }

    /// The accumulated capacity in bytes.
    pub fn capacity(&self) -> (r: usize)
        ensures
            r == self.capacity_of(),
    {
        self.capacity
    }
}

/// What one receive call returned: the byte count delivered, the ancillary
/// bytes the kernel filled in, the resolved peer address if one could be
/// decoded, and the kernel-reported flags.
pub struct RecvMsg {
    /// The number of payload bytes received.
    pub bytes: usize,
    /// The ancillary bytes the kernel filled in: exactly the reported
    /// span, not the scratch region's full capacity.
    pub cmsg_buffer: Vec<u8>,
    /// The peer address, or `None` when the kernel supplied none that
    /// could be decoded.
    pub address: Option<SockAddr>,
    /// Flags the kernel reported, such as truncation indicators.
    pub flags: MsgFlags,
}

impl RecvMsg {
    /// The ancillary bytes this result holds.
    pub open spec fn cmsg_bytes(self) -> Seq<u8> {
        self.cmsg_buffer@
    }

    /// Assemble a receive result from the plain values the kernel
    /// reported: the byte count, the ancillary span it actually filled,
    /// the generic address buffer with its reported length, and the
    /// reported flags. An address that does not parse becomes `None`
    /// rather than an error, so that an unparseable peer address never
    /// masks a successful data transfer.
    pub fn from_parts(
        bytes: usize,
        cmsg_buffer: Vec<u8>,
        addr_buf: &[u8],
        addr_len: usize,
        flags: MsgFlags,
    ) -> (r: RecvMsg)
        requires
            addr_len <= addr_buf@.len(),
        ensures
            r.bytes == bytes,
            r.flags == flags,
            r.cmsg_bytes() == cmsg_buffer@,
            match parse_sockaddr(addr_buf@, addr_len as int) {
                Ok(m) => r.address is Some && r.address->0@ == m && wf_addr(m),
                Err(_) => r.address is None,
            },
    {
        let address = match sockaddr_storage_to_addr(addr_buf, addr_len) {
            Ok(a) => Some(a),
            Err(_) => None,
        };
        RecvMsg { bytes, cmsg_buffer, address, flags }
    }

    /// Iterate over the valid control messages held in this result's
    /// ancillary bytes.
    pub fn cmsgs<'a>(&'a self) -> (it: CmsgIterator<'a>)
        ensures
            it.wf(),
            it.buf_view() == self.cmsg_bytes(),
            it.pos_of() == 0,
            it.is_first(),
    {
        CmsgIterator::new(self.cmsg_buffer.as_slice())
    }
}

} // verus!
