use sockmsg::addr::{
    AddrError, AddressFamily, InetAddr, Ipv4Addr, Ipv6Addr, NetlinkAddr, SockAddr, UnixAddr,
    sockaddr_storage_to_addr,
};
use sockmsg::cmsg::{ControlMessage, encode_cmsgs};
use sockmsg::layout::{
    AF_INET, AF_INET6, AF_NETLINK, AF_UNIX, SHUT_RD, SHUT_RDWR, SHUT_WR, SOCKADDR_IN6_LEN,
    SOCKADDR_IN_LEN, SOCKADDR_NL_LEN, SOCKADDR_STORAGE_LEN,
};
use sockmsg::msg::{CmsgSpace, MsgFlags, RecvMsg, Shutdown, shutdown_how};

#[test]
fn ipv4_round_trip() {
    let addr = SockAddr::Inet(InetAddr::V4(Ipv4Addr { octets: vec![127, 0, 0, 1], port: 0 }));
    let bytes = addr.to_storage_bytes();
    assert_eq!(bytes.len(), SOCKADDR_IN_LEN);
    let back = sockaddr_storage_to_addr(&bytes, bytes.len()).unwrap();
    assert_eq!(back, addr);
}

#[test]
fn ipv4_port_is_network_order() {
    let addr = SockAddr::Inet(InetAddr::V4(Ipv4Addr { octets: vec![10, 0, 0, 2], port: 0x1234 }));
    let bytes = addr.to_storage_bytes();
    assert_eq!(bytes[0], 2); // family, little-endian
    assert_eq!(bytes[1], 0);
    assert_eq!(bytes[2], 0x12); // port, big-endian
    assert_eq!(bytes[3], 0x34);
    assert_eq!(&bytes[4..8], &[10, 0, 0, 2]);
    assert_eq!(&bytes[8..16], &[0u8; 8]);
}

#[test]
fn ipv6_round_trip() {
    let mut octets = vec![0u8; 16];
    octets[15] = 1; // the loopback address
    let addr = SockAddr::Inet(InetAddr::V6(Ipv6Addr {
        octets,
        port: 0,
        flowinfo: 0,
        scope_id: 0,
    }));
    let bytes = addr.to_storage_bytes();
    assert_eq!(bytes.len(), SOCKADDR_IN6_LEN);
    let back = sockaddr_storage_to_addr(&bytes, bytes.len()).unwrap();
    assert_eq!(back, addr);
}

#[test]
fn unix_round_trip_keeps_path_length() {
    let path: Vec<u8> = b"/tmp/s".to_vec();
    let addr = SockAddr::Unix(UnixAddr { path: path.clone() });
    let bytes = addr.to_storage_bytes();
    assert_eq!(bytes.len(), 2 + path.len());
    // Parse from a full-size storage buffer with the declared length, as
    // the kernel reports it: the path length must come back from the
    // declared length, not from the storage capacity.
    let mut storage = bytes.clone();
    storage.resize(SOCKADDR_STORAGE_LEN, 0);
    let back = sockaddr_storage_to_addr(&storage, bytes.len()).unwrap();
    match &back {
        SockAddr::Unix(u) => assert_eq!(u.path.len(), path.len()),
        _ => panic!("wrong variant"),
    }
    assert_eq!(back, addr);
}

#[test]
fn netlink_round_trip() {
    let addr = SockAddr::Netlink(NetlinkAddr { pid: 4242, groups: 7 });
    let bytes = addr.to_storage_bytes();
    assert_eq!(bytes.len(), SOCKADDR_NL_LEN);
    let back = sockaddr_storage_to_addr(&bytes, bytes.len()).unwrap();
    assert_eq!(back, addr);
}

#[test]
fn unknown_family_is_rejected() {
    let mut buf = vec![0u8; SOCKADDR_STORAGE_LEN];
    buf[0] = 99; // a family discriminant the library does not know
    let r = sockaddr_storage_to_addr(&buf, 16);
    assert_eq!(r, Err(AddrError::UnexpectedFamily));
}

#[test]
fn length_shorter_than_family_field() {
    let buf = vec![0u8; SOCKADDR_STORAGE_LEN];
    assert_eq!(sockaddr_storage_to_addr(&buf, 0), Err(AddrError::NotConnected));
    assert_eq!(sockaddr_storage_to_addr(&buf, 1), Err(AddrError::NotConnected));
}

#[test]
fn inet_size_mismatch() {
    let mut buf = vec![0u8; SOCKADDR_STORAGE_LEN];
    buf[0] = AF_INET as u8;
    assert_eq!(sockaddr_storage_to_addr(&buf, SOCKADDR_IN_LEN + 1), Err(AddrError::SizeMismatch));
    buf[0] = AF_INET6 as u8;
    assert_eq!(sockaddr_storage_to_addr(&buf, SOCKADDR_IN6_LEN - 1), Err(AddrError::SizeMismatch));
}

#[test]
fn recv_msg_from_parts_decodes_address() {
    let addr = SockAddr::Inet(InetAddr::V4(Ipv4Addr { octets: vec![127, 0, 0, 1], port: 80 }));
    let mut storage = addr.to_storage_bytes();
    let addr_len = storage.len();
    storage.resize(SOCKADDR_STORAGE_LEN, 0);
    let cmsgs = encode_cmsgs(&vec![ControlMessage::ScmRights(vec![3])]);
    let r = RecvMsg::from_parts(5, cmsgs, &storage, addr_len, MsgFlags::empty());
    assert_eq!(r.bytes, 5);
    assert_eq!(r.flags.bits, 0);
    assert_eq!(r.address, Some(addr));
    let mut it = r.cmsgs();
    assert_eq!(it.next(), Some(ControlMessage::ScmRights(vec![3])));
    assert_eq!(it.next(), None);
}

#[test]
fn recv_msg_swallows_bad_address() {
    let mut storage = vec![0u8; SOCKADDR_STORAGE_LEN];
    storage[0] = 99;
    let r = RecvMsg::from_parts(1, Vec::new(), &storage, 16, MsgFlags::empty());
    assert_eq!(r.address, None);
    assert_eq!(r.bytes, 1); // an unparseable address never masks the transfer
}

#[test]
fn cmsg_space_capacity() {
    // Room for a one-handle rights payload: header (16) plus 4, padded to 24.
    assert_eq!(CmsgSpace::new(4).capacity(), 24);
    // Room for a timestamp payload: header plus 16, already aligned.
    assert_eq!(CmsgSpace::new(16).capacity(), 32);
    // Nesting accumulates.
    assert_eq!(CmsgSpace::new(4).and_space(16).capacity(), 56);
}

#[test]
fn shutdown_how_values() {
    assert_eq!(shutdown_how(Shutdown::Read), SHUT_RD);
    assert_eq!(shutdown_how(Shutdown::Write), SHUT_WR);
    assert_eq!(shutdown_how(Shutdown::Both), SHUT_RDWR);
    assert_eq!(SHUT_RD, libc::SHUT_RD);
    assert_eq!(SHUT_WR, libc::SHUT_WR);
    assert_eq!(SHUT_RDWR, libc::SHUT_RDWR);
}

#[test]
fn address_family_constants() {
    assert_eq!(AF_UNIX as i32, libc::AF_UNIX);
    assert_eq!(AF_INET as i32, libc::AF_INET);
    assert_eq!(AF_INET6 as i32, libc::AF_INET6);
    assert_eq!(AF_NETLINK as i32, libc::AF_NETLINK);
    assert_eq!(SOCKADDR_IN_LEN, std::mem::size_of::<libc::sockaddr_in>());
    assert_eq!(SOCKADDR_IN6_LEN, std::mem::size_of::<libc::sockaddr_in6>());
    assert_eq!(SOCKADDR_NL_LEN, std::mem::size_of::<libc::sockaddr_nl>());
}

#[test]
pub fn test_struct_sizes() {
    assert_eq!(SOCKADDR_STORAGE_LEN, std::mem::size_of::<libc::sockaddr_storage>());
}

#[test]
fn family_accessor_and_codes() {
    let v4 = SockAddr::Inet(InetAddr::V4(Ipv4Addr { octets: vec![1, 2, 3, 4], port: 1 }));
    assert_eq!(v4.family(), AddressFamily::Inet);
    assert_eq!(AddressFamily::Inet.family_code(), AF_INET);
    assert_eq!(AddressFamily::Inet6.family_code(), AF_INET6);
    assert_eq!(AddressFamily::Unix.family_code(), AF_UNIX);
    assert_eq!(AddressFamily::Netlink.family_code(), AF_NETLINK);
    let unix = SockAddr::Unix(UnixAddr { path: vec![b'/'] });
    assert_eq!(unix.family(), AddressFamily::Unix);
}
