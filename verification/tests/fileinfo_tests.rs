use quark::fileinfo::AcceptQueue;
use quark::fileinfo::IOMgr;
use quark::fileinfo::RDMADataSock;
use quark::fileinfo::RDMAServerSock;
use quark::fileinfo::SockAddrInet;
use quark::fileinfo::SockInfo;
use quark::fileinfo::SocketBuff;
use quark::fileinfo::WaitInfo;
use quark::fileinfo::AF_INET;

fn data(rdma: u32) -> SockInfo {
    SockInfo::RDMADataSocket(RDMADataSock::New(
        rdma,
        SocketBuff::InitWithShareMemory(1),
        2,
        3,
        4,
        5,
        6,
    ))
}

#[test]
fn socket_address_is_laid_out_byte_by_byte() {
    let a = SockAddrInet::New(0x1F90, 0xC0A80102);
    assert_eq!(a.Family, AF_INET);
    assert_eq!(a.Len(), 16);
    assert_eq!(
        a.Marsh(),
        vec![2, 0, 0x90, 0x1F, 0xC0, 0xA8, 0x01, 0x02, 0, 0, 0, 0, 0, 0, 0, 0]
    );
    let b = SockAddrInet { Family: 0x0A0B, Port: 0xFFEE, Addr: 0x00000001 };
    assert_eq!(
        b.Marsh(),
        vec![0x0B, 0x0A, 0xEE, 0xFF, 0, 0, 0, 1, 0, 0, 0, 0, 0, 0, 0, 0]
    );
}

#[test]
fn descriptors_are_handed_out_lowest_first() {
    let mut io = IOMgr::New();
    assert_eq!(io.FreeFd(), Some(0));
    assert_eq!(io.AddSocket(SockInfo::Socket), Some(0));
    assert_eq!(io.AddSocket(data(1)), Some(1));
    assert_eq!(io.AddSocket(SockInfo::Socket), Some(2));
    assert!(io.Remove(1));
    assert!(!io.Remove(1));
    assert!(!io.Remove(7));
    assert!(!io.Remove(-1));
    assert!(io.GetByHost(1).is_none());
    assert!(io.GetByHost(-1).is_none());
    assert!(io.GetByHost(3).is_none());
    assert_eq!(io.FreeFd(), Some(1));
    assert_eq!(io.AddSocket(SockInfo::Socket), Some(1));
    assert_eq!(io.AddSocket(SockInfo::Socket), Some(3));
    assert!(matches!(io.GetByHost(1).unwrap().sockInfo, SockInfo::Socket));
}

#[test]
fn notifications_collect_until_taken() {
    let mut io = IOMgr::New();
    let fd = io.AddSocket(SockInfo::Socket).unwrap();
    assert!(io.Notify(fd, 0x01));
    assert!(io.Notify(fd, 0x04));
    assert!(io.Notify(fd, 0x01));
    assert!(!io.Notify(fd + 1, 0x01));
    assert!(!io.Notify(-2, 0x01));
    assert_eq!(io.GetByHost(fd).unwrap().waitInfo.notified, 0x05);
    assert_eq!(io.TakeNotified(fd), 0x05);
    assert_eq!(io.TakeNotified(fd), 0);
    assert_eq!(io.TakeNotified(9), 0);
    let mut w = WaitInfo { notified: 0x10 };
    w.Notify(0x03);
    assert_eq!(w.notified, 0x13);
}

#[test]
fn socket_info_is_replaced_and_keeps_notifications() {
    let mut io = IOMgr::New();
    let fd = io.AddSocket(SockInfo::Socket).unwrap();
    io.Notify(fd, 0x04);
    assert!(io.SetSockInfo(fd, data(9)));
    assert!(!io.SetSockInfo(5, data(9)));
    let e = io.GetByHost(fd).unwrap();
    assert_eq!(e.waitInfo.notified, 0x04);
    match &e.sockInfo {
        SockInfo::RDMADataSocket(d) => {
            assert_eq!(d.rdmaId, 9);
            assert_eq!(d.socketBuf, SocketBuff { ioBufIndex: 1, rClosed: false });
            assert_eq!((d.channelId, d.localIpAddr, d.localPort), (2, 3, 4));
            assert_eq!((d.peerIpAddr, d.peerPort), (5, 6));
        }
        _ => panic!("not a data socket"),
    }
    assert!(io.SetRClosed(fd));
    match &io.GetByHost(fd).unwrap().sockInfo {
        SockInfo::RDMADataSocket(d) => assert!(d.socketBuf.rClosed),
        _ => panic!("not a data socket"),
    }
    let plain = io.AddSocket(SockInfo::Socket).unwrap();
    assert!(!io.SetRClosed(plain));
    assert!(!io.SetRClosed(17));
}

#[test]
fn backlog_reports_first_entry_and_remaining_room() {
    let mut q = AcceptQueue::New(3);
    let addr = SockAddrInet::New(1, 2);
    let buf = SocketBuff::InitWithShareMemory(0);
    assert_eq!(q.EnqSocket(10, addr, 16, buf), (true, true));
    assert_eq!(q.EnqSocket(11, addr, 16, buf), (false, true));
    assert_eq!(q.EnqSocket(12, addr, 16, buf), (false, false));
    assert_eq!(q.EnqSocket(13, addr, 16, buf), (false, false));
    assert_eq!(q.Len(), 4);
    assert_eq!(q.queue.iter().map(|i| i.fd).collect::<Vec<i32>>(), vec![10, 11, 12, 13]);

    let mut io = IOMgr::New();
    let plain = io.AddSocket(SockInfo::Socket).unwrap();
    let lfd = io
        .AddSocket(SockInfo::RDMAServerSocket(RDMAServerSock {
            rdmaId: 1,
            acceptQueue: AcceptQueue::New(1),
        }))
        .unwrap();
    assert_eq!(io.EnqSocket(plain, 5, addr, 16, buf), None);
    assert_eq!(io.EnqSocket(9, 5, addr, 16, buf), None);
    assert_eq!(io.EnqSocket(lfd, 5, addr, 16, buf), Some((true, false)));
    assert_eq!(io.EnqSocket(lfd, 6, addr, 16, buf), Some((false, false)));
}

#[test]
fn socket_buffer_closes_its_read_side_for_good() {
    let mut b = SocketBuff::InitWithShareMemory(3);
    assert!(!b.RClosed());
    b.SetRClosed();
    assert!(b.RClosed());
    b.SetRClosed();
    assert!(b.RClosed());
    assert_eq!(b.ioBufIndex, 3);
}
