use quark::fileinfo::AcceptQueue;
use quark::fileinfo::IOMgr;
use quark::fileinfo::RDMADataSock;
use quark::fileinfo::RDMAServerSock;
use quark::fileinfo::SockAddrInet;
use quark::fileinfo::SockInfo;
use quark::fileinfo::SocketBuff;
use quark::fileinfo::AF_INET;
use quark::mapping::ForgetChannel;
use quark::mapping::ForgetSocket;
use quark::mapping::LookupChannel;
use quark::mapping::LookupSocket;
use quark::mapping::RegisterChannel;
use quark::mapping::RegisterSocket;
use quark::rdma_dispatch::FatalReason;
use quark::rdma_dispatch::Outcome;
use quark::rdma_dispatch::SkipReason;
use quark::rdma_share::ClientShareRegion;
use quark::rdma_share::Endpoint;
use quark::rdma_share::RdmaError;
use quark::rdma_share::RDMAAcceptResp;
use quark::rdma_share::RDMACloseReq;
use quark::rdma_share::RDMAConnectReq;
use quark::rdma_share::RDMAConnectReqUsingPodId;
use quark::rdma_share::RDMAConnectResp;
use quark::rdma_share::RDMAFinNotifyResp;
use quark::rdma_share::RDMAListenReq;
use quark::rdma_share::RDMAListenReqUsingPodId;
use quark::rdma_share::RDMANotifyResp;
use quark::rdma_share::RDMAReadReq;
use quark::rdma_share::RDMAReq;
use quark::rdma_share::RDMAReqMsg;
use quark::rdma_share::RDMAResp;
use quark::rdma_share::RDMARespMsg;
use quark::rdma_share::RDMAShutdownReq;
use quark::rdma_share::RDMAWriteReq;
use quark::rdma_share::ShareRegion;
use quark::rdma_share::EVENT_IN;
use quark::rdma_share::EVENT_OUT;
use quark::rdma_svc_cli::RDMASvcClient;

fn pod() -> [u8; 64] {
    let mut p = [0u8; 64];
    for (i, b) in p.iter_mut().enumerate() {
        *b = i as u8;
    }
    p
}

fn client(agent: u32, sq: usize, cq: usize) -> RDMASvcClient {
    RDMASvcClient::New(agent, pod(), ClientShareRegion::New(sq, cq, 4), ShareRegion::New())
}

fn resp(msg: RDMARespMsg) -> RDMAResp {
    RDMAResp { user_data: 0, msg }
}

fn connect_resp(sockfd: u32, channel: u32, buf: u32) -> RDMAResp {
    resp(RDMARespMsg::RDMAConnect(RDMAConnectResp {
        sockfd,
        ioBufIndex: buf,
        channelId: channel,
        dstIpAddr: 0x0A000001,
        dstPort: 443,
        srcIpAddr: 0x0A000002,
        srcPort: 50000,
    }))
}

fn accept_resp(sockfd: u32, channel: u32, buf: u32) -> RDMAResp {
    resp(RDMARespMsg::RDMAAccept(RDMAAcceptResp {
        sockfd,
        ioBufIndex: buf,
        channelId: channel,
        dstIpAddr: 0xC0A80102,
        dstPort: 0x1F90,
        srcIpAddr: 0x0A000002,
        srcPort: 80,
    }))
}

fn listener(io: &mut IOMgr, rdma: u32, backlog: usize) -> i32 {
    io.AddSocket(SockInfo::RDMAServerSocket(RDMAServerSock {
        rdmaId: rdma,
        acceptQueue: AcceptQueue::New(backlog),
    }))
    .unwrap()
}

fn notified(io: &IOMgr, fd: i32) -> u64 {
    io.GetByHost(fd).unwrap().waitInfo.notified
}

#[test]
fn signal_goes_out_exactly_when_service_sleeps() {
    let mut c = client(3, 16, 16);
    let mut signals = 0;
    // the service polls: no signal
    for ch in 0..3 {
        if c.read(ch).unwrap() {
            signals += 1;
        }
    }
    assert_eq!(signals, 0);
    // the service sleeps: one signal for each look
    c.intern.srvShareRegion.srvBitmap = 1;
    for ch in 0..4 {
        if c.write(ch).unwrap() {
            signals += 1;
        }
    }
    assert_eq!(signals, 4);
    c.intern.srvShareRegion.srvBitmap = 0;
    assert_eq!(c.close(1), Ok(false));
    assert_eq!(signals, 4);
    // any other value of the flag is not "asleep"
    c.intern.srvShareRegion.srvBitmap = 2;
    assert_eq!(c.close(1), Ok(false));
    c.intern.srvShareRegion.srvBitmap = 1;
    assert!(c.updateBitmapAndWakeUpServerIfNecessary());
    assert_eq!(c.intern.srvShareRegion.srvBitmap, 1);
}

#[test]
fn submit_marks_the_client_in_the_bitmap() {
    let mut c = client(130, 4, 4);
    assert!(!c.intern.srvShareRegion.IsPending(130));
    assert_eq!(c.read(9), Ok(false));
    assert!(c.intern.srvShareRegion.IsPending(130));
    assert!(!c.intern.srvShareRegion.IsPending(129));
    assert!(!c.intern.srvShareRegion.IsPending(131));
    assert!(!c.intern.srvShareRegion.IsPending(2));
    assert!(!c.intern.srvShareRegion.IsPending(40000));
    // word 2, bit 2
    assert_eq!(c.intern.srvShareRegion.bitmap[2], 1 << 2);
    let mut r = ShareRegion::New();
    r.updateBitmap(0);
    r.updateBitmap(63);
    r.updateBitmap(64);
    r.updateBitmap(32767);
    r.updateBitmap(63);
    assert_eq!(r.bitmap[0], 1 | (1 << 63));
    assert_eq!(r.bitmap[1], 1);
    assert_eq!(r.bitmap[511], 1 << 63);
    assert!(r.IsPending(32767));
    assert!(!r.IsPending(32766));
}

#[test]
fn full_ring_fails_without_retry_or_mark() {
    let mut c = client(7, 2, 2);
    c.intern.srvShareRegion.srvBitmap = 1;
    assert_eq!(c.read(1), Ok(true));
    assert_eq!(c.read(2), Ok(true));
    let mut other = client(8, 0, 0);
    other.intern.srvShareRegion.srvBitmap = 1;
    assert_eq!(other.shutdown(1, 2), Err(RdmaError::NoEnoughSpace));
    assert!(!other.intern.srvShareRegion.IsPending(8));
    assert_eq!(c.read(3), Err(RdmaError::NoEnoughSpace));
    assert_eq!(c.intern.cliShareRegion.sq.DataCount(), 2);
    assert_eq!(
        c.intern.cliShareRegion.sq.Pop(),
        Some(RDMAReq { user_data: 0, msg: RDMAReqMsg::RDMARead(RDMAReadReq { channelId: 1 }) })
    );
    assert_eq!(c.read(3), Ok(true));
}

#[test]
fn each_operation_pushes_its_request() {
    let mut c = client(1, 16, 16);
    let ep = Endpoint { ipAddr: 0x7F000001, port: 8080 };
    c.listen(11, &ep, 5).unwrap();
    c.listenUsingPodId(12, 9090, 6).unwrap();
    c.connect(5, 0x0A000001, 443, 0x0A000002, 50000).unwrap();
    c.connectUsingPodId(6, 0x0A000003, 444, 50001).unwrap();
    c.read(21).unwrap();
    c.write(22).unwrap();
    c.shutdown(23, 1).unwrap();
    c.close(24).unwrap();
    let expected = [
        RDMAReqMsg::RDMAListen(RDMAListenReq {
            sockfd: 11,
            ipAddr: 0x7F000001,
            port: 8080,
            waitingLen: 5,
        }),
        RDMAReqMsg::RDMAListenUsingPodId(RDMAListenReqUsingPodId {
            sockfd: 12,
            podId: pod(),
            port: 9090,
            waitingLen: 6,
        }),
        RDMAReqMsg::RDMAConnect(RDMAConnectReq {
            sockfd: 5,
            dstIpAddr: 0x0A000001,
            dstPort: 443,
            srcIpAddr: 0x0A000002,
            srcPort: 50000,
        }),
        RDMAReqMsg::RDMAConnectUsingPodId(RDMAConnectReqUsingPodId {
            sockfd: 6,
            dstIpAddr: 0x0A000003,
            dstPort: 444,
            podId: pod(),
            srcPort: 50001,
        }),
        RDMAReqMsg::RDMARead(RDMAReadReq { channelId: 21 }),
        RDMAReqMsg::RDMAWrite(RDMAWriteReq { channelId: 22 }),
        RDMAReqMsg::RDMAShutdown(RDMAShutdownReq { channelId: 23, howto: 1 }),
        RDMAReqMsg::RDMAClose(RDMACloseReq { channelId: 24 }),
    ];
    for msg in expected {
        assert_eq!(c.intern.cliShareRegion.sq.Pop(), Some(RDMAReq { user_data: 0, msg }));
    }
    assert_eq!(c.intern.cliShareRegion.sq.Pop(), None);
}

#[test]
fn connect_completion_installs_data_socket_and_notifies_writers() {
    let mut c = client(0, 8, 8);
    let mut io = IOMgr::New();
    for _ in 0..3 {
        io.AddSocket(SockInfo::Socket).unwrap();
    }
    let fd = io.AddSocket(SockInfo::Socket).unwrap();
    assert_eq!(fd, 3);
    RegisterSocket(&mut c.intern.rdmaIdToSocketMappings, 5, fd);
    assert_eq!(c.connect(5, 0x0A000001, 443, 0x0A000002, 50000), Ok(false));
    // the service takes the request and answers it
    let req = c.intern.cliShareRegion.sq.Pop().unwrap();
    assert_eq!(
        req.msg,
        RDMAReqMsg::RDMAConnect(RDMAConnectReq {
            sockfd: 5,
            dstIpAddr: 0x0A000001,
            dstPort: 443,
            srcIpAddr: 0x0A000002,
            srcPort: 50000,
        })
    );
    assert!(c.intern.cliShareRegion.cq.Push(connect_resp(5, 7, 0)));
    let report = c.DrainCompletionQueue(&mut io);
    assert_eq!(report.count, 1);
    assert_eq!(report.first, Outcome::Handled);
    assert_eq!(report.second, Outcome::Handled);
    assert_eq!(LookupChannel(&c.intern.channelToSocketMappings, 7), Some(5));
    assert_eq!(c.Resolve(7), Ok(fd));
    assert_eq!(notified(&io, fd) & EVENT_OUT, EVENT_OUT);
    assert_eq!(notified(&io, fd), EVENT_OUT);
    match &io.GetByHost(fd).unwrap().sockInfo {
        SockInfo::RDMADataSocket(d) => assert_eq!(
            *d,
            RDMADataSock {
                rdmaId: 5,
                socketBuf: SocketBuff { ioBufIndex: 0, rClosed: false },
                channelId: 7,
                localIpAddr: 0x0A000002,
                localPort: 50000,
                peerIpAddr: 0x0A000001,
                peerPort: 443,
            }
        ),
        _ => panic!("not a data socket"),
    }
    // the client asks to be woken up after a drain
    assert_eq!(c.intern.cliShareRegion.clientBitmap, 1);
    assert_eq!(notified(&io, 0), 0);
}

#[test]
fn accept_completion_creates_descriptor_and_fills_backlog() {
    let mut c = client(0, 8, 8);
    let mut io = IOMgr::New();
    io.AddSocket(SockInfo::Socket).unwrap();
    let lfd = listener(&mut io, 40, 8);
    assert_eq!(lfd, 1);
    RegisterSocket(&mut c.intern.rdmaIdToSocketMappings, 40, lfd);
    c.intern.nextRDMAId = 100;
    assert!(c.intern.cliShareRegion.cq.Push(accept_resp(40, 9, 2)));
    let report = c.DrainCompletionQueue(&mut io);
    assert_eq!((report.count, report.first, report.second), (1, Outcome::Handled, Outcome::Handled));
    // a new descriptor exists, at the lowest free number
    let newfd = 2;
    assert_eq!(LookupSocket(&c.intern.rdmaIdToSocketMappings, 100), Some(newfd));
    assert_eq!(LookupChannel(&c.intern.channelToSocketMappings, 9), Some(100));
    assert_eq!(c.intern.nextRDMAId, 101);
    match &io.GetByHost(newfd).unwrap().sockInfo {
        SockInfo::RDMADataSocket(d) => {
            assert_eq!(d.rdmaId, 100);
            assert_eq!(d.channelId, 9);
            assert_eq!(d.socketBuf, SocketBuff { ioBufIndex: 2, rClosed: false });
            assert_eq!((d.localIpAddr, d.localPort), (0x0A000002, 80));
            assert_eq!((d.peerIpAddr, d.peerPort), (0xC0A80102, 0x1F90));
        }
        _ => panic!("not a data socket"),
    }
    match &io.GetByHost(lfd).unwrap().sockInfo {
        SockInfo::RDMAServerSocket(s) => {
            assert_eq!(s.acceptQueue.Len(), 1);
            let item = s.acceptQueue.queue[0];
            assert_eq!(item.fd, newfd);
            assert_eq!(item.len, 16);
            assert_eq!(item.addr, SockAddrInet { Family: AF_INET, Port: 0x1F90, Addr: 0xC0A80102 });
            assert_eq!(item.sockBuf.ioBufIndex, 2);
        }
        _ => panic!("not a listener"),
    }
    // the backlog was empty: the accepting thread is woken up
    assert_eq!(notified(&io, lfd), EVENT_IN);
    assert_eq!(notified(&io, newfd), 0);
    // a second connection finds the backlog filled: no second wake-up
    io.TakeNotified(lfd);
    assert!(c.intern.cliShareRegion.cq.Push(accept_resp(40, 10, 3)));
    assert_eq!(c.ProcessRDMASvcMessage(&mut io), (1, Outcome::Handled));
    assert_eq!(notified(&io, lfd), 0);
    assert_eq!(LookupSocket(&c.intern.rdmaIdToSocketMappings, 101), Some(3));
    match &io.GetByHost(lfd).unwrap().sockInfo {
        SockInfo::RDMAServerSocket(s) => assert_eq!(s.acceptQueue.Len(), 2),
        _ => panic!("not a listener"),
    }
}

#[test]
fn fin_notify_closes_read_side_and_notifies_readers() {
    let mut c = client(0, 8, 8);
    let mut io = IOMgr::New();
    let fd = io.AddSocket(SockInfo::Socket).unwrap();
    RegisterSocket(&mut c.intern.rdmaIdToSocketMappings, 5, fd);
    assert!(c.intern.cliShareRegion.cq.Push(connect_resp(5, 7, 1)));
    assert_eq!(c.DrainCompletionQueue(&mut io).count, 1);
    assert_eq!(io.TakeNotified(fd), EVENT_OUT);
    assert!(c.intern.cliShareRegion.cq.Push(resp(RDMARespMsg::RDMAFinNotify(
        RDMAFinNotifyResp { channelId: 7, event: 0 }
    ))));
    let report = c.DrainCompletionQueue(&mut io);
    assert_eq!((report.count, report.first, report.second), (1, Outcome::Handled, Outcome::Handled));
    match &io.GetByHost(fd).unwrap().sockInfo {
        SockInfo::RDMADataSocket(d) => {
            assert!(d.socketBuf.RClosed());
            assert_eq!(d.socketBuf.ioBufIndex, 1);
            assert_eq!(d.channelId, 7);
        }
        _ => panic!("not a data socket"),
    }
    assert_eq!(notified(&io, fd), EVENT_IN);
}

#[test]
fn fin_notify_leaves_other_sockets_alone() {
    let mut c = client(0, 8, 8);
    let mut io = IOMgr::New();
    let lfd = listener(&mut io, 1, 2);
    RegisterSocket(&mut c.intern.rdmaIdToSocketMappings, 1, lfd);
    RegisterChannel(&mut c.intern.channelToSocketMappings, 50, 1);
    assert!(c.intern.cliShareRegion.cq.Push(resp(RDMARespMsg::RDMAFinNotify(
        RDMAFinNotifyResp { channelId: 50, event: 0 }
    ))));
    assert_eq!(c.ProcessRDMASvcMessage(&mut io), (1, Outcome::Handled));
    assert_eq!(notified(&io, lfd), 0);
}

#[test]
fn notify_wakes_the_waiters_that_the_event_names() {
    let mut c = client(0, 8, 8);
    let mut io = IOMgr::New();
    let fd = io.AddSocket(SockInfo::Socket).unwrap();
    RegisterSocket(&mut c.intern.rdmaIdToSocketMappings, 5, fd);
    assert_eq!(c.ProcessResponse(&mut io, connect_resp(5, 7, 0)), Outcome::Handled);
    assert_eq!(io.TakeNotified(fd), EVENT_OUT);
    let cases = [
        (0u64, 0u64),
        (EVENT_IN, EVENT_IN),
        (EVENT_OUT, EVENT_OUT),
        (EVENT_IN | EVENT_OUT, EVENT_IN | EVENT_OUT),
        (0x02 | 0x08 | 0x10, 0),
        (0xff, EVENT_IN | EVENT_OUT),
    ];
    for (event, expected) in cases {
        assert!(c.intern.cliShareRegion.cq.Push(resp(RDMARespMsg::RDMANotify(RDMANotifyResp {
            channelId: 7,
            event,
        }))));
        assert_eq!(c.ProcessRDMASvcMessage(&mut io), (1, Outcome::Handled));
        assert_eq!(io.TakeNotified(fd), expected);
    }
}

#[test]
fn lookup_miss_ends_the_pass_and_the_second_pass_goes_on() {
    let mut c = client(0, 8, 8);
    let mut io = IOMgr::New();
    let fd = io.AddSocket(SockInfo::Socket).unwrap();
    RegisterSocket(&mut c.intern.rdmaIdToSocketMappings, 5, fd);
    assert_eq!(c.ProcessResponse(&mut io, connect_resp(5, 7, 0)), Outcome::Handled);
    RegisterChannel(&mut c.intern.channelToSocketMappings, 8, 77);
    let notify = |ch| resp(RDMARespMsg::RDMANotify(RDMANotifyResp { channelId: ch, event: EVENT_IN }));
    for ch in [7, 99, 7, 8, 7] {
        assert!(c.intern.cliShareRegion.cq.Push(notify(ch)));
    }
    // one pass: handles one, stops at the unknown channel, which it consumed
    assert_eq!(
        c.ProcessRDMASvcMessage(&mut io),
        (2, Outcome::Skip(SkipReason::UnknownChannel(99)))
    );
    assert_eq!(c.intern.cliShareRegion.cq.DataCount(), 3);
    // a drain: the first pass stops at the unknown connection, the second takes the rest
    let report = c.DrainCompletionQueue(&mut io);
    assert_eq!(report.count, 3);
    assert_eq!(report.first, Outcome::Skip(SkipReason::UnknownRdmaId(77)));
    assert_eq!(report.second, Outcome::Handled);
    assert!(c.intern.cliShareRegion.cq.IsEmpty());
    assert_eq!(c.ProcessRDMASvcMessage(&mut io), (0, Outcome::Handled));
    assert_eq!(c.Resolve(99), Err(SkipReason::UnknownChannel(99)));
    assert_eq!(c.Resolve(8), Err(SkipReason::UnknownRdmaId(77)));
}

#[test]
fn corrupt_state_is_reported_as_fatal_and_changes_nothing() {
    let mut c = client(0, 8, 8);
    let mut io = IOMgr::New();
    let plain = io.AddSocket(SockInfo::Socket).unwrap();
    let lfd = listener(&mut io, 2, 4);
    RegisterSocket(&mut c.intern.rdmaIdToSocketMappings, 1, plain);
    RegisterSocket(&mut c.intern.rdmaIdToSocketMappings, 2, lfd);
    RegisterSocket(&mut c.intern.rdmaIdToSocketMappings, 3, 55);
    // accept on a descriptor that does not listen
    assert_eq!(
        c.ProcessResponse(&mut io, accept_resp(1, 9, 0)),
        Outcome::Fatal(FatalReason::WrongSocketType(plain))
    );
    // connect on a descriptor that is no plain socket
    assert_eq!(
        c.ProcessResponse(&mut io, connect_resp(2, 9, 0)),
        Outcome::Fatal(FatalReason::WrongSocketType(lfd))
    );
    // the tables lead to a descriptor that is not in use
    assert_eq!(
        c.ProcessResponse(&mut io, connect_resp(3, 9, 0)),
        Outcome::Fatal(FatalReason::DescriptorMissing(55))
    );
    // an I/O buffer that the region lacks
    assert_eq!(
        c.ProcessResponse(&mut io, connect_resp(1, 9, 4)),
        Outcome::Fatal(FatalReason::IoBufOutOfRange(4))
    );
    assert_eq!(
        c.ProcessResponse(&mut io, accept_resp(2, 9, 17)),
        Outcome::Fatal(FatalReason::IoBufOutOfRange(17))
    );
    // an unknown connection is only skipped
    assert_eq!(
        c.ProcessResponse(&mut io, accept_resp(8, 9, 0)),
        Outcome::Skip(SkipReason::UnknownRdmaId(8))
    );
    assert_eq!(LookupChannel(&c.intern.channelToSocketMappings, 9), None);
    assert_eq!(c.intern.nextRDMAId, 0);
    assert_eq!(notified(&io, plain), 0);
    assert_eq!(notified(&io, lfd), 0);
    assert!(io.GetByHost(2).is_none());
    // a fatal first pass ends the drain: the flag stays cleared, the rest stays pending
    assert!(c.intern.cliShareRegion.cq.Push(accept_resp(1, 9, 0)));
    assert!(c.intern.cliShareRegion.cq.Push(connect_resp(1, 9, 0)));
    let report = c.DrainCompletionQueue(&mut io);
    assert_eq!(report.count, 1);
    assert_eq!(report.first, Outcome::Fatal(FatalReason::WrongSocketType(plain)));
    assert_eq!(report.second, Outcome::Handled);
    assert_eq!(c.intern.cliShareRegion.clientBitmap, 0);
    assert_eq!(c.intern.cliShareRegion.cq.DataCount(), 1);
}

#[test]
fn connection_identifiers_wrap_around() {
    let mut c = client(0, 8, 8);
    let mut io = IOMgr::New();
    let lfd = listener(&mut io, 40, 8);
    RegisterSocket(&mut c.intern.rdmaIdToSocketMappings, 40, lfd);
    c.intern.nextRDMAId = u32::MAX;
    assert_eq!(c.ProcessResponse(&mut io, accept_resp(40, 1, 0)), Outcome::Handled);
    assert_eq!(c.intern.nextRDMAId, 0);
    assert_eq!(LookupSocket(&c.intern.rdmaIdToSocketMappings, u32::MAX), Some(1));
    assert_eq!(c.ProcessResponse(&mut io, accept_resp(40, 2, 0)), Outcome::Handled);
    assert_eq!(c.intern.nextRDMAId, 1);
    assert_eq!(LookupSocket(&c.intern.rdmaIdToSocketMappings, 0), Some(2));
}

#[test]
fn default_client_has_no_room_and_empty_tables() {
    let mut c = RDMASvcClient::default();
    assert_eq!(c.intern.agentId, 0);
    assert_eq!(c.intern.cliSock.fd, -1);
    assert_eq!(c.intern.podId, [0u8; 64]);
    assert_eq!(c.intern.nextRDMAId, 0);
    assert!(c.intern.channelToSocketMappings.is_empty());
    assert!(c.intern.rdmaIdToSocketMappings.is_empty());
    assert_eq!(c.read(1), Err(RdmaError::NoEnoughSpace));
    let mut io = IOMgr::New();
    assert_eq!(c.DrainCompletionQueue(&mut io).count, 0);
}

#[test]
fn tables_register_look_up_and_forget() {
    let mut c = client(0, 1, 1);
    RegisterChannel(&mut c.intern.channelToSocketMappings, 7, 5);
    RegisterChannel(&mut c.intern.channelToSocketMappings, 7, 6);
    RegisterSocket(&mut c.intern.rdmaIdToSocketMappings, 6, -3);
    assert_eq!(LookupChannel(&c.intern.channelToSocketMappings, 7), Some(6));
    assert_eq!(LookupChannel(&c.intern.channelToSocketMappings, 6), None);
    assert_eq!(LookupSocket(&c.intern.rdmaIdToSocketMappings, 6), Some(-3));
    assert_eq!(c.Resolve(7), Ok(-3));
    ForgetSocket(&mut c.intern.rdmaIdToSocketMappings, 6);
    assert_eq!(c.Resolve(7), Err(SkipReason::UnknownRdmaId(6)));
    ForgetChannel(&mut c.intern.channelToSocketMappings, 7);
    assert_eq!(c.Resolve(7), Err(SkipReason::UnknownChannel(7)));
    ForgetChannel(&mut c.intern.channelToSocketMappings, 7);
    assert_eq!(LookupChannel(&c.intern.channelToSocketMappings, 7), None);
}

#[test]
fn identifiers_in_use_are_passed_over() {
    let mut c = client(0, 8, 8);
    let mut io = IOMgr::New();
    let lfd = listener(&mut io, 40, 8);
    RegisterSocket(&mut c.intern.rdmaIdToSocketMappings, 40, lfd);
    RegisterSocket(&mut c.intern.rdmaIdToSocketMappings, 41, 90);
    RegisterSocket(&mut c.intern.rdmaIdToSocketMappings, 43, 91);
    c.intern.nextRDMAId = 40;
    assert_eq!(c.FreshRdmaId(), Some(42));
    assert_eq!(c.ProcessResponse(&mut io, accept_resp(40, 1, 0)), Outcome::Handled);
    assert_eq!(LookupSocket(&c.intern.rdmaIdToSocketMappings, 42), Some(1));
    assert_eq!(LookupSocket(&c.intern.rdmaIdToSocketMappings, 40), Some(lfd));
    assert_eq!(LookupSocket(&c.intern.rdmaIdToSocketMappings, 41), Some(90));
    assert_eq!(c.intern.nextRDMAId, 43);
    assert_eq!(c.FreshRdmaId(), Some(44));
    assert_eq!(c.ProcessResponse(&mut io, accept_resp(40, 2, 0)), Outcome::Handled);
    assert_eq!(LookupSocket(&c.intern.rdmaIdToSocketMappings, 43), Some(91));
    assert_eq!(LookupSocket(&c.intern.rdmaIdToSocketMappings, 44), Some(2));
    assert_eq!(c.intern.nextRDMAId, 45);
    // at the end of the cycle the search goes on at 0
    RegisterSocket(&mut c.intern.rdmaIdToSocketMappings, u32::MAX, 92);
    RegisterSocket(&mut c.intern.rdmaIdToSocketMappings, 0, 93);
    c.intern.nextRDMAId = u32::MAX;
    assert_eq!(c.FreshRdmaId(), Some(1));
}

#[test]
fn stale_entries_never_reach_another_descriptor() {
    let mut c = client(0, 8, 8);
    let mut io = IOMgr::New();
    let fd = io.AddSocket(SockInfo::Socket).unwrap();
    RegisterSocket(&mut c.intern.rdmaIdToSocketMappings, 5, fd);
    assert_eq!(c.ProcessResponse(&mut io, connect_resp(5, 7, 0)), Outcome::Handled);
    assert_eq!(c.OwnsChannel(&io, fd, 7), Some(true));
    assert_eq!(c.OwnsChannel(&io, fd + 1, 7), None);
    io.TakeNotified(fd);
    // the descriptor is given up and taken again for another socket
    assert!(io.Remove(fd));
    assert_eq!(io.AddSocket(SockInfo::Socket), Some(fd));
    assert_eq!(c.OwnsChannel(&io, fd, 7), Some(false));
    let notify = resp(RDMARespMsg::RDMANotify(RDMANotifyResp { channelId: 7, event: EVENT_IN }));
    assert_eq!(
        c.ProcessResponse(&mut io, notify),
        Outcome::Skip(SkipReason::StaleChannel(7))
    );
    let fin = resp(RDMARespMsg::RDMAFinNotify(RDMAFinNotifyResp { channelId: 7, event: 0 }));
    assert_eq!(c.ProcessResponse(&mut io, fin), Outcome::Handled);
    assert_eq!(notified(&io, fd), 0);
    // a connected socket of another channel is left alone as well
    RegisterSocket(&mut c.intern.rdmaIdToSocketMappings, 6, fd);
    assert_eq!(c.ProcessResponse(&mut io, connect_resp(6, 8, 1)), Outcome::Handled);
    io.TakeNotified(fd);
    assert_eq!(
        c.ProcessResponse(&mut io, notify),
        Outcome::Skip(SkipReason::StaleChannel(7))
    );
    assert_eq!(c.ProcessResponse(&mut io, fin), Outcome::Handled);
    assert_eq!(notified(&io, fd), 0);
    match &io.GetByHost(fd).unwrap().sockInfo {
        SockInfo::RDMADataSocket(d) => assert!(!d.socketBuf.RClosed()),
        _ => panic!("not a data socket"),
    }
}
