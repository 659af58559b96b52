//! The table of local descriptors as the transport sees it: what kind of
//! socket a descriptor holds, which connections wait in a listening
//! socket's backlog, and which readiness events its waiters were told of.

use vstd::prelude::*;

verus! {

/// The address family of IPv4.
pub const AF_INET: u16 = 2;

/// The number of bytes of a marshalled IPv4 socket address.
pub const SOCK_ADDR_INET_LEN: usize = 16;

/// The view of a socket onto one I/O buffer of the shared region.
#[derive(Clone, Copy, Debug, PartialEq, Eq)]
pub struct SocketBuff {
    /// The index of the I/O buffer in the shared region.
    pub ioBufIndex: u32,
    /// Whether the peer has closed its side: no more bytes will arrive.
    pub rClosed: bool,
}

impl SocketBuff {
    /// The view onto the I/O buffer `ioBufIndex`, open for reading.
    pub fn InitWithShareMemory(ioBufIndex: u32) -> (b: Self)
        ensures
            b == (SocketBuff { ioBufIndex, rClosed: false }),
    {
        SocketBuff { ioBufIndex, rClosed: false }
    }

    /// Marks the read side as closed for good.
    pub fn SetRClosed(&mut self)
        ensures
            *final(self) == (SocketBuff { rClosed: true, ..*old(self) }),
    {
        self.rClosed = true;
    }

    /// Whether the read side is closed.
    pub fn RClosed(&self) -> (b: bool)
        ensures
            b == self.rClosed,
    {
        self.rClosed
    }
}

/// A connected socket whose data travels through the shared region.
#[derive(Clone, Copy, Debug, PartialEq, Eq)]
pub struct RDMADataSock {
    pub rdmaId: u32,
    pub socketBuf: SocketBuff,
    pub channelId: u32,
    pub localIpAddr: u32,
    pub localPort: u16,
    pub peerIpAddr: u32,
    pub peerPort: u16,
}

impl RDMADataSock {
    /// The connected socket of the connection `rdmaId` over `socketBuf`.
    pub fn New(
        rdmaId: u32,
        socketBuf: SocketBuff,
        channelId: u32,
        localIpAddr: u32,
        localPort: u16,
        peerIpAddr: u32,
        peerPort: u16,
    ) -> (s: Self)
        ensures
            s == (RDMADataSock {
                rdmaId,
                socketBuf,
                channelId,
                localIpAddr,
                localPort,
                peerIpAddr,
                peerPort,
            }),
    {
        RDMADataSock { rdmaId, socketBuf, channelId, localIpAddr, localPort, peerIpAddr, peerPort }
    }
}

/// The four bytes of `x`, most significant first.
pub open spec fn be_bytes(x: u32) -> Seq<u8> {
    seq![(x >> 24) as u8, ((x >> 16) & 0xff) as u8, ((x >> 8) & 0xff) as u8, (x & 0xff) as u8]
}

/// The two bytes of `x`, least significant first.
pub open spec fn le_bytes(x: u16) -> Seq<u8> {
    seq![(x & 0xff) as u8, (x >> 8) as u8]
}

/// An IPv4 socket address. `Port` and `Addr` are in network byte order, as
/// the service reports them.
#[derive(Clone, Copy, Debug, PartialEq, Eq)]
pub struct SockAddrInet {
    pub Family: u16,
    pub Port: u16,
    pub Addr: u32,
}

impl SockAddrInet {
    /// The bytes of the address as the socket interface lays them out: the
    /// family and the port as they lie in memory, then the four address
    /// bytes, most significant first, then eight bytes of padding.
    pub open spec fn bytes(self) -> Seq<u8> {
        le_bytes(self.Family) + le_bytes(self.Port) + be_bytes(self.Addr) + Seq::new(
            8,
            |i: int| 0u8,
        )
    }

    /// The address of the peer at `ipAddr` and `port`.
    pub fn New(port: u16, ipAddr: u32) -> (a: Self)
        ensures
            a == (SockAddrInet { Family: AF_INET, Port: port, Addr: ipAddr }),
    {
        SockAddrInet { Family: AF_INET, Port: port, Addr: ipAddr }
    }

    /// The number of bytes that `Marsh` writes.
    pub fn Len(&self) -> (n: usize)
        ensures
            n == SOCK_ADDR_INET_LEN,
    {
        SOCK_ADDR_INET_LEN
    }

    /// Writes the address out byte by byte.
    pub fn Marsh(&self) -> (out: Vec<u8>)
        ensures
            out@ == self.bytes(),
            out@.len() == SOCK_ADDR_INET_LEN,
    {
        let mut out: Vec<u8> = Vec::new();
        out.push((self.Family & 0xff) as u8);
        out.push((self.Family >> 8) as u8);
        out.push((self.Port & 0xff) as u8);
        out.push((self.Port >> 8) as u8);
        out.push((self.Addr >> 24) as u8);
        out.push(((self.Addr >> 16) & 0xff) as u8);
        out.push(((self.Addr >> 8) & 0xff) as u8);
        out.push((self.Addr & 0xff) as u8);
        let mut k: usize = 0;
        while k < 8
            invariant
                k <= 8,
                out@ == le_bytes(self.Family) + le_bytes(self.Port) + be_bytes(self.Addr)
                    + Seq::new(k as nat, |i: int| 0u8),
            decreases 8 - k,
        {
            out.push(0);
            k = k + 1;
        }
        out
    }
}

/// A connection that waits in a listening socket's backlog.
#[derive(Clone, Copy, Debug, PartialEq, Eq)]
pub struct AcceptItem {
    pub fd: i32,
    pub addr: SockAddrInet,
    pub len: u32,
    pub sockBuf: SocketBuff,
}

/// The backlog of a listening socket.
pub struct AcceptQueue {
    pub queue: Vec<AcceptItem>,
    /// The number of connections that the listener asked to hold.
    pub queueLen: usize,
}

impl View for AcceptQueue {
    type V = Seq<AcceptItem>;

    open spec fn view(&self) -> Seq<AcceptItem> {
        self.queue@
    }
}

impl AcceptQueue {
    /// An empty backlog for `queueLen` connections.
    pub fn New(queueLen: usize) -> (q: Self)
        ensures
            q@ == Seq::<AcceptItem>::empty(),
            q.queueLen == queueLen,
    {
        AcceptQueue { queue: Vec::new(), queueLen }
    }

    /// The number of waiting connections.
    pub fn Len(&self) -> (n: usize)
        ensures
            n == self@.len(),
    {
        self.queue.len()
    }

    /// Appends a connection to the backlog.
    ///
    /// The first result says whether the backlog was empty before, so that
    /// a thread that waits to accept has to be woken up; the second says
    /// whether the backlog still holds fewer connections than the listener
    /// asked for.
    pub fn EnqSocket(&mut self, fd: i32, addr: SockAddrInet, len: u32, sockBuf: SocketBuff) -> (r: (
        bool,
        bool,
    ))
        ensures
            final(self)@ == old(self)@.push(AcceptItem { fd, addr, len, sockBuf }),
            final(self).queueLen == old(self).queueLen,
            r.0 == (old(self)@.len() == 0),
            r.1 == (old(self)@.len() + 1 < old(self).queueLen),
    {
        self.queue.push(AcceptItem { fd, addr, len, sockBuf });
        (self.queue.len() == 1, self.queue.len() < self.queueLen)
    }
}

/// A listening socket.
pub struct RDMAServerSock {
    pub rdmaId: u32,
    pub acceptQueue: AcceptQueue,
}

/// What a descriptor holds.
pub enum SockInfo {
    /// A socket that the transport has not taken over.
    Socket,
    RDMADataSocket(RDMADataSock),
    RDMAServerSocket(RDMAServerSock),
}

/// What a descriptor holds, as a mathematical value.
pub enum SockState {
    Socket,
    Data(RDMADataSock),
    Server { rdmaId: u32, backlog: Seq<AcceptItem>, limit: usize },
}

impl View for SockInfo {
    type V = SockState;

    open spec fn view(&self) -> SockState {
        match *self {
            SockInfo::Socket => SockState::Socket,
            SockInfo::RDMADataSocket(d) => SockState::Data(d),
            SockInfo::RDMAServerSocket(s) => SockState::Server {
                rdmaId: s.rdmaId,
                backlog: s.acceptQueue@,
                limit: s.acceptQueue.queueLen,
            },
        }
    }
}

/// The readiness events that the waiters of a descriptor were told of and
/// that the embedding program has not yet passed on.
#[derive(Clone, Copy, Debug, PartialEq, Eq)]
pub struct WaitInfo {
    pub notified: u64,
}

impl WaitInfo {
    /// Tells the waiters of the events in `mask`.
    pub fn Notify(&mut self, mask: u64)
        ensures
            final(self).notified == old(self).notified | mask,
    {
        self.notified = self.notified | mask;
    }
}

/// One entry of the descriptor table.
pub struct FdInfo {
    pub sockInfo: SockInfo,
    pub waitInfo: WaitInfo,
}

/// One entry of the descriptor table, as a mathematical value.
pub struct FdState {
    pub sock: SockState,
    pub notified: u64,
}

impl View for FdInfo {
    type V = FdState;

    open spec fn view(&self) -> FdState {
        FdState { sock: self.sockInfo@, notified: self.waitInfo.notified }
    }
}

/// The entries of a descriptor table, as mathematical values.
pub open spec fn table_view(fds: Seq<Option<FdInfo>>) -> Seq<Option<FdState>> {
    Seq::new(
        fds.len(),
        |i: int|
            match fds[i] {
                Some(e) => Some(e@),
                None => None,
            },
    )
}

/// Whether the descriptor `fd` is in use.
pub open spec fn has_fd(fds: Seq<Option<FdState>>, fd: int) -> bool {
    0 <= fd < fds.len() && fds[fd] is Some
}

/// Whether `fd` is the lowest descriptor that is not in use.
pub open spec fn is_lowest_free(fds: Seq<Option<FdState>>, fd: int) -> bool {
    &&& 0 <= fd <= fds.len()
    &&& !has_fd(fds, fd)
    &&& forall|k: int| 0 <= k < fd ==> (#[trigger] fds[k]) is Some
}

/// The lowest descriptor that is not in use.
pub open spec fn lowest_free(fds: Seq<Option<FdState>>) -> int {
    choose|fd: int| is_lowest_free(fds, fd)
}

/// The table after `st` was put at the descriptor `fd`, which is in the
/// table or right behind its end.
pub open spec fn place(fds: Seq<Option<FdState>>, fd: int, st: FdState) -> Seq<Option<FdState>> {
    if fd < fds.len() {
        fds.update(fd, Some(st))
    } else {
        fds.push(Some(st))
    }
}

/// There is exactly one lowest free descriptor.
pub proof fn lemma_lowest_free(fds: Seq<Option<FdState>>, fd: int)
    requires
        is_lowest_free(fds, fd),
    ensures
        lowest_free(fds) == fd,
{
    let g = lowest_free(fds);
    assert(is_lowest_free(fds, g));
    if g < fd {
        assert(fds[g] is Some);
    } else if fd < g {
        assert(fds[fd] is Some);
    }
}

/// The table of descriptors. The descriptor is the index into `fds`.
pub struct IOMgr {
    pub fds: Vec<Option<FdInfo>>,
}

impl View for IOMgr {
    type V = Seq<Option<FdState>>;

    open spec fn view(&self) -> Seq<Option<FdState>> {
        table_view(self.fds@)
    }
}

impl IOMgr {
    /// The table without any descriptor.
    pub fn New() -> (m: Self)
        ensures
            m@ == Seq::<Option<FdState>>::empty(),
    {
        let m = IOMgr { fds: Vec::new() };
        assert(m@ =~= Seq::<Option<FdState>>::empty());
        m
    }

    /// The entry of the descriptor `fd`, if it is in use.
    pub fn GetByHost(&self, fd: i32) -> (r: Option<&FdInfo>)
        ensures
            r is Some == has_fd(self@, fd as int),
            r matches Some(e) ==> Some(e@) == self@[fd as int],
    {
        if fd < 0 || fd as usize >= self.fds.len() {
            return None;
        }
        match &self.fds[fd as usize] {
            Some(e) => Some(e),
            None => None,
        }
    }

    /// The lowest descriptor that is not in use, or `None` when every
    /// descriptor that fits the descriptor type is taken.
    pub fn FreeFd(&self) -> (r: Option<i32>)
        ensures
            is_lowest_free(self@, lowest_free(self@)),
            match r {
                Some(fd) => fd == lowest_free(self@),
                None => lowest_free(self@) > i32::MAX,
            },
    {
        let n = self.fds.len();
        let mut i: usize = 0;
        while i < n && self.fds[i].is_some()
            invariant
                n == self.fds@.len(),
                i <= n,
                forall|k: int| 0 <= k < i ==> (#[trigger] self@[k]) is Some,
            decreases n - i,
        {
            i = i + 1;
        }
        proof {
            assert(is_lowest_free(self@, i as int));
            lemma_lowest_free(self@, i as int);
        }
        if i > i32::MAX as usize {
            None
        } else {
            Some(i as i32)
        }
    }

    /// Puts a new socket at the lowest descriptor that is not in use and
    /// returns the descriptor. No waiter of the new descriptor was told of
    /// anything yet. `None` says that no descriptor is left; the table then
    /// stays as it is.
    pub fn AddSocket(&mut self, sockInfo: SockInfo) -> (r: Option<i32>)
        ensures
            is_lowest_free(old(self)@, lowest_free(old(self)@)),
            match r {
                Some(fd) => fd == lowest_free(old(self)@) && final(self)@ == place(
                    old(self)@,
                    fd as int,
                    FdState { sock: sockInfo@, notified: 0 },
                ),
                None => lowest_free(old(self)@) > i32::MAX && final(self)@ == old(self)@,
            },
    {
        match self.FreeFd() {
            None => None,
            Some(fd) => {
                let entry = FdInfo { sockInfo, waitInfo: WaitInfo { notified: 0 } };
                if (fd as usize) < self.fds.len() {
                    self.fds.set(fd as usize, Some(entry));
                } else {
                    self.fds.push(Some(entry));
                }
                assert(self@ =~= place(
                    old(self)@,
                    fd as int,
                    FdState { sock: sockInfo@, notified: 0 },
                ));
                Some(fd)
            },
        }
    }

    /// Replaces what the descriptor `fd` holds. Returns whether the
    /// descriptor is in use; otherwise nothing changes.
    pub fn SetSockInfo(&mut self, fd: i32, sockInfo: SockInfo) -> (ok: bool)
        ensures
            ok == has_fd(old(self)@, fd as int),
            ok ==> final(self)@ == old(self)@.update(
                fd as int,
                Some(FdState { sock: sockInfo@, ..old(self)@[fd as int].unwrap() }),
            ),
            !ok ==> final(self)@ == old(self)@,
    {
        if fd < 0 || fd as usize >= self.fds.len() {
            return false;
        }
        match &mut self.fds[fd as usize] {
            Some(e) => {
                e.sockInfo = sockInfo;
                assert(self@ =~= old(self)@.update(
                    fd as int,
                    Some(FdState { sock: sockInfo@, ..old(self)@[fd as int].unwrap() }),
                ));
                true
            },
            None => {
                assert(self@ =~= old(self)@);
                false
            },
        }
    }

    /// Tells the waiters of the descriptor `fd` of the events in `mask`.
    /// Returns whether the descriptor is in use; otherwise nothing changes.
    pub fn Notify(&mut self, fd: i32, mask: u64) -> (ok: bool)
        ensures
            ok == has_fd(old(self)@, fd as int),
            ok ==> final(self)@ == old(self)@.update(
                fd as int,
                Some(
                    FdState {
                        notified: old(self)@[fd as int].unwrap().notified | mask,
                        ..old(self)@[fd as int].unwrap()
                    },
                ),
            ),
            !ok ==> final(self)@ == old(self)@,
    {
        if fd < 0 || fd as usize >= self.fds.len() {
            return false;
        }
        match &mut self.fds[fd as usize] {
            Some(e) => {
                e.waitInfo.Notify(mask);
                assert(self@ =~= old(self)@.update(
                    fd as int,
                    Some(
                        FdState {
                            notified: old(self)@[fd as int].unwrap().notified | mask,
                            ..old(self)@[fd as int].unwrap()
                        },
                    ),
                ));
                true
            },
            None => {
                assert(self@ =~= old(self)@);
                false
            },
        }
    }

    /// Hands out the events that the waiters of `fd` were told of and
    /// forgets them, so that the embedding program can pass them on once.
    pub fn TakeNotified(&mut self, fd: i32) -> (mask: u64)
        ensures
            has_fd(old(self)@, fd as int) ==> mask == old(self)@[fd as int].unwrap().notified
                && final(self)@ == old(self)@.update(
                fd as int,
                Some(FdState { notified: 0, ..old(self)@[fd as int].unwrap() }),
            ),
            !has_fd(old(self)@, fd as int) ==> mask == 0 && final(self)@ == old(self)@,
    {
        if fd < 0 || fd as usize >= self.fds.len() {
            return 0;
        }
        match &mut self.fds[fd as usize] {
            Some(e) => {
                let mask = e.waitInfo.notified;
                e.waitInfo.notified = 0;
                assert(self@ =~= old(self)@.update(
                    fd as int,
                    Some(FdState { notified: 0, ..old(self)@[fd as int].unwrap() }),
                ));
                mask
            },
            None => {
                assert(self@ =~= old(self)@);
                0
            },
        }
    }

    /// Gives the descriptor `fd` up. Returns whether it was in use.
    pub fn Remove(&mut self, fd: i32) -> (ok: bool)
        ensures
            ok == has_fd(old(self)@, fd as int),
            ok ==> final(self)@ == old(self)@.update(fd as int, None),
            !ok ==> final(self)@ == old(self)@,
    {
        if fd < 0 || fd as usize >= self.fds.len() {
            return false;
        }
        let used = self.fds[fd as usize].is_some();
        self.fds.set(fd as usize, None);
        if used {
            assert(self@ =~= old(self)@.update(fd as int, None));
        } else {
            assert(self@ =~= old(self)@);
        }
        used
    }

    /// Appends a connection to the backlog of the listening socket at
    /// `listener`.
    ///
    /// Returns what `AcceptQueue::EnqSocket` returns, or `None` when
    /// `listener` holds no listening socket; the table then stays as it is.
    pub fn EnqSocket(
        &mut self,
        listener: i32,
        fd: i32,
        addr: SockAddrInet,
        len: u32,
        sockBuf: SocketBuff,
    ) -> (r: Option<(bool, bool)>)
        ensures
            r is Some == is_listener(old(self)@, listener as int),
            r matches Some(t) ==> {
                let e = old(self)@[listener as int].unwrap();
                &&& t.0 == (e.sock->backlog.len() == 0)
                &&& t.1 == (e.sock->backlog.len() + 1 < e.sock->limit)
                &&& final(self)@ == old(self)@.update(
                    listener as int,
                    Some(
                        with_backlog(
                            e,
                            e.sock->backlog.push(AcceptItem { fd, addr, len, sockBuf }),
                        ),
                    ),
                )
            },
            r is None ==> final(self)@ == old(self)@,
    {
        if listener < 0 || listener as usize >= self.fds.len() {
            return None;
        }
        match &mut self.fds[listener as usize] {
            Some(e) => {
                match &mut e.sockInfo {
                    SockInfo::RDMAServerSocket(s) => {
                        let t = s.acceptQueue.EnqSocket(fd, addr, len, sockBuf);
                        proof {
                            let e0 = old(self)@[listener as int].unwrap();
                            assert(self@ =~= old(self)@.update(
                                listener as int,
                                Some(
                                    with_backlog(
                                        e0,
                                        e0.sock->backlog.push(
                                            AcceptItem { fd, addr, len, sockBuf },
                                        ),
                                    ),
                                ),
                            ));
                        }
                        Some(t)
                    },
                    _ => {
                        assert(self@ =~= old(self)@);
                        None
                    },
                }
            },
            None => {
                assert(self@ =~= old(self)@);
                None
            },
        }
    }

    /// Marks the read side of the connected socket at `fd` as closed for
    /// good. Returns whether `fd` holds a connected socket; otherwise the
    /// table stays as it is.
    pub fn SetRClosed(&mut self, fd: i32) -> (ok: bool)
        ensures
            ok == is_data_socket(old(self)@, fd as int),
            ok ==> final(self)@ == old(self)@.update(
                fd as int,
                Some(read_closed(old(self)@[fd as int].unwrap())),
            ),
            !ok ==> final(self)@ == old(self)@,
    {
        if fd < 0 || fd as usize >= self.fds.len() {
            return false;
        }
        match &mut self.fds[fd as usize] {
            Some(e) => {
                match &mut e.sockInfo {
                    SockInfo::RDMADataSocket(d) => {
                        d.socketBuf.SetRClosed();
                        assert(self@ =~= old(self)@.update(
                            fd as int,
                            Some(read_closed(old(self)@[fd as int].unwrap())),
                        ));
                        true
                    },
                    _ => {
                        assert(self@ =~= old(self)@);
                        false
                    },
                }
            },
            None => {
                assert(self@ =~= old(self)@);
                false
            },
        }
    }
}

/// Whether the descriptor `fd` holds a listening socket.
pub open spec fn is_listener(fds: Seq<Option<FdState>>, fd: int) -> bool {
    has_fd(fds, fd) && fds[fd].unwrap().sock is Server
}

/// Whether the descriptor `fd` holds a connected socket.
pub open spec fn is_data_socket(fds: Seq<Option<FdState>>, fd: int) -> bool {
    has_fd(fds, fd) && fds[fd].unwrap().sock is Data
}

/// The entry of a listening socket with `backlog` in place of its backlog.
pub open spec fn with_backlog(e: FdState, backlog: Seq<AcceptItem>) -> FdState {
    FdState {
        sock: SockState::Server { rdmaId: e.sock->rdmaId, backlog, limit: e.sock->limit },
        notified: e.notified,
    }
}

/// The entry of a connected socket with its read side closed.
pub open spec fn read_closed(e: FdState) -> FdState {
    let d = e.sock->Data_0;
    FdState {
        sock: SockState::Data(
            RDMADataSock { socketBuf: SocketBuff { rClosed: true, ..d.socketBuf }, ..d },
        ),
        notified: e.notified,
    }
}

/// The entry `e` after its waiters were told of the events in `mask`.
pub open spec fn told(e: FdState, mask: u64) -> FdState {
    FdState { notified: e.notified | mask, ..e }
}

} // verus!
