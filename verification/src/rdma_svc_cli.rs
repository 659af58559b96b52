//! The client of the RDMA service.
//!
//! Every socket operation becomes one request in the submission ring. After
//! a request was pushed the client marks itself in the service's bitmap and
//! looks at the service's sleep flag: the caller has to signal the service
//! exactly when the flag says that it sleeps. Responses are drained from
//! the completion ring and turned into changes of the client's tables and of
//! the descriptor table.
//!
//! The client works on the regions as plain values. The embedding program
//! holds the lock around each call, signals the service when a call says
//! so, and passes on the readiness events that the descriptor table
//! collects.

use crate::fileinfo::has_fd;
use crate::fileinfo::is_listener;
use crate::fileinfo::place;
use crate::fileinfo::FdState;
use crate::fileinfo::IOMgr;
use crate::fileinfo::SockState;
use crate::fileinfo::RDMADataSock;
use crate::fileinfo::SockAddrInet;
use crate::fileinfo::SockInfo;
use crate::fileinfo::SocketBuff;
use crate::mapping::LookupChannel;
use crate::mapping::LookupSocket;
use crate::mapping::RegisterChannel;
use crate::mapping::RegisterSocket;
use crate::rdma_dispatch::fresh_id;
use crate::rdma_dispatch::id_after;
use crate::rdma_dispatch::is_fresh_at;
use crate::rdma_dispatch::lemma_fresh_id;
use crate::rdma_dispatch::on_accept;
use crate::rdma_dispatch::owns_channel;
use crate::rdma_dispatch::on_connect;
use crate::rdma_dispatch::on_fin_notify;
use crate::rdma_dispatch::on_notify;
use crate::rdma_dispatch::on_response;
use crate::rdma_dispatch::pass;
use crate::rdma_dispatch::readiness;
use crate::rdma_dispatch::resolve;
use crate::rdma_dispatch::FatalReason;
use crate::rdma_dispatch::Outcome;
use crate::rdma_dispatch::Pass;
use crate::rdma_dispatch::SkipReason;
use crate::rdma_dispatch::Tables;
use crate::rdma_dispatch::World;
use crate::rdma_share::ClientShareRegion;
use crate::rdma_share::Endpoint;
use crate::rdma_share::RdmaError;
use crate::rdma_share::MemRegion;
use crate::rdma_share::RDMAAcceptResp;
use crate::rdma_share::RDMACloseReq;
use crate::rdma_share::RDMAConnectReq;
use crate::rdma_share::RDMAConnectReqUsingPodId;
use crate::rdma_share::RDMAConnectResp;
use crate::rdma_share::RDMAFinNotifyResp;
use crate::rdma_share::RDMAListenReq;
use crate::rdma_share::RDMAListenReqUsingPodId;
use crate::rdma_share::RDMANotifyResp;
use crate::rdma_share::RDMAReadReq;
use crate::rdma_share::RDMAReq;
use crate::rdma_share::RDMAReqMsg;
use crate::rdma_share::RDMAResp;
use crate::rdma_share::RDMARespMsg;
use crate::rdma_share::RDMAShutdownReq;
use crate::rdma_share::RDMAWriteReq;
use crate::rdma_share::ShareRegion;
use crate::rdma_share::EVENT_IN;
use crate::rdma_share::EVENT_OUT;
use crate::rdma_share::MAX_AGENTS;
use std::collections::BTreeMap;
use vstd::prelude::*;

verus! {

/// The descriptor of the socket that connects the client to the service.
#[derive(Clone, Copy, Debug, PartialEq, Eq)]
pub struct UnixSocket {
    pub fd: i32,
}

/// The descriptors and regions through which the client reaches the
/// service. The client's logic only carries them.
#[derive(Clone, Copy, Debug, PartialEq, Eq)]
pub struct Links {
    pub cliSock: UnixSocket,
    pub cliMemFd: i32,
    pub srvMemFd: i32,
    pub cliEventFd: i32,
    pub srvEventFd: i32,
    pub cliMemRegion: MemRegion,
    pub srvMemRegion: MemRegion,
}

/// The state of the client, as a mathematical value.
pub struct ClientModel {
    pub agentId: u32,
    pub podId: [u8; 64],
    pub links: Links,
    /// The pending requests, oldest first, and the capacity of their ring.
    pub sq: Seq<RDMAReq>,
    pub sq_cap: nat,
    /// The pending responses, oldest first, and the capacity of their ring.
    pub cq: Seq<RDMAResp>,
    pub cq_cap: nat,
    /// 1 while the client wants to be woken up for new responses.
    pub armed: u32,
    pub io_bufs: u32,
    /// 1 while the service sleeps.
    pub srv_asleep: u64,
    /// The clients that are marked as having work for the service.
    pub pending: Set<int>,
    pub tables: Tables,
}

/// What a drain of the completion ring did.
#[derive(Clone, Copy, Debug, PartialEq, Eq)]
pub struct DrainReport {
    /// The number of responses that were taken from the ring.
    pub count: usize,
    /// How the first pass ended: `Handled` when it emptied the ring.
    pub first: Outcome,
    /// How the second pass ended. After a fatal first pass there is no
    /// second one, and this is `Handled`.
    pub second: Outcome,
}

impl ClientModel {
    /// What the responses read and change.
    pub open spec fn world(self, fds: Seq<Option<FdState>>) -> World {
        World { tables: self.tables, fds }
    }

    /// The client marks itself in the service's bitmap and looks at the
    /// service's sleep flag. The result says whether the service has to be
    /// signalled: exactly when the flag says that it sleeps.
    pub open spec fn mark(self) -> (bool, ClientModel) {
        (
            self.srv_asleep == 1,
            ClientModel { pending: self.pending.insert(self.agentId as int), ..self },
        )
    }

    /// One socket operation: the request joins the submission ring and the
    /// client marks itself; the result says whether the service has to be
    /// signalled. When the ring is full the operation fails and nothing
    /// changes.
    pub open spec fn submit(self, msg: RDMAReqMsg) -> (Result<bool, RdmaError>, ClientModel) {
        if self.sq.len() < self.sq_cap {
            let pushed = ClientModel { sq: self.sq.push(RDMAReq { user_data: 0, msg }), ..self };
            (Ok(pushed.mark().0), pushed.mark().1)
        } else {
            (Err(RdmaError::NoEnoughSpace), self)
        }
    }

    /// The client after a pass over its completion ring.
    pub open spec fn after_pass(self, p: Pass) -> ClientModel {
        ClientModel { tables: p.world.tables, cq: p.rest, ..self }
    }

    /// One pass over the completion ring.
    pub open spec fn process(self, fds: Seq<Option<FdState>>) -> Pass {
        pass(self.world(fds), self.io_bufs, self.cq)
    }

    /// A drain of the completion ring: a pass with the client's flag
    /// cleared, then the flag is set and a second pass follows, which takes
    /// what the first left behind. After a fatal first pass nothing more is
    /// done.
    pub open spec fn drain(self, fds: Seq<Option<FdState>>) -> (
        (nat, Outcome, Outcome),
        ClientModel,
        Seq<Option<FdState>>,
    ) {
        let unarmed = ClientModel { armed: 0, ..self };
        let first = unarmed.process(fds);
        let between = unarmed.after_pass(first);
        if first.last is Fatal {
            ((first.count, first.last, Outcome::Handled), between, first.world.fds)
        } else {
            let armed = ClientModel { armed: 1, ..between };
            let second = armed.process(first.world.fds);
            (
                (first.count + second.count, first.last, second.last),
                armed.after_pass(second),
                second.world.fds,
            )
        }
    }
}

/// The wake protocol: an operation whose request was taken asks for a
/// signal exactly when the service's flag says that it sleeps, and for none
/// while the service polls. The flag itself stays as it is, and the client
/// is marked in the bitmap either way. An operation whose request was
/// refused asks for no signal and marks nothing.
pub proof fn law_wake_iff_asleep(m: ClientModel, msg: RDMAReqMsg)
    ensures
        m.sq.len() < m.sq_cap ==> m.submit(msg).0 == Ok::<bool, RdmaError>(m.srv_asleep == 1),
        m.sq.len() < m.sq_cap ==> m.submit(msg).1.pending.contains(m.agentId as int),
        m.sq.len() >= m.sq_cap ==> m.submit(msg).0 == Err::<bool, RdmaError>(
            RdmaError::NoEnoughSpace,
        ) && m.submit(msg).1 == m,
        m.submit(msg).1.srv_asleep == m.srv_asleep,
{
}

/// Requests reach the service in the order in which they were submitted:
/// what is pending after an operation that was taken is what was pending
/// before, followed by the new request.
pub proof fn law_submit_appends(m: ClientModel, msg: RDMAReqMsg)
    requires
        m.sq.len() < m.sq_cap,
    ensures
        m.submit(msg).1.sq == m.sq.push(RDMAReq { user_data: 0, msg }),
        m.submit(msg).1.cq == m.cq,
        m.submit(msg).1.tables == m.tables,
{
}

/// The state of the client.
pub struct RDMASvcCliIntern {
    /// The position of this client in the service's bitmap.
    pub agentId: u32,
    pub cliSock: UnixSocket,
    pub cliMemFd: i32,
    pub srvMemFd: i32,
    pub cliEventFd: i32,
    pub srvEventFd: i32,
    pub cliMemRegion: MemRegion,
    /// The region that this client shares with the service.
    pub cliShareRegion: ClientShareRegion,
    pub srvMemRegion: MemRegion,
    /// The region of the service, which all clients share.
    pub srvShareRegion: ShareRegion,
    /// From a channel to the connection that owns it.
    pub channelToSocketMappings: BTreeMap<u32, u32>,
    /// From a connection to its descriptor.
    pub rdmaIdToSocketMappings: BTreeMap<u32, i32>,
    /// The identifier that the next accepted connection gets.
    pub nextRDMAId: u32,
    pub podId: [u8; 64],
}

/// The client of the RDMA service.
pub struct RDMASvcClient {
    pub intern: RDMASvcCliIntern,
}

impl View for RDMASvcClient {
    type V = ClientModel;

    open spec fn view(&self) -> ClientModel {
        ClientModel {
            agentId: self.intern.agentId,
            podId: self.intern.podId,
            links: Links {
                cliSock: self.intern.cliSock,
                cliMemFd: self.intern.cliMemFd,
                srvMemFd: self.intern.srvMemFd,
                cliEventFd: self.intern.cliEventFd,
                srvEventFd: self.intern.srvEventFd,
                cliMemRegion: self.intern.cliMemRegion,
                srvMemRegion: self.intern.srvMemRegion,
            },
            sq: self.intern.cliShareRegion.sq@,
            sq_cap: self.intern.cliShareRegion.sq.capacity(),
            cq: self.intern.cliShareRegion.cq@,
            cq_cap: self.intern.cliShareRegion.cq.capacity(),
            armed: self.intern.cliShareRegion.clientBitmap,
            io_bufs: self.intern.cliShareRegion.ioBufCount,
            srv_asleep: self.intern.srvShareRegion.srvBitmap,
            pending: Set::new(|id: int| self.intern.srvShareRegion.is_pending(id)),
            tables: Tables {
                channels: self.intern.channelToSocketMappings@,
                sockets: self.intern.rdmaIdToSocketMappings@,
                next_id: self.intern.nextRDMAId,
            },
        }
    }
}

impl RDMASvcClient {
    /// The representation invariant: the regions are well formed and the
    /// client has a position in the service's bitmap.
    pub open spec fn wf(&self) -> bool {
        &&& self.intern.cliShareRegion.wf()
        &&& self.intern.srvShareRegion.wf()
        &&& self.intern.agentId < MAX_AGENTS
    }

    /// The client `agentId` over the given regions, with empty tables.
    pub fn New(
        agentId: u32,
        podId: [u8; 64],
        cliShareRegion: ClientShareRegion,
        srvShareRegion: ShareRegion,
    ) -> (c: Self)
        requires
            agentId < MAX_AGENTS,
            cliShareRegion.wf(),
            srvShareRegion.wf(),
        ensures
            c.wf(),
            c.intern.agentId == agentId,
            c.intern.podId == podId,
            c.intern.cliShareRegion == cliShareRegion,
            c.intern.srvShareRegion == srvShareRegion,
            c@.tables == (Tables { channels: Map::empty(), sockets: Map::empty(), next_id: 0 }),
    {
        RDMASvcClient {
            intern: RDMASvcCliIntern {
                agentId,
                cliSock: UnixSocket { fd: -1 },
                cliMemFd: 0,
                srvMemFd: 0,
                cliEventFd: 0,
                srvEventFd: 0,
                cliMemRegion: MemRegion { addr: 0, len: 0 },
                cliShareRegion,
                srvMemRegion: MemRegion { addr: 0, len: 0 },
                srvShareRegion,
                channelToSocketMappings: BTreeMap::new(),
                rdmaIdToSocketMappings: BTreeMap::new(),
                nextRDMAId: 0,
                podId,
            },
        }
    }

    /// Marks this client in the service's bitmap and looks at the service's
    /// sleep flag.
    ///
    /// Returns whether the service has to be signalled: `true` exactly when
    /// the flag says that the service sleeps, so that one signal goes out
    /// for each such look and none while the service polls.
    pub fn updateBitmapAndWakeUpServerIfNecessary(&mut self) -> (wake: bool)
        requires
            old(self).wf(),
        ensures
            final(self).wf(),
            wake == old(self)@.mark().0,
            final(self)@ == old(self)@.mark().1,
    {
        let agentId = self.intern.agentId;
        self.intern.srvShareRegion.updateBitmap(agentId);
        assert(self@.pending =~= old(self)@.pending.insert(agentId as int));
        self.intern.srvShareRegion.srvBitmap == 1
    }

    /// Pushes a request onto the submission ring and, if it was taken, marks
    /// this client in the service's bitmap.
    ///
    /// `Ok(wake)` says that the request is pending, and whether the service
    /// has to be signalled. `Err(NoEnoughSpace)` says that the ring was
    /// full; nothing has changed then, and nothing is tried again.
    pub fn SentMsgToSvc(&mut self, msg: RDMAReqMsg) -> (r: Result<bool, RdmaError>)
        requires
            old(self).wf(),
        ensures
            final(self).wf(),
            r == old(self)@.submit(msg).0,
            final(self)@ == old(self)@.submit(msg).1,
            r is Err ==> *final(self) == *old(self),
    {
        if self.intern.cliShareRegion.sq.Push(RDMAReq { user_data: 0, msg }) {
            let wake = self.updateBitmapAndWakeUpServerIfNecessary();
            Ok(wake)
        } else {
            Err(RdmaError::NoEnoughSpace)
        }
    }

    /// Asks the service to listen on `endpoint` for the socket `sockfd`.
    pub fn listen(
        &mut self,
        sockfd: u32,
        endpoint: &Endpoint,
        waitingLen: i32,
    ) -> (r: Result<bool, RdmaError>)
        requires
            old(self).wf(),
        ensures
            final(self).wf(),
            r == old(self)@.submit(
                RDMAReqMsg::RDMAListen(
                    RDMAListenReq {
                        sockfd,
                        ipAddr: endpoint.ipAddr,
                        port: endpoint.port,
                        waitingLen,
                    },
                ),
            ).0,
            final(self)@ == old(self)@.submit(
                RDMAReqMsg::RDMAListen(
                    RDMAListenReq {
                        sockfd,
                        ipAddr: endpoint.ipAddr,
                        port: endpoint.port,
                        waitingLen,
                    },
                ),
            ).1,
            r is Err ==> *final(self) == *old(self),
    {
        self.SentMsgToSvc(
            RDMAReqMsg::RDMAListen(
                RDMAListenReq {
                    sockfd,
                    ipAddr: endpoint.ipAddr,
                    port: endpoint.port,
                    waitingLen,
                },
            ),
        )
    }

    /// Asks the service to listen on `port` of this client's pod for the
    /// socket `sockfd`.
    pub fn listenUsingPodId(&mut self, sockfd: u32, port: u16, waitingLen: i32) -> (r: Result<
        bool,
        RdmaError,
    >)
        requires
            old(self).wf(),
        ensures
            final(self).wf(),
            r == old(self)@.submit(
                RDMAReqMsg::RDMAListenUsingPodId(
                    RDMAListenReqUsingPodId { sockfd, podId: old(self)@.podId, port, waitingLen },
                ),
            ).0,
            final(self)@ == old(self)@.submit(
                RDMAReqMsg::RDMAListenUsingPodId(
                    RDMAListenReqUsingPodId { sockfd, podId: old(self)@.podId, port, waitingLen },
                ),
            ).1,
            r is Err ==> *final(self) == *old(self),
    {
        self.SentMsgToSvc(
            RDMAReqMsg::RDMAListenUsingPodId(
                RDMAListenReqUsingPodId { sockfd, podId: self.intern.podId, port, waitingLen },
            ),
        )
    }

    /// Asks the service to connect the socket `sockfd` to the destination.
    pub fn connect(
        &mut self,
        sockfd: u32,
        dstIpAddr: u32,
        dstPort: u16,
        srcIpAddr: u32,
        srcPort: u16,
    ) -> (r: Result<bool, RdmaError>)
        requires
            old(self).wf(),
        ensures
            final(self).wf(),
            r == old(self)@.submit(
                RDMAReqMsg::RDMAConnect(
                    RDMAConnectReq { sockfd, dstIpAddr, dstPort, srcIpAddr, srcPort },
                ),
            ).0,
            final(self)@ == old(self)@.submit(
                RDMAReqMsg::RDMAConnect(
                    RDMAConnectReq { sockfd, dstIpAddr, dstPort, srcIpAddr, srcPort },
                ),
            ).1,
            r is Err ==> *final(self) == *old(self),
    {
        self.SentMsgToSvc(
            RDMAReqMsg::RDMAConnect(
                RDMAConnectReq { sockfd, dstIpAddr, dstPort, srcIpAddr, srcPort },
            ),
        )
    }

    /// Asks the service to connect the socket `sockfd` to the destination,
    /// from this client's pod.
    pub fn connectUsingPodId(
        &mut self,
        sockfd: u32,
        dstIpAddr: u32,
        dstPort: u16,
        srcPort: u16,
    ) -> (r: Result<bool, RdmaError>)
        requires
            old(self).wf(),
        ensures
            final(self).wf(),
            r == old(self)@.submit(
                RDMAReqMsg::RDMAConnectUsingPodId(
                    RDMAConnectReqUsingPodId {
                        sockfd,
                        dstIpAddr,
                        dstPort,
                        podId: old(self)@.podId,
                        srcPort,
                    },
                ),
            ).0,
            final(self)@ == old(self)@.submit(
                RDMAReqMsg::RDMAConnectUsingPodId(
                    RDMAConnectReqUsingPodId {
                        sockfd,
                        dstIpAddr,
                        dstPort,
                        podId: old(self)@.podId,
                        srcPort,
                    },
                ),
            ).1,
            r is Err ==> *final(self) == *old(self),
    {
        self.SentMsgToSvc(
            RDMAReqMsg::RDMAConnectUsingPodId(
                RDMAConnectReqUsingPodId {
                    sockfd,
                    dstIpAddr,
                    dstPort,
                    podId: self.intern.podId,
                    srcPort,
                },
            ),
        )
    }

    /// Tells the service that the channel's receive buffer has room again.
    pub fn read(&mut self, channelId: u32) -> (r: Result<bool, RdmaError>)
        requires
            old(self).wf(),
        ensures
            final(self).wf(),
            r == old(self)@.submit(
                RDMAReqMsg::RDMARead(RDMAReadReq { channelId }),
            ).0,
            final(self)@ == old(self)@.submit(
                RDMAReqMsg::RDMARead(RDMAReadReq { channelId }),
            ).1,
            r is Err ==> *final(self) == *old(self),
    {
        self.SentMsgToSvc(
            RDMAReqMsg::RDMARead(RDMAReadReq { channelId }),
        )
    }

    /// Tells the service that data waits in the channel's send buffer.
    pub fn write(&mut self, channelId: u32) -> (r: Result<bool, RdmaError>)
        requires
            old(self).wf(),
        ensures
            final(self).wf(),
            r == old(self)@.submit(
                RDMAReqMsg::RDMAWrite(RDMAWriteReq { channelId }),
            ).0,
            final(self)@ == old(self)@.submit(
                RDMAReqMsg::RDMAWrite(RDMAWriteReq { channelId }),
            ).1,
            r is Err ==> *final(self) == *old(self),
    {
        self.SentMsgToSvc(
            RDMAReqMsg::RDMAWrite(RDMAWriteReq { channelId }),
        )
    }

    /// Asks the service to shut the channel down in the direction `howto`.
    pub fn shutdown(&mut self, channelId: u32, howto: u8) -> (r: Result<bool, RdmaError>)
        requires
            old(self).wf(),
        ensures
            final(self).wf(),
            r == old(self)@.submit(
                RDMAReqMsg::RDMAShutdown(RDMAShutdownReq { channelId, howto }),
            ).0,
            final(self)@ == old(self)@.submit(
                RDMAReqMsg::RDMAShutdown(RDMAShutdownReq { channelId, howto }),
            ).1,
            r is Err ==> *final(self) == *old(self),
    {
        self.SentMsgToSvc(
            RDMAReqMsg::RDMAShutdown(RDMAShutdownReq { channelId, howto }),
        )
    }

    /// Asks the service to close the channel.
    pub fn close(&mut self, channelId: u32) -> (r: Result<bool, RdmaError>)
        requires
            old(self).wf(),
        ensures
            final(self).wf(),
            r == old(self)@.submit(
                RDMAReqMsg::RDMAClose(RDMACloseReq { channelId }),
            ).0,
            final(self)@ == old(self)@.submit(
                RDMAReqMsg::RDMAClose(RDMACloseReq { channelId }),
            ).1,
            r is Err ==> *final(self) == *old(self),
    {
        self.SentMsgToSvc(
            RDMAReqMsg::RDMAClose(RDMACloseReq { channelId }),
        )
    }

    /// The descriptor that the channel `channelId` leads to.
    pub fn Resolve(&self, channelId: u32) -> (r: Result<i32, SkipReason>)
        ensures
            r == resolve(self@.tables, channelId),
    {
        match LookupChannel(&self.intern.channelToSocketMappings, channelId) {
            None => Err(SkipReason::UnknownChannel(channelId)),
            Some(rdmaId) => match LookupSocket(&self.intern.rdmaIdToSocketMappings, rdmaId) {
                None => Err(SkipReason::UnknownRdmaId(rdmaId)),
                Some(fd) => Ok(fd),
            },
        }
    }

    /// Whether the descriptor `fd` holds the connected socket of the channel
    /// `channelId`, which is registered, and of the connection that owns the
    /// channel. `None` says that the descriptor is not in use.
    pub fn OwnsChannel(&self, io: &IOMgr, fd: i32, channelId: u32) -> (r: Option<bool>)
        requires
            self@.tables.channels.contains_key(channelId),
        ensures
            r is Some == has_fd(io@, fd as int),
            r matches Some(b) ==> b == owns_channel(
                io@[fd as int].unwrap(),
                channelId,
                self@.tables.channels[channelId],
            ),
    {
        let rdmaId = LookupChannel(&self.intern.channelToSocketMappings, channelId).unwrap();
        match io.GetByHost(fd) {
            None => None,
            Some(e) => match &e.sockInfo {
                SockInfo::RDMADataSocket(d) => Some(d.channelId == channelId && d.rdmaId == rdmaId),
                _ => Some(false),
            },
        }
    }

    /// The identifier for the next accepted connection: the first from the
    /// counter on for which no descriptor is registered, or `None` when
    /// every identifier is in use.
    pub fn FreshRdmaId(&self) -> (r: Option<u32>)
        ensures
            r == fresh_id(self@.tables),
    {
        let start = self.intern.nextRDMAId;
        let ghost t = self@.tables;
        let mut id = start;
        let mut k: u64 = 0;
        while k <= 0xffff_ffff
            invariant
                t == self@.tables,
                start == t.next_id,
                k <= 0x1_0000_0000,
                k <= 0xffff_ffff ==> id == id_after(start, k as int),
                forall|j: int| 0 <= j < k ==> t.sockets.contains_key(#[trigger] id_after(start, j)),
            decreases 0x1_0000_0000 - k,
        {
            if LookupSocket(&self.intern.rdmaIdToSocketMappings, id).is_none() {
                proof {
                    lemma_fresh_id(t, k as int);
                }
                return Some(id);
            }
            id = id.wrapping_add(1);
            k = k + 1;
        }
        proof {
            assert forall|c: int| !is_fresh_at(t.sockets, start, c) by {
                if 0 <= c <= u32::MAX {
                    assert(t.sockets.contains_key(id_after(start, c)));
                }
            }
        }
        None
    }

    /// Handles the response to a connect request.
    pub fn HandleConnect(&mut self, io: &mut IOMgr, m: RDMAConnectResp) -> (o: Outcome)
        requires
            old(self).wf(),
        ensures
            final(self).wf(),
            (o, final(self)@.world(final(io)@)) == on_connect(
                old(self)@.world(old(io)@),
                old(self)@.io_bufs,
                m,
            ),
            final(self)@ == (ClientModel { tables: final(self)@.tables, ..old(self)@ }),
    {
        let fd = match LookupSocket(&self.intern.rdmaIdToSocketMappings, m.sockfd) {
            None => {
                return Outcome::Skip(SkipReason::UnknownRdmaId(m.sockfd));
            },
            Some(fd) => fd,
        };
        match io.GetByHost(fd) {
            None => {
                return Outcome::Fatal(FatalReason::DescriptorMissing(fd));
            },
            Some(e) => match &e.sockInfo {
                SockInfo::Socket => {},
                _ => {
                    return Outcome::Fatal(FatalReason::WrongSocketType(fd));
                },
            },
        }
        if m.ioBufIndex >= self.intern.cliShareRegion.ioBufCount {
            return Outcome::Fatal(FatalReason::IoBufOutOfRange(m.ioBufIndex));
        }
        let sockBuf = SocketBuff::InitWithShareMemory(m.ioBufIndex);
        let dataSock = RDMADataSock::New(
            m.sockfd,
            sockBuf,
            m.channelId,
            m.srcIpAddr,
            m.srcPort,
            m.dstIpAddr,
            m.dstPort,
        );
        RegisterChannel(&mut self.intern.channelToSocketMappings, m.channelId, m.sockfd);
        io.SetSockInfo(fd, SockInfo::RDMADataSocket(dataSock));
        io.Notify(fd, EVENT_OUT);
        proof {
            let w0 = old(self)@.world(old(io)@);
            assert(io@ =~= on_connect(w0, old(self)@.io_bufs, m).1.fds);
        }
        Outcome::Handled
    }

    /// Handles the report of a peer that connected to a listening socket.
    pub fn HandleAccept(&mut self, io: &mut IOMgr, m: RDMAAcceptResp) -> (o: Outcome)
        requires
            old(self).wf(),
        ensures
            final(self).wf(),
            (o, final(self)@.world(final(io)@)) == on_accept(
                old(self)@.world(old(io)@),
                old(self)@.io_bufs,
                m,
            ),
            final(self)@ == (ClientModel { tables: final(self)@.tables, ..old(self)@ }),
    {
        let listener = match LookupSocket(&self.intern.rdmaIdToSocketMappings, m.sockfd) {
            None => {
                return Outcome::Skip(SkipReason::UnknownRdmaId(m.sockfd));
            },
            Some(fd) => fd,
        };
        match io.GetByHost(listener) {
            None => {
                return Outcome::Fatal(FatalReason::DescriptorMissing(listener));
            },
            Some(e) => match &e.sockInfo {
                SockInfo::RDMAServerSocket(_) => {},
                _ => {
                    return Outcome::Fatal(FatalReason::WrongSocketType(listener));
                },
            },
        }
        if m.ioBufIndex >= self.intern.cliShareRegion.ioBufCount {
            return Outcome::Fatal(FatalReason::IoBufOutOfRange(m.ioBufIndex));
        }
        let rdmaId = match self.FreshRdmaId() {
            None => {
                return Outcome::Fatal(FatalReason::IdentifiersExhausted);
            },
            Some(id) => id,
        };
        let sockBuf = SocketBuff::InitWithShareMemory(m.ioBufIndex);
        let dataSock = RDMADataSock::New(
            rdmaId,
            sockBuf,
            m.channelId,
            m.srcIpAddr,
            m.srcPort,
            m.dstIpAddr,
            m.dstPort,
        );
        let fd = match io.AddSocket(SockInfo::RDMADataSocket(dataSock)) {
            None => {
                return Outcome::Fatal(FatalReason::DescriptorsExhausted);
            },
            Some(fd) => fd,
        };
        self.intern.nextRDMAId = rdmaId.wrapping_add(1);
        RegisterSocket(&mut self.intern.rdmaIdToSocketMappings, rdmaId, fd);
        let sockAddr = SockAddrInet::New(m.dstPort, m.dstIpAddr);
        let len = sockAddr.Len();
        let queued = io.EnqSocket(listener, fd, sockAddr, len as u32, sockBuf);
        RegisterChannel(&mut self.intern.channelToSocketMappings, m.channelId, rdmaId);
        let trigger = match queued {
            Some(t) => t.0,
            None => false,
        };
        if trigger {
            io.Notify(listener, EVENT_IN);
        }
        proof {
            let w0 = old(self)@.world(old(io)@);
            let placed = place(
                old(io)@,
                fd as int,
                FdState { sock: SockState::Data(dataSock), notified: 0 },
            );
            assert(has_fd(old(io)@, listener as int));
            assert(fd != listener);
            assert(placed[listener as int] == old(io)@[listener as int]);
            assert(is_listener(placed, listener as int));
            assert(queued is Some);
            assert(io@ =~= on_accept(w0, old(self)@.io_bufs, m).1.fds);
        }
        Outcome::Handled
    }

    /// Handles a report of readiness on a channel.
    pub fn HandleNotify(&mut self, io: &mut IOMgr, m: RDMANotifyResp) -> (o: Outcome)
        requires
            old(self).wf(),
        ensures
            final(self).wf(),
            (o, final(self)@.world(final(io)@)) == on_notify(old(self)@.world(old(io)@), m),
            *final(self) == *old(self),
    {
        let fd = match self.Resolve(m.channelId) {
            Err(reason) => {
                return Outcome::Skip(reason);
            },
            Ok(fd) => fd,
        };
        match self.OwnsChannel(io, fd, m.channelId) {
            None => {
                return Outcome::Fatal(FatalReason::DescriptorMissing(fd));
            },
            Some(false) => {
                return Outcome::Skip(SkipReason::StaleChannel(m.channelId));
            },
            Some(true) => {},
        }
        let readable: u64 = if m.event & EVENT_IN != 0 {
            EVENT_IN
        } else {
            0
        };
        let writable: u64 = if m.event & EVENT_OUT != 0 {
            EVENT_OUT
        } else {
            0
        };
        let mask = readable | writable;
        io.Notify(fd, mask);
        Outcome::Handled
    }

    /// Handles the report that the peer of a channel will send no more.
    pub fn HandleFinNotify(&mut self, io: &mut IOMgr, m: RDMAFinNotifyResp) -> (o: Outcome)
        requires
            old(self).wf(),
        ensures
            final(self).wf(),
            (o, final(self)@.world(final(io)@)) == on_fin_notify(old(self)@.world(old(io)@), m),
            *final(self) == *old(self),
    {
        let fd = match self.Resolve(m.channelId) {
            Err(reason) => {
                return Outcome::Skip(reason);
            },
            Ok(fd) => fd,
        };
        match self.OwnsChannel(io, fd, m.channelId) {
            None => {
                return Outcome::Fatal(FatalReason::DescriptorMissing(fd));
            },
            Some(false) => {
                return Outcome::Handled;
            },
            Some(true) => {},
        }
        io.SetRClosed(fd);
        io.Notify(fd, EVENT_IN);
        proof {
            let w0 = old(self)@.world(old(io)@);
            assert(io@ =~= on_fin_notify(w0, m).1.fds);
        }
        Outcome::Handled
    }

    /// Handles one response of the service.
    ///
    /// A response that is not handled changes nothing, neither in the
    /// client nor in the descriptor table.
    pub fn ProcessResponse(&mut self, io: &mut IOMgr, resp: RDMAResp) -> (o: Outcome)
        requires
            old(self).wf(),
        ensures
            final(self).wf(),
            (o, final(self)@.world(final(io)@)) == on_response(
                old(self)@.world(old(io)@),
                old(self)@.io_bufs,
                resp,
            ),
            final(self)@ == (ClientModel { tables: final(self)@.tables, ..old(self)@ }),
    {
        match resp.msg {
            RDMARespMsg::RDMAConnect(m) => self.HandleConnect(io, m),
            RDMARespMsg::RDMAAccept(m) => self.HandleAccept(io, m),
            RDMARespMsg::RDMANotify(m) => self.HandleNotify(io, m),
            RDMARespMsg::RDMAFinNotify(m) => self.HandleFinNotify(io, m),
        }
    }

    /// One pass over the completion ring: responses are taken from the
    /// ring, oldest first, and handled one by one until the ring is empty or
    /// a response is not handled.
    ///
    /// Returns the number of responses that were taken, the one that ended
    /// the pass included, and how the pass ended: `Handled` when the ring
    /// was emptied, else what came of the last response. A response that
    /// was skipped only ends the pass; after a fatal one the caller has to
    /// abort.
    pub fn ProcessRDMASvcMessage(&mut self, io: &mut IOMgr) -> (r: (usize, Outcome))
        requires
            old(self).wf(),
        ensures
            final(self).wf(),
            r.0 == old(self)@.process(old(io)@).count,
            r.1 == old(self)@.process(old(io)@).last,
            final(io)@ == old(self)@.process(old(io)@).world.fds,
            final(self)@ == old(self)@.after_pass(old(self)@.process(old(io)@)),
    {
        let ghost whole = old(self)@.process(old(io)@);
        let mut count: usize = 0;
        let mut last = Outcome::Handled;
        let mut done = false;
        proof {
            self.intern.cliShareRegion.cq.lemma_bounded();
        }
        while !done
            invariant
                self.wf(),
                count + self@.cq.len() <= self@.cq_cap,
                self@.cq_cap <= usize::MAX,
                self@ == (ClientModel { tables: self@.tables, cq: self@.cq, ..old(self)@ }),
                !done ==> last is Handled && whole == (Pass {
                    count: (self@.process(io@).count + count) as nat,
                    ..self@.process(io@)
                }),
                done ==> whole == (Pass {
                    count: count as nat,
                    last,
                    world: self@.world(io@),
                    rest: self@.cq,
                }),
            decreases
                    if done {
                        0
                    } else {
                        self@.cq.len() + 1
                    },
        {
            let ghost before = self@;
            let ghost fds = io@;
            match self.intern.cliShareRegion.cq.Pop() {
                None => {
                    done = true;
                },
                Some(resp) => {
                    count = count + 1;
                    let outcome = self.ProcessResponse(io, resp);
                    proof {
                        assert(self@.cq == before.cq.subrange(1, before.cq.len() as int));
                        assert(resp == before.cq[0]);
                    }
                    match outcome {
                        Outcome::Handled => {},
                        _ => {
                            last = outcome;
                            done = true;
                        },
                    }
                },
            }
        }
        (count, last)
    }

    /// Drains the completion ring.
    ///
    /// The client's flag is cleared and a first pass takes what is pending.
    /// Then the flag is set, which tells the service to wake the client up
    /// from now on, and a second pass takes what arrived in between, so
    /// that no response is left behind unnoticed. After a fatal first pass
    /// nothing more is done.
    pub fn DrainCompletionQueue(&mut self, io: &mut IOMgr) -> (r: DrainReport)
        requires
            old(self).wf(),
        ensures
            final(self).wf(),
            (r.count as nat, r.first, r.second) == old(self)@.drain(old(io)@).0,
            final(self)@ == old(self)@.drain(old(io)@).1,
            final(io)@ == old(self)@.drain(old(io)@).2,
    {
        self.intern.cliShareRegion.clientBitmap = 0;
        proof {
            crate::rdma_dispatch::law_pass_takes_a_prefix(
                self@.world(io@),
                self@.io_bufs,
                self@.cq,
            );
            self.intern.cliShareRegion.cq.lemma_bounded();
        }
        let ghost fds1 = io@;
        let ghost unarmed = self@;
        let (count1, first) = self.ProcessRDMASvcMessage(io);
        match first {
            Outcome::Fatal(_) => {
                return DrainReport { count: count1, first, second: Outcome::Handled };
            },
            _ => {},
        }
        self.intern.cliShareRegion.clientBitmap = 1;
        proof {
            crate::rdma_dispatch::law_pass_takes_a_prefix(
                self@.world(io@),
                self@.io_bufs,
                self@.cq,
            );
        }
        let (count2, second) = self.ProcessRDMASvcMessage(io);
        DrainReport { count: count1 + count2, first, second }
    }
}

impl Default for RDMASvcClient {
    /// The client before it is connected to a service: position 0, rings
    /// without room, empty tables.
    fn default() -> (c: Self)
        ensures
            c.wf(),
            c@.agentId == 0,
            c@.sq_cap == 0,
            c@.cq_cap == 0,
            c@.sq == Seq::<RDMAReq>::empty(),
            c@.cq == Seq::<RDMAResp>::empty(),
            c@.io_bufs == 0,
            c@.srv_asleep == 0,
            c@.tables == (Tables { channels: Map::empty(), sockets: Map::empty(), next_id: 0 }),
    {
        let zero: [u8; 64] = [0u8; 64];
        RDMASvcClient::New(0, zero, ClientShareRegion::New(0, 0, 0), ShareRegion::New())
    }
}

} // verus!
