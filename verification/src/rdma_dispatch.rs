//! What a response of the service does to the client's tables and to the
//! descriptor table, stated as a function from the state before to the
//! outcome and the state after.

use crate::fileinfo::has_fd;
use crate::fileinfo::lowest_free;
use crate::fileinfo::place;
use crate::fileinfo::read_closed;
use crate::fileinfo::told;
use crate::fileinfo::with_backlog;
use crate::fileinfo::AcceptItem;
use crate::fileinfo::FdState;
use crate::fileinfo::RDMADataSock;
use crate::fileinfo::SockAddrInet;
use crate::fileinfo::SockState;
use crate::fileinfo::SocketBuff;
use crate::fileinfo::AF_INET;
use crate::fileinfo::SOCK_ADDR_INET_LEN;
use crate::rdma_share::RDMAAcceptResp;
use crate::rdma_share::RDMAConnectResp;
use crate::rdma_share::RDMAFinNotifyResp;
use crate::rdma_share::RDMANotifyResp;
use crate::rdma_share::RDMAResp;
use crate::rdma_share::RDMARespMsg;
use crate::rdma_share::EVENT_IN;
use crate::rdma_share::EVENT_OUT;
use vstd::prelude::*;

verus! {

/// Why a response was passed over. The state stays as it was, and the pass
/// over the completion ring ends.
#[derive(Clone, Copy, Debug, PartialEq, Eq)]
pub enum SkipReason {
    /// No descriptor is registered for this connection.
    UnknownRdmaId(u32),
    /// No connection is registered for this channel.
    UnknownChannel(u32),
    /// The channel leads to a descriptor that holds no connected socket of
    /// this channel: the entry is stale.
    StaleChannel(u32),
}

/// Why a response cannot be handled at all: the state is corrupt, and the
/// caller has to abort.
#[derive(Clone, Copy, Debug, PartialEq, Eq)]
pub enum FatalReason {
    /// The tables lead to a descriptor that is not in use.
    DescriptorMissing(i32),
    /// The descriptor does not hold the kind of socket that the response
    /// is for.
    WrongSocketType(i32),
    /// The response names an I/O buffer that the shared region lacks.
    IoBufOutOfRange(u32),
    /// No descriptor is left for an accepted connection.
    DescriptorsExhausted,
    /// Every connection identifier is in use.
    IdentifiersExhausted,
}

/// What came of one response.
#[derive(Clone, Copy, Debug, PartialEq, Eq)]
pub enum Outcome {
    Handled,
    Skip(SkipReason),
    Fatal(FatalReason),
}

/// The client's tables: the connection that owns each channel, the
/// descriptor of each connection, and the identifier that the next accepted
/// connection gets.
pub struct Tables {
    pub channels: Map<u32, u32>,
    pub sockets: Map<u32, i32>,
    pub next_id: u32,
}

/// What a response reads and changes.
pub struct World {
    pub tables: Tables,
    pub fds: Seq<Option<FdState>>,
}

/// The identifier after `id`; the one after the largest is 0.
pub open spec fn next_rdma_id(id: u32) -> u32 {
    if id == u32::MAX {
        0
    } else {
        (id + 1) as u32
    }
}

/// The identifier that lies `k` steps behind `start` in the cycle of
/// identifiers.
pub open spec fn id_after(start: u32, k: int) -> u32 {
    if start + k <= u32::MAX {
        (start + k) as u32
    } else {
        (start + k - 0x1_0000_0000) as u32
    }
}

/// Whether the identifier `k` steps behind `start` is the first from
/// `start` on for which no descriptor is registered.
pub open spec fn is_fresh_at(sockets: Map<u32, i32>, start: u32, k: int) -> bool {
    &&& 0 <= k <= u32::MAX
    &&& !sockets.contains_key(id_after(start, k))
    &&& forall|j: int| 0 <= j < k ==> sockets.contains_key(#[trigger] id_after(start, j))
}

/// The identifier for the next accepted connection: the first from the
/// counter on that is not in use, so that no identifier is handed out while
/// a descriptor is still registered for it. `None` when all are in use.
pub open spec fn fresh_id(t: Tables) -> Option<u32> {
    if exists|k: int| is_fresh_at(t.sockets, t.next_id, k) {
        Some(id_after(t.next_id, choose|k: int| is_fresh_at(t.sockets, t.next_id, k)))
    } else {
        None
    }
}

/// At most one identifier is the first that is not in use.
pub proof fn lemma_fresh_id(t: Tables, k: int)
    requires
        is_fresh_at(t.sockets, t.next_id, k),
    ensures
        fresh_id(t) == Some(id_after(t.next_id, k)),
{
    let c = choose|c: int| is_fresh_at(t.sockets, t.next_id, c);
    if c < k {
        assert(t.sockets.contains_key(id_after(t.next_id, c)));
    } else if k < c {
        assert(t.sockets.contains_key(id_after(t.next_id, k)));
    }
}

/// Whether the entry holds the connected socket of the channel `channelId`
/// of the connection `rdmaId`.
pub open spec fn owns_channel(e: FdState, channelId: u32, rdmaId: u32) -> bool {
    e.sock matches SockState::Data(d) && d.channelId == channelId && d.rdmaId == rdmaId
}

/// The descriptor that the channel `channelId` leads to.
pub open spec fn resolve(t: Tables, channelId: u32) -> Result<i32, SkipReason> {
    if !t.channels.contains_key(channelId) {
        Err(SkipReason::UnknownChannel(channelId))
    } else if !t.sockets.contains_key(t.channels[channelId]) {
        Err(SkipReason::UnknownRdmaId(t.channels[channelId]))
    } else {
        Ok(t.sockets[t.channels[channelId]])
    }
}

/// The connected socket that a response of the service describes, for the
/// connection `rdmaId`.
pub open spec fn data_socket(
    rdmaId: u32,
    ioBufIndex: u32,
    channelId: u32,
    srcIpAddr: u32,
    srcPort: u16,
    dstIpAddr: u32,
    dstPort: u16,
) -> RDMADataSock {
    RDMADataSock {
        rdmaId,
        socketBuf: SocketBuff { ioBufIndex, rClosed: false },
        channelId,
        localIpAddr: srcIpAddr,
        localPort: srcPort,
        peerIpAddr: dstIpAddr,
        peerPort: dstPort,
    }
}

/// A connection was set up: the descriptor of the connection, which held a
/// plain socket, becomes a connected socket over the I/O buffer that the
/// response names, the channel is registered for the connection, and the
/// waiters for write-readiness are told.
pub open spec fn on_connect(w: World, io_bufs: u32, m: RDMAConnectResp) -> (Outcome, World) {
    if !w.tables.sockets.contains_key(m.sockfd) {
        (Outcome::Skip(SkipReason::UnknownRdmaId(m.sockfd)), w)
    } else {
        let fd = w.tables.sockets[m.sockfd];
        if !has_fd(w.fds, fd as int) {
            (Outcome::Fatal(FatalReason::DescriptorMissing(fd)), w)
        } else if !(w.fds[fd as int].unwrap().sock is Socket) {
            (Outcome::Fatal(FatalReason::WrongSocketType(fd)), w)
        } else if m.ioBufIndex >= io_bufs {
            (Outcome::Fatal(FatalReason::IoBufOutOfRange(m.ioBufIndex)), w)
        } else {
            let sock = data_socket(
                m.sockfd,
                m.ioBufIndex,
                m.channelId,
                m.srcIpAddr,
                m.srcPort,
                m.dstIpAddr,
                m.dstPort,
            );
            let entry = FdState {
                sock: SockState::Data(sock),
                notified: w.fds[fd as int].unwrap().notified | EVENT_OUT,
            };
            (
                Outcome::Handled,
                World {
                    tables: Tables {
                        channels: w.tables.channels.insert(m.channelId, m.sockfd),
                        ..w.tables
                    },
                    fds: w.fds.update(fd as int, Some(entry)),
                },
            )
        }
    }
}

/// A peer connected to a listening socket: the lowest free descriptor
/// becomes a connected socket with the next connection identifier that is
/// not in use, the new connection joins the listener's backlog, connection
/// and channel are registered, and the waiters for read-readiness of the
/// listener are told if the backlog was empty.
pub open spec fn on_accept(w: World, io_bufs: u32, m: RDMAAcceptResp) -> (Outcome, World) {
    if !w.tables.sockets.contains_key(m.sockfd) {
        (Outcome::Skip(SkipReason::UnknownRdmaId(m.sockfd)), w)
    } else {
        let listener = w.tables.sockets[m.sockfd];
        if !has_fd(w.fds, listener as int) {
            (Outcome::Fatal(FatalReason::DescriptorMissing(listener)), w)
        } else if !(w.fds[listener as int].unwrap().sock is Server) {
            (Outcome::Fatal(FatalReason::WrongSocketType(listener)), w)
        } else if m.ioBufIndex >= io_bufs {
            (Outcome::Fatal(FatalReason::IoBufOutOfRange(m.ioBufIndex)), w)
        } else if fresh_id(w.tables) is None {
            (Outcome::Fatal(FatalReason::IdentifiersExhausted), w)
        } else if lowest_free(w.fds) > i32::MAX {
            (Outcome::Fatal(FatalReason::DescriptorsExhausted), w)
        } else {
            let fd = lowest_free(w.fds);
            let rdmaId = fresh_id(w.tables).unwrap();
            let sock = data_socket(
                rdmaId,
                m.ioBufIndex,
                m.channelId,
                m.srcIpAddr,
                m.srcPort,
                m.dstIpAddr,
                m.dstPort,
            );
            let item = AcceptItem {
                fd: fd as i32,
                addr: SockAddrInet { Family: AF_INET, Port: m.dstPort, Addr: m.dstIpAddr },
                len: SOCK_ADDR_INET_LEN as u32,
                sockBuf: sock.socketBuf,
            };
            let before = w.fds[listener as int].unwrap();
            let queued = with_backlog(before, before.sock->backlog.push(item));
            let after = if before.sock->backlog.len() == 0 {
                told(queued, EVENT_IN)
            } else {
                queued
            };
            (
                Outcome::Handled,
                World {
                    tables: Tables {
                        channels: w.tables.channels.insert(m.channelId, rdmaId),
                        sockets: w.tables.sockets.insert(rdmaId, fd as i32),
                        next_id: next_rdma_id(rdmaId),
                    },
                    fds: place(
                        w.fds,
                        fd,
                        FdState { sock: SockState::Data(sock), notified: 0 },
                    ).update(listener as int, Some(after)),
                },
            )
        }
    }
}

/// The events of `event` that waiters are told of: read-readiness and
/// write-readiness, and no others.
pub open spec fn readiness(event: u64) -> u64 {
    (if event & EVENT_IN != 0 {
        EVENT_IN
    } else {
        0
    }) | (if event & EVENT_OUT != 0 {
        EVENT_OUT
    } else {
        0
    })
}

/// The service reports readiness on a channel: the waiters of the channel's
/// descriptor are told of it. A descriptor that does not hold the connected
/// socket of the channel is not told: the response is passed over.
pub open spec fn on_notify(w: World, m: RDMANotifyResp) -> (Outcome, World) {
    match resolve(w.tables, m.channelId) {
        Err(reason) => (Outcome::Skip(reason), w),
        Ok(fd) => {
            if !has_fd(w.fds, fd as int) {
                (Outcome::Fatal(FatalReason::DescriptorMissing(fd)), w)
            } else if !owns_channel(
                w.fds[fd as int].unwrap(),
                m.channelId,
                w.tables.channels[m.channelId],
            ) {
                (Outcome::Skip(SkipReason::StaleChannel(m.channelId)), w)
            } else {
                (
                    Outcome::Handled,
                    World {
                        fds: w.fds.update(
                            fd as int,
                            Some(told(w.fds[fd as int].unwrap(), readiness(m.event))),
                        ),
                        ..w
                    },
                )
            }
        },
    }
}

/// The peer will send no more: the read side of the channel's connected
/// socket is closed for good and the waiters for read-readiness are told,
/// so that a blocked reader sees the end of the stream. A descriptor that
/// does not hold the connected socket of the channel is left alone.
pub open spec fn on_fin_notify(w: World, m: RDMAFinNotifyResp) -> (Outcome, World) {
    match resolve(w.tables, m.channelId) {
        Err(reason) => (Outcome::Skip(reason), w),
        Ok(fd) => {
            if !has_fd(w.fds, fd as int) {
                (Outcome::Fatal(FatalReason::DescriptorMissing(fd)), w)
            } else if !owns_channel(
                w.fds[fd as int].unwrap(),
                m.channelId,
                w.tables.channels[m.channelId],
            ) {
                (Outcome::Handled, w)
            } else {
                (
                    Outcome::Handled,
                    World {
                        fds: w.fds.update(
                            fd as int,
                            Some(told(read_closed(w.fds[fd as int].unwrap()), EVENT_IN)),
                        ),
                        ..w
                    },
                )
            }
        },
    }
}

/// What one response does.
pub open spec fn on_response(w: World, io_bufs: u32, resp: RDMAResp) -> (Outcome, World) {
    match resp.msg {
        RDMARespMsg::RDMAConnect(m) => on_connect(w, io_bufs, m),
        RDMARespMsg::RDMAAccept(m) => on_accept(w, io_bufs, m),
        RDMARespMsg::RDMANotify(m) => on_notify(w, m),
        RDMARespMsg::RDMAFinNotify(m) => on_fin_notify(w, m),
    }
}

/// The result of one pass over the pending responses `cq`.
pub struct Pass {
    /// The number of responses that were taken from the ring.
    pub count: nat,
    /// `Handled` when the pass ended because the ring was empty, else what
    /// came of the response that ended it.
    pub last: Outcome,
    pub world: World,
    /// The responses that are still pending.
    pub rest: Seq<RDMAResp>,
}

/// One pass: the responses are taken from the ring one by one, oldest
/// first, until the ring is empty or a response is not handled.
pub open spec fn pass(w: World, io_bufs: u32, cq: Seq<RDMAResp>) -> Pass
    decreases cq.len(),
{
    if cq.len() == 0 {
        Pass { count: 0, last: Outcome::Handled, world: w, rest: cq }
    } else {
        let (outcome, next) = on_response(w, io_bufs, cq[0]);
        let rest = cq.subrange(1, cq.len() as int);
        if outcome is Handled {
            let p = pass(next, io_bufs, rest);
            Pass { count: p.count + 1, ..p }
        } else {
            Pass { count: 1, last: outcome, world: next, rest }
        }
    }
}

/// A response that is not handled leaves the tables and the descriptor
/// table as they were: a stale or corrupt response never reaches a
/// descriptor.
pub proof fn law_unhandled_changes_nothing(w: World, io_bufs: u32, resp: RDMAResp)
    ensures
        !(on_response(w, io_bufs, resp).0 is Handled) ==> on_response(w, io_bufs, resp).1 == w,
{
}

/// An accepted connection never takes an identifier that is still in use:
/// the descriptors that were registered stay registered as they were.
pub proof fn law_accept_keeps_registrations(w: World, io_bufs: u32, m: RDMAAcceptResp, id: u32)
    requires
        on_accept(w, io_bufs, m).0 is Handled,
        w.tables.sockets.contains_key(id),
    ensures
        on_accept(w, io_bufs, m).1.tables.sockets.contains_key(id),
        on_accept(w, io_bufs, m).1.tables.sockets[id] == w.tables.sockets[id],
        fresh_id(w.tables) != Some(id),
{
    let k = choose|k: int| is_fresh_at(w.tables.sockets, w.tables.next_id, k);
    assert(is_fresh_at(w.tables.sockets, w.tables.next_id, k));
}

/// A report of readiness or of the end of the stream changes at most the
/// descriptor that holds the connected socket of the channel it names: a
/// stale entry of the tables never lets another descriptor be told.
pub proof fn law_only_the_channel_owner_is_told(w: World, io_bufs: u32, resp: RDMAResp, fd: int)
    requires
        resp.msg is RDMANotify || resp.msg is RDMAFinNotify,
        0 <= fd < w.fds.len(),
        on_response(w, io_bufs, resp).1.fds[fd] != w.fds[fd],
    ensures
        ({
            let channelId = match resp.msg {
                RDMARespMsg::RDMANotify(m) => m.channelId,
                RDMARespMsg::RDMAFinNotify(m) => m.channelId,
                _ => 0,
            };
            &&& resolve(w.tables, channelId) == Ok::<i32, SkipReason>(fd as i32)
            &&& has_fd(w.fds, fd)
            &&& owns_channel(w.fds[fd].unwrap(), channelId, w.tables.channels[channelId])
        }),
{
}

/// A pass takes no more responses than are pending, and leaves pending
/// exactly those that it did not take.
pub proof fn law_pass_takes_a_prefix(w: World, io_bufs: u32, cq: Seq<RDMAResp>)
    ensures
        pass(w, io_bufs, cq).count <= cq.len(),
        pass(w, io_bufs, cq).rest == cq.subrange(
            pass(w, io_bufs, cq).count as int,
            cq.len() as int,
        ),
        pass(w, io_bufs, cq).last is Handled ==> pass(w, io_bufs, cq).count == cq.len(),
    decreases cq.len(),
{
    if cq.len() == 0 {
        assert(cq.subrange(0, 0) =~= cq);
    } else {
        let (outcome, next) = on_response(w, io_bufs, cq[0]);
        let rest = cq.subrange(1, cq.len() as int);
        if outcome is Handled {
            law_pass_takes_a_prefix(next, io_bufs, rest);
            let p = pass(next, io_bufs, rest);
            assert(rest.subrange(p.count as int, rest.len() as int) =~= cq.subrange(
                (p.count + 1) as int,
                cq.len() as int,
            ));
        }
    }
}

} // verus!
