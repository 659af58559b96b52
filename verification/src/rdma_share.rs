//! What the client and the service share: the messages that travel through
//! the rings, the region that holds a client's rings, and the service's
//! region with its sleep flag and the bitmap of clients that have work for
//! it.

use crate::ring::RingQueue;
use vstd::prelude::*;

verus! {

/// The readiness event "data can be read".
pub const EVENT_IN: u64 = 0x01;

/// The readiness event "data can be written".
pub const EVENT_OUT: u64 = 0x04;

/// The number of 64-bit words in the bitmap of clients; there is one bit
/// for each client.
pub const TRIGGER_BITMAP_WORDS: usize = 512;

/// The number of clients that one service can serve.
pub const MAX_AGENTS: u32 = 32768;

/// Why an operation of the client failed.
#[derive(Clone, Copy, Debug, PartialEq, Eq)]
pub enum RdmaError {
    /// The submission ring is full.
    NoEnoughSpace,
}

/// One mapped span of virtual addresses.
#[derive(Clone, Copy, Debug, PartialEq, Eq)]
pub struct MemRegion {
    pub addr: u64,
    pub len: u64,
}

/// An IPv4 address and a port, both in network byte order.
#[derive(Clone, Copy, Debug, PartialEq, Eq)]
pub struct Endpoint {
    pub ipAddr: u32,
    pub port: u16,
}

#[derive(Clone, Copy, Debug, PartialEq, Eq)]
pub struct RDMAListenReq {
    pub sockfd: u32,
    pub ipAddr: u32,
    pub port: u16,
    pub waitingLen: i32,
}

#[derive(Clone, Copy, Debug, PartialEq, Eq)]
pub struct RDMAListenReqUsingPodId {
    pub sockfd: u32,
    pub podId: [u8; 64],
    pub port: u16,
    pub waitingLen: i32,
}

#[derive(Clone, Copy, Debug, PartialEq, Eq)]
pub struct RDMAConnectReq {
    pub sockfd: u32,
    pub dstIpAddr: u32,
    pub dstPort: u16,
    pub srcIpAddr: u32,
    pub srcPort: u16,
}

#[derive(Clone, Copy, Debug, PartialEq, Eq)]
pub struct RDMAConnectReqUsingPodId {
    pub sockfd: u32,
    pub dstIpAddr: u32,
    pub dstPort: u16,
    pub podId: [u8; 64],
    pub srcPort: u16,
}

#[derive(Clone, Copy, Debug, PartialEq, Eq)]
pub struct RDMAReadReq {
    pub channelId: u32,
}

#[derive(Clone, Copy, Debug, PartialEq, Eq)]
pub struct RDMAWriteReq {
    pub channelId: u32,
}

#[derive(Clone, Copy, Debug, PartialEq, Eq)]
pub struct RDMAShutdownReq {
    pub channelId: u32,
    pub howto: u8,
}

#[derive(Clone, Copy, Debug, PartialEq, Eq)]
pub struct RDMACloseReq {
    pub channelId: u32,
}

/// What a client asks of the service.
#[derive(Clone, Copy, Debug, PartialEq, Eq)]
pub enum RDMAReqMsg {
    RDMAListen(RDMAListenReq),
    RDMAListenUsingPodId(RDMAListenReqUsingPodId),
    RDMAConnect(RDMAConnectReq),
    RDMAConnectUsingPodId(RDMAConnectReqUsingPodId),
    RDMARead(RDMAReadReq),
    RDMAWrite(RDMAWriteReq),
    RDMAShutdown(RDMAShutdownReq),
    RDMAClose(RDMACloseReq),
}

/// A request as it travels through the submission ring.
#[derive(Clone, Copy, Debug, PartialEq, Eq)]
pub struct RDMAReq {
    pub user_data: u64,
    pub msg: RDMAReqMsg,
}

#[derive(Clone, Copy, Debug, PartialEq, Eq)]
pub struct RDMAConnectResp {
    pub sockfd: u32,
    pub ioBufIndex: u32,
    pub channelId: u32,
    pub dstIpAddr: u32,
    pub dstPort: u16,
    pub srcIpAddr: u32,
    pub srcPort: u16,
}

#[derive(Clone, Copy, Debug, PartialEq, Eq)]
pub struct RDMAAcceptResp {
    pub sockfd: u32,
    pub ioBufIndex: u32,
    pub channelId: u32,
    pub dstIpAddr: u32,
    pub dstPort: u16,
    pub srcIpAddr: u32,
    pub srcPort: u16,
}

#[derive(Clone, Copy, Debug, PartialEq, Eq)]
pub struct RDMANotifyResp {
    pub channelId: u32,
    pub event: u64,
}

#[derive(Clone, Copy, Debug, PartialEq, Eq)]
pub struct RDMAFinNotifyResp {
    pub channelId: u32,
    pub event: u64,
}

/// What the service tells a client.
#[derive(Clone, Copy, Debug, PartialEq, Eq)]
pub enum RDMARespMsg {
    RDMAConnect(RDMAConnectResp),
    RDMAAccept(RDMAAcceptResp),
    RDMANotify(RDMANotifyResp),
    RDMAFinNotify(RDMAFinNotifyResp),
}

/// A response as it travels through the completion ring.
#[derive(Clone, Copy, Debug, PartialEq, Eq)]
pub struct RDMAResp {
    pub user_data: u64,
    pub msg: RDMARespMsg,
}

/// Whether the bit of the client `id` is set in the bitmap `words`.
pub open spec fn bit_is_set(words: Seq<u64>, id: int) -> bool {
    &&& 0 <= id < words.len() * 64
    &&& (words[id / 64] >> ((id % 64) as u64)) & 1 == 1
}

/// The region of the service, which all clients see.
pub struct ShareRegion {
    /// 1 while the service sleeps and has to be woken up, 0 while it polls.
    pub srvBitmap: u64,
    /// One bit for each client: set while the client has work for the
    /// service.
    pub bitmap: Vec<u64>,
}

impl ShareRegion {
    /// The bitmap has a bit for each client.
    pub open spec fn wf(&self) -> bool {
        self.bitmap@.len() == TRIGGER_BITMAP_WORDS
    }

    /// Whether the client `agentId` is marked as having work for the
    /// service.
    pub open spec fn is_pending(&self, agentId: int) -> bool {
        bit_is_set(self.bitmap@, agentId)
    }

    /// The region of a service that polls and for which no client has work.
    pub fn New() -> (r: Self)
        ensures
            r.wf(),
            r.srvBitmap == 0,
            forall|id: int| !r.is_pending(id),
    {
        let mut bitmap: Vec<u64> = Vec::new();
        let mut i: usize = 0;
        while i < TRIGGER_BITMAP_WORDS
            invariant
                i <= TRIGGER_BITMAP_WORDS,
                bitmap@.len() == i,
                forall|k: int| 0 <= k < i ==> bitmap@[k] == 0,
            decreases TRIGGER_BITMAP_WORDS - i,
        {
            bitmap.push(0);
            i = i + 1;
        }
        let r = ShareRegion { srvBitmap: 0, bitmap };
        assert forall|id: int| !r.is_pending(id) by {
            if 0 <= id < r.bitmap@.len() * 64 {
                let j = (id % 64) as u64;
                assert((0u64 >> j) & 1 == 0) by (bit_vector);
            }
        }
        r
    }

    /// Marks the client `agentId` as having work for the service. The marks
    /// of the other clients stay as they are.
    pub fn updateBitmap(&mut self, agentId: u32)
        requires
            old(self).wf(),
            agentId < MAX_AGENTS,
        ensures
            final(self).wf(),
            final(self).srvBitmap == old(self).srvBitmap,
            forall|id: int|
                final(self).is_pending(id) <==> old(self).is_pending(id) || id == agentId,
    {
        let idx = (agentId / 64) as usize;
        let pos = (agentId % 64) as u64;
        let word = self.bitmap[idx];
        let marked = word | (1u64 << pos);
        self.bitmap.set(idx, marked);
        proof {
            assert forall|id: int|
                self.is_pending(id) <==> old(self).is_pending(id) || id == agentId by {
                if 0 <= id < 64 * TRIGGER_BITMAP_WORDS {
                    let j = (id % 64) as u64;
                    if id / 64 == idx {
                        assert(((word | (1u64 << pos)) >> j) & 1 == 1 <==> (word >> j) & 1 == 1 || j
                            == pos) by (bit_vector)
                            requires
                                j < 64,
                                pos < 64,
                        ;
                    }
                }
            }
        }
    }

    /// Whether the client `agentId` is marked as having work for the
    /// service.
    pub fn IsPending(&self, agentId: u32) -> (b: bool)
        requires
            self.wf(),
        ensures
            b == self.is_pending(agentId as int),
    {
        if agentId >= MAX_AGENTS {
            return false;
        }
        let idx = (agentId / 64) as usize;
        let pos = (agentId % 64) as u64;
        (self.bitmap[idx] >> pos) & 1 == 1
    }
}

/// The region that one client shares with the service: the ring of
/// requests, the ring of responses, and the client's own flag, which is 1
/// while the client wants to be woken up for new responses.
pub struct ClientShareRegion {
    pub clientBitmap: u32,
    pub sq: RingQueue<RDMAReq>,
    pub cq: RingQueue<RDMAResp>,
    /// The number of I/O buffers in the region.
    pub ioBufCount: u32,
}

impl ClientShareRegion {
    /// Both rings are well formed.
    pub open spec fn wf(&self) -> bool {
        self.sq.wf() && self.cq.wf()
    }

    /// A region with empty rings and `ioBufCount` I/O buffers, whose client
    /// does not ask to be woken up.
    pub fn New(sqCapacity: usize, cqCapacity: usize, ioBufCount: u32) -> (r: Self)
        ensures
            r.wf(),
            r.clientBitmap == 0,
            r.ioBufCount == ioBufCount,
            r.sq@ == Seq::<RDMAReq>::empty(),
            r.cq@ == Seq::<RDMAResp>::empty(),
            r.sq.capacity() == sqCapacity,
            r.cq.capacity() == cqCapacity,
    {
        ClientShareRegion {
            clientBitmap: 0,
            sq: RingQueue::New(sqCapacity),
            cq: RingQueue::New(cqCapacity),
            ioBufCount,
        }
    }
}

} // verus!
