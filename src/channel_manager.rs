use vstd::prelude::*;

use crate::connection_manager::ConnHandle;
use crate::gatt::to_pdu;
use crate::l2cap::{Pdu, L2CAP_CID_DYN_START};
use crate::packet_pool::{AllocId, PacketPool};
use crate::signal::L2capLeSignal;

verus! {

/// Result code of a connection response: accepted.
pub const RESULT_SUCCESS: u16 = 0x0000;

/// Result code of a connection response: the SPSM is not served.
pub const RESULT_SPSM_NOT_SUPPORTED: u16 = 0x0002;

/// Result code of a connection response: no channel slot is free.
pub const RESULT_NO_RESOURCES: u16 = 0x0004;

/// Command reject reason: the command is not understood.
pub const REJECT_NOT_UNDERSTOOD: u16 = 0x0000;

/// Command reject reason: the channel id is not valid.
pub const REJECT_INVALID_CID: u16 = 0x0002;

/// The largest credit count a channel may hold.
pub const MAX_CREDITS: u16 = 0xffff;

/// The phase of a channel slot.
#[derive(Clone, Copy, PartialEq, Eq, Structural, Debug)]
pub enum ChannelPhase {
    Disconnected,
    /// A connection request of ours awaits its response.
    Connecting,
    Connected,
    /// A disconnection request of ours awaits its response.
    Disconnecting,
}

/// One slot of the channel table. The local channel id of slot `i` is `0x40 + i`.
#[derive(Clone, Copy, PartialEq, Eq, Structural, Debug)]
pub struct L2capChannel {
    pub phase: ChannelPhase,
    pub conn: ConnHandle,
    pub peer_cid: u16,
    pub peer_mtu: u16,
    pub peer_mps: u16,
    /// K-frames the peer may still send us.
    pub local_credits: u16,
    /// K-frames we may still send the peer.
    pub peer_credits: u16,
    /// Credits of frames taken in and not yet given back to the peer.
    pub pending: u16,
    /// The identifier of our outstanding request.
    pub request_id: u8,
}

/// The local parameters of every channel.
#[derive(Clone, Copy, PartialEq, Eq, Structural, Debug)]
pub struct ChannelConfig {
    pub mtu: u16,
    pub mps: u16,
    /// Credits given to the peer when a channel opens.
    pub initial_credits: u16,
    /// When the peer's credits fall below this, the credits taken are given back.
    pub low_water: u16,
}

/// The empty slot.
pub open spec fn free_slot() -> L2capChannel {
    L2capChannel {
        phase: ChannelPhase::Disconnected,
        conn: ConnHandle(0),
        peer_cid: 0,
        peer_mtu: 0,
        peer_mps: 0,
        local_credits: 0,
        peer_credits: 0,
        pending: 0,
        request_id: 0,
    }
}

fn empty_slot() -> (r: L2capChannel)
    ensures
        r == free_slot(),
{
    L2capChannel {
        phase: ChannelPhase::Disconnected,
        conn: ConnHandle(0),
        peer_cid: 0,
        peer_mtu: 0,
        peer_mps: 0,
        local_credits: 0,
        peer_credits: 0,
        pending: 0,
        request_id: 0,
    }
}

/// The local channel id of slot `i`.
pub open spec fn local_cid(i: int) -> int {
    L2CAP_CID_DYN_START + i
}

/// `i` is the first slot of `s` that is `Disconnected`.
pub open spec fn first_free(s: Seq<L2capChannel>, i: int) -> bool {
    &&& 0 <= i < s.len()
    &&& s[i].phase == ChannelPhase::Disconnected
    &&& forall|j: int| 0 <= j < i ==> (#[trigger] s[j]).phase != ChannelPhase::Disconnected
}

/// Whether some slot of `s` is `Disconnected`.
pub open spec fn has_free(s: Seq<L2capChannel>) -> bool {
    exists|i: int| 0 <= i < s.len() && (#[trigger] s[i]).phase == ChannelPhase::Disconnected
}

/// Whether an SPSM lies in the LE range that this host serves.
pub open spec fn valid_spsm(spsm: u16) -> bool {
    0x0001 <= spsm <= 0x00ff
}

/// What a slot that takes in one more frame becomes, and whether credits go back to the
/// peer: they do, all at once, when the peer's credits fall below the low-water mark.
pub open spec fn after_frame(c: L2capChannel, low_water: u16) -> (L2capChannel, bool) {
    let local = c.local_credits - 1;
    let pending = c.pending + 1;
    if local < low_water {
        (L2capChannel { local_credits: (local + pending) as u16, pending: 0, ..c }, true)
    } else {
        (L2capChannel { local_credits: local as u16, pending: pending as u16, ..c }, false)
    }
}

/// What answering a connection request does: see `ChannelManager::on_conn_request`.
pub open spec fn conn_request_effect(
    old_s: Seq<L2capChannel>,
    cfg: ChannelConfig,
    new_s: Seq<L2capChannel>,
    conn: ConnHandle, id: u8, spsm: u16, scid: u16, mtu: u16, mps: u16, credits: u16, r: L2capLeSignal,
) -> bool {
    &&& (!valid_spsm(spsm) ==> r == (L2capLeSignal::LeCreditConnRes {
                id,
                dcid: 0,
                mtu: 0,
                mps: 0,
                credits: 0,
                result: RESULT_SPSM_NOT_SUPPORTED,
            }) && new_s == old_s)
    &&& (valid_spsm(spsm) && !has_free(old_s) ==> r == (
            L2capLeSignal::LeCreditConnRes {
                id,
                dcid: 0,
                mtu: 0,
                mps: 0,
                credits: 0,
                result: RESULT_NO_RESOURCES,
            }) && new_s == old_s)
    &&& (valid_spsm(spsm) && has_free(old_s) ==> exists|i: int|
                first_free(old_s, i) && new_s == old_s.update(
                    i,
                    L2capChannel {
                        phase: ChannelPhase::Connected,
                        conn,
                        peer_cid: scid,
                        peer_mtu: mtu,
                        peer_mps: mps,
                        local_credits: cfg.initial_credits,
                        peer_credits: credits,
                        pending: 0,
                        request_id: 0,
                    },
                ) && r == (L2capLeSignal::LeCreditConnRes {
                    id,
                    dcid: local_cid(i) as u16,
                    mtu: cfg.mtu,
                    mps: cfg.mps,
                    credits: cfg.initial_credits,
                    result: RESULT_SUCCESS,
                }))
}

/// What taking a connection response does: see `ChannelManager::on_conn_response`.
pub open spec fn conn_response_effect(
    old_s: Seq<L2capChannel>,
    cfg: ChannelConfig,
    new_s: Seq<L2capChannel>,
    conn: ConnHandle, id: u8, dcid: u16, mtu: u16, mps: u16, credits: u16, result: u16, r: Option<usize>,
) -> bool {
    &&& (r is None ==> new_s == old_s)
    &&& (r matches Some(i) ==> {
                let c = old_s[i as int];
                &&& i < old_s.len()
                &&& c.phase == ChannelPhase::Connecting && c.conn == conn && c.request_id == id
                &&& new_s == old_s.update(
                    i as int,
                    if result == RESULT_SUCCESS {
                        L2capChannel {
                            phase: ChannelPhase::Connected,
                            peer_cid: dcid,
                            peer_mtu: mtu,
                            peer_mps: mps,
                            peer_credits: credits,
                            ..c
                        }
                    } else {
                        free_slot()
                    },
                )
            })
    &&& ((r is None) == forall|j: int|
                0 <= j < old_s.len() ==> !((#[trigger] old_s[j]).conn == conn
                    && old_s[j].request_id == id && old_s[j].phase
                    == ChannelPhase::Connecting))
}

/// Whether slot `c` is the connected channel of link `conn` whose peer id is `cid`.
pub open spec fn is_peer_channel(c: L2capChannel, conn: ConnHandle, cid: u16) -> bool {
    c.conn == conn && c.peer_cid == cid && c.phase == ChannelPhase::Connected
}

/// What taking a credit indication does: see `ChannelManager::on_credits`.
pub open spec fn credits_effect(
    old_s: Seq<L2capChannel>,
    cfg: ChannelConfig,
    new_s: Seq<L2capChannel>,
    conn: ConnHandle,
    id: u8,
    cid: u16,
    credits: u16,
    r: Seq<L2capLeSignal>,
) -> bool {
    &&& (forall|j: int| 0 <= j < old_s.len() ==> !is_peer_channel(#[trigger] old_s[j], conn, cid))
        ==> new_s == old_s && r.len() == 0
    &&& (exists|j: int| 0 <= j < old_s.len() && is_peer_channel(#[trigger] old_s[j], conn, cid))
        ==> exists|i: int|
        0 <= i < old_s.len() && is_peer_channel(#[trigger] old_s[i], conn, cid) && {
            let c = old_s[i];
            if c.peer_credits + credits > MAX_CREDITS {
                &&& new_s == old_s.update(i, L2capChannel { phase: ChannelPhase::Disconnecting, ..c })
                &&& r.len() == 2
                &&& r[0] == (L2capLeSignal::CommandReject { id, reason: REJECT_NOT_UNDERSTOOD })
                &&& r[1] matches L2capLeSignal::DisconnectionReq { dcid, scid, .. }
                &&& dcid == cid && scid == local_cid(i)
            } else {
                &&& new_s == old_s.update(
                    i,
                    L2capChannel { peer_credits: (c.peer_credits + credits) as u16, ..c },
                )
                &&& r.len() == 0
            }
        }
}

/// What answering a disconnection request does: see `ChannelManager::on_disconnect_request`.
pub open spec fn disconnect_request_effect(
    old_s: Seq<L2capChannel>,
    cfg: ChannelConfig,
    new_s: Seq<L2capChannel>,
    conn: ConnHandle, id: u8, dcid: u16, scid: u16, r: L2capLeSignal,
) -> bool {
    &&& (({
                let i = dcid - L2CAP_CID_DYN_START;
                let open = L2CAP_CID_DYN_START <= dcid && i < old_s.len() && old_s[i].phase
                    != ChannelPhase::Disconnected && old_s[i].conn == conn && old_s[i].peer_cid == scid;
                &&& open ==> r == (L2capLeSignal::DisconnectionRes { id, dcid, scid })
                    && new_s == old_s.update(i, free_slot())
                &&& !open ==> r == (L2capLeSignal::CommandReject { id, reason: REJECT_INVALID_CID })
                    && new_s == old_s
            }))
}

/// What taking a disconnection response does: see `ChannelManager::on_disconnect_response`.
pub open spec fn disconnect_response_effect(
    old_s: Seq<L2capChannel>,
    cfg: ChannelConfig,
    new_s: Seq<L2capChannel>,
    conn: ConnHandle, dcid: u16, scid: u16,
) -> bool {
    &&& (({
                let i = scid - L2CAP_CID_DYN_START;
                let closing = L2CAP_CID_DYN_START <= scid && i < old_s.len() && old_s[i].phase
                    == ChannelPhase::Disconnecting && old_s[i].conn == conn && old_s[i].peer_cid == dcid;
                &&& closing ==> new_s == old_s.update(i, free_slot())
                &&& !closing ==> new_s == old_s
            }))
}

/// Every frame a channel takes in costs the peer one credit, which stays owed to it until
/// credits go back; once they do, the peer holds again all the credits it was given.
pub proof fn lemma_credit_accounting(c: L2capChannel, low_water: u16, initial: u16)
    requires
        c.local_credits > 0,
        c.local_credits + c.pending == initial,
    ensures
        ({
            let (next, give) = after_frame(c, low_water);
            &&& next.local_credits + next.pending == initial
            &&& !give ==> next.local_credits == c.local_credits - 1
            &&& give ==> next.local_credits == initial && next.pending == 0
        }),
{
}

/// What handling an inbound signalling PDU does: see `ChannelManager::control`.
pub open spec fn control_effect(
    old_s: Seq<L2capChannel>,
    cfg: ChannelConfig,
    new_s: Seq<L2capChannel>,
    conn: ConnHandle,
    signal: L2capLeSignal,
    r: Seq<L2capLeSignal>,
) -> bool {
    match signal {
        L2capLeSignal::LeCreditConnReq { id, spsm, scid, mtu, mps, credits } => r.len() == 1
            && conn_request_effect(
            old_s,
            cfg,
            new_s,
            conn,
            id,
            spsm,
            scid,
            mtu,
            mps,
            credits,
            r[0],
        ),
        L2capLeSignal::LeCreditConnRes { id, dcid, mtu, mps, credits, result } => r.len()
            == 0 && exists|o: Option<usize>|
            conn_response_effect(
                old_s,
                cfg,
                new_s,
                conn,
                id,
                dcid,
                mtu,
                mps,
                credits,
                result,
                o,
            ),
        L2capLeSignal::LeCreditFlowInd { id, cid, credits } => credits_effect(
            old_s,
            cfg,
            new_s,
            conn,
            id,
            cid,
            credits,
            r,
        ),
        L2capLeSignal::DisconnectionReq { id, dcid, scid } => r.len() == 1
            && disconnect_request_effect(
            old_s,
            cfg,
            new_s,
            conn,
            id,
            dcid,
            scid,
            r[0],
        ),
        L2capLeSignal::DisconnectionRes { dcid, scid, .. } => r.len() == 0
            && disconnect_response_effect(
            old_s,
            cfg,
            new_s,
            conn,
            dcid,
            scid,
        ),
        L2capLeSignal::CommandReject { .. } => r.len() == 0 && new_s == old_s,
        L2capLeSignal::Unknown { id, .. } => r == seq![
            L2capLeSignal::CommandReject { id, reason: REJECT_NOT_UNDERSTOOD },
        ] && new_s == old_s,
    }
}

/// A frame received on a channel.
pub enum Received {
    /// The frame, in a buffer of the channel's pool client, for the channel's receive
    /// queue; with the credit indication to send, if credits go back to the peer.
    Delivered { slot: usize, pdu: Pdu, credits: Option<L2capLeSignal> },
    /// The pool gave no buffer: the frame is lost and its credit is not given back.
    Dropped { slot: usize },
}

/// Why a frame could not be taken in.
#[derive(Clone, Copy, PartialEq, Eq, Structural, Debug)]
pub enum ChannelError {
    /// No connected channel of the link has this id.
    UnknownChannel,
    /// The peer sent with no credit left.
    NoCredits,
}

/// A fixed table of `CHANNELS` credit-based channels.
pub struct ChannelManager<const CHANNELS: usize> {
    channels: Vec<L2capChannel>,
    config: ChannelConfig,
    next_id: u8,
}

impl<const CHANNELS: usize> ChannelManager<CHANNELS> {
    pub closed spec fn slots(&self) -> Seq<L2capChannel> {
        self.channels@
    }

    pub closed spec fn config(&self) -> ChannelConfig {
        self.config
    }

    /// There are `CHANNELS` slots whose ids fit 16 bits, and a connected channel never
    /// holds more credits than it was given.
    pub open spec fn wf(&self) -> bool {
        &&& self.slots().len() == CHANNELS
        &&& CHANNELS + L2CAP_CID_DYN_START <= 0x10000
        &&& self.config().low_water <= self.config().initial_credits
        &&& forall|i: int|
            0 <= i < CHANNELS ==> (#[trigger] self.slots()[i]).local_credits
                + self.slots()[i].pending <= self.config().initial_credits
    }

    pub fn new(config: ChannelConfig) -> (r: Self)
        requires
            CHANNELS + L2CAP_CID_DYN_START <= 0x10000,
            config.low_water <= config.initial_credits,
        ensures
            r.wf(),
            r.config() == config,
            forall|i: int| 0 <= i < CHANNELS ==> #[trigger] r.slots()[i] == free_slot(),
    {
        let mut channels: Vec<L2capChannel> = Vec::new();
        let mut i: usize = 0;
        while i < CHANNELS
            invariant
                i <= CHANNELS,
                channels@.len() == i,
                forall|j: int| 0 <= j < i ==> #[trigger] channels@[j] == free_slot(),
            decreases CHANNELS - i,
        {
            channels.push(empty_slot());
            i = i + 1;
        }
        ChannelManager { channels, config, next_id: 1 }
    }

    /// The state of slot `i`.
    pub fn channel(&self, i: usize) -> (r: Option<L2capChannel>)
        ensures
            r == if i < self.slots().len() {
                Some(self.slots()[i as int])
            } else {
                None::<L2capChannel>
            },
    {
        if i < self.channels.len() {
            Some(self.channels[i])
        } else {
            None
        }
    }

    /// The first `Disconnected` slot.
    fn find_free(&self) -> (r: Option<usize>)
        ensures
            r matches Some(i) ==> first_free(self.slots(), i as int),
            r is None ==> !has_free(self.slots()),
    {
        let mut i: usize = 0;
        while i < self.channels.len()
            invariant
                i <= self.channels@.len(),
                forall|j: int|
                    0 <= j < i ==> (#[trigger] self.channels@[j]).phase != ChannelPhase::Disconnected,
            decreases self.channels@.len() - i,
        {
            if self.channels[i].phase == ChannelPhase::Disconnected {
                return Some(i);
            }
            i = i + 1;
        }
        None
    }

    /// The first slot of link `conn` in phase `phase` whose peer channel id is `cid`.
    fn find_peer(&self, conn: ConnHandle, cid: u16, phase: ChannelPhase) -> (r: Option<usize>)
        ensures
            r matches Some(i) ==> i < self.slots().len() && self.slots()[i as int].conn == conn
                && self.slots()[i as int].peer_cid == cid && self.slots()[i as int].phase == phase,
            r is None ==> forall|j: int|
                0 <= j < self.slots().len() ==> !((#[trigger] self.slots()[j]).conn == conn
                    && self.slots()[j].peer_cid == cid && self.slots()[j].phase == phase),
    {
        let mut i: usize = 0;
        while i < self.channels.len()
            invariant
                i <= self.channels@.len(),
                forall|j: int|
                    0 <= j < i ==> !((#[trigger] self.channels@[j]).conn == conn
                        && self.channels@[j].peer_cid == cid && self.channels@[j].phase == phase),
            decreases self.channels@.len() - i,
        {
            let c = self.channels[i];
            if c.conn == conn && c.peer_cid == cid && c.phase == phase {
                return Some(i);
            }
            i = i + 1;
        }
        None
    }

    /// The first slot of link `conn` awaiting the response to request `id`.
    fn find_request(&self, conn: ConnHandle, id: u8) -> (r: Option<usize>)
        ensures
            r matches Some(i) ==> i < self.slots().len() && self.slots()[i as int].conn == conn
                && self.slots()[i as int].request_id == id && self.slots()[i as int].phase
                == ChannelPhase::Connecting,
            r is None ==> forall|j: int|
                0 <= j < self.slots().len() ==> !((#[trigger] self.slots()[j]).conn == conn
                    && self.slots()[j].request_id == id && self.slots()[j].phase
                    == ChannelPhase::Connecting),
    {
        let mut i: usize = 0;
        while i < self.channels.len()
            invariant
                i <= self.channels@.len(),
                forall|j: int|
                    0 <= j < i ==> !((#[trigger] self.channels@[j]).conn == conn
                        && self.channels@[j].request_id == id && self.channels@[j].phase
                        == ChannelPhase::Connecting),
            decreases self.channels@.len() - i,
        {
            let c = self.channels[i];
            if c.conn == conn && c.request_id == id && c.phase == ChannelPhase::Connecting {
                return Some(i);
            }
            i = i + 1;
        }
        None
    }

    /// The slot of the local channel id `cid`, when `cid` names one.
    fn slot_of(&self, cid: u16) -> (r: Option<usize>)
        requires
            self.wf(),
        ensures
            r matches Some(i) ==> i < CHANNELS && local_cid(i as int) == cid,
            r is None ==> !(L2CAP_CID_DYN_START <= cid < L2CAP_CID_DYN_START + CHANNELS),
    {
        if cid < L2CAP_CID_DYN_START {
            return None;
        }
        let i = (cid - L2CAP_CID_DYN_START) as usize;
        if i < self.channels.len() {
            Some(i)
        } else {
            None
        }
    }

    /// A fresh request identifier; identifiers run from 1 to 255 and wrap.
    fn take_id(&mut self) -> (r: u8)
        ensures
            r != 0,
            final(self).slots() == old(self).slots(),
            final(self).config() == old(self).config(),
    {
        let id = if self.next_id == 0 {
            1
        } else {
            self.next_id
        };
        self.next_id = if id == 255 {
            1
        } else {
            id + 1
        };
        id
    }

    /// Answers a peer's LE credit based connection request. An SPSM out of the LE range
    /// is refused; so is a request when no slot is free. Else the first free slot opens
    /// as `Connected`, with the peer's parameters and the configured credits, and the
    /// response carries its channel id.
    pub fn on_conn_request(
        &mut self,
        conn: ConnHandle,
        id: u8,
        spsm: u16,
        scid: u16,
        mtu: u16,
        mps: u16,
        credits: u16,
    ) -> (r: L2capLeSignal)
        requires
            old(self).wf(),
        ensures
            final(self).wf(),
            final(self).config() == old(self).config(),
            conn_request_effect(old(self).slots(), old(self).config(), final(self).slots(), conn, id, spsm, scid, mtu, mps, credits, r),
    {
        let refuse = |result: u16| -> (s: L2capLeSignal)
            ensures
                s == (L2capLeSignal::LeCreditConnRes {
                    id,
                    dcid: 0,
                    mtu: 0,
                    mps: 0,
                    credits: 0,
                    result,
                }),
            { L2capLeSignal::LeCreditConnRes { id, dcid: 0, mtu: 0, mps: 0, credits: 0, result } };
        if spsm < 0x0001 || spsm > 0x00ff {
            return refuse(RESULT_SPSM_NOT_SUPPORTED);
        }
        match self.find_free() {
            None => refuse(RESULT_NO_RESOURCES),
            Some(i) => {
                self.channels[i] = L2capChannel {
                    phase: ChannelPhase::Connected,
                    conn,
                    peer_cid: scid,
                    peer_mtu: mtu,
                    peer_mps: mps,
                    local_credits: self.config.initial_credits,
                    peer_credits: credits,
                    pending: 0,
                    request_id: 0,
                };
                L2capLeSignal::LeCreditConnRes {
                    id,
                    dcid: L2CAP_CID_DYN_START + i as u16,
                    mtu: self.config.mtu,
                    mps: self.config.mps,
                    credits: self.config.initial_credits,
                    result: RESULT_SUCCESS,
                }
            },
        }
    }

    /// Opens a channel to the peer: the first free slot becomes `Connecting` and the
    /// request to send is returned with the slot. `None` when no slot is free.
    pub fn connect(&mut self, conn: ConnHandle, spsm: u16) -> (r: Option<(usize, L2capLeSignal)>)
        requires
            old(self).wf(),
        ensures
            final(self).wf(),
            final(self).config() == old(self).config(),
            r is None == !has_free(old(self).slots()),
            r is None ==> final(self).slots() == old(self).slots(),
            r matches Some((i, s)) ==> {
                &&& first_free(old(self).slots(), i as int)
                &&& s matches L2capLeSignal::LeCreditConnReq { id, spsm: sp, scid, mtu, mps, credits }
                &&& id != 0 && sp == spsm && scid == local_cid(i as int) && mtu == old(
                    self,
                ).config().mtu && mps == old(self).config().mps && credits == old(
                    self,
                ).config().initial_credits
                &&& final(self).slots() == old(self).slots().update(
                    i as int,
                    L2capChannel {
                        phase: ChannelPhase::Connecting,
                        conn,
                        peer_cid: 0,
                        peer_mtu: 0,
                        peer_mps: 0,
                        local_credits: old(self).config().initial_credits,
                        peer_credits: 0,
                        pending: 0,
                        request_id: id,
                    },
                )
            },
    {
        match self.find_free() {
            None => None,
            Some(i) => {
                let id = self.take_id();
                let credits = self.config.initial_credits;
                self.channels[i] = L2capChannel {
                    phase: ChannelPhase::Connecting,
                    conn,
                    peer_cid: 0,
                    peer_mtu: 0,
                    peer_mps: 0,
                    local_credits: credits,
                    peer_credits: 0,
                    pending: 0,
                    request_id: id,
                };
                let cid = L2CAP_CID_DYN_START + i as u16;
                Some(
                    (
                        i,
                        L2capLeSignal::LeCreditConnReq {
                            id,
                            spsm,
                            scid: cid,
                            mtu: self.config.mtu,
                            mps: self.config.mps,
                            credits,
                        },
                    ),
                )
            },
        }
    }

    /// Takes the peer's response to our request `id`: on success the channel becomes
    /// `Connected` with the peer's parameters, else it is freed. A response that matches
    /// no request changes nothing.
    pub fn on_conn_response(
        &mut self,
        conn: ConnHandle,
        id: u8,
        dcid: u16,
        mtu: u16,
        mps: u16,
        credits: u16,
        result: u16,
    ) -> (r: Option<usize>)
        requires
            old(self).wf(),
        ensures
            final(self).wf(),
            final(self).config() == old(self).config(),
            conn_response_effect(old(self).slots(), old(self).config(), final(self).slots(), conn, id, dcid, mtu, mps, credits, result, r),
    {
        match self.find_request(conn, id) {
            None => None,
            Some(i) => {
                let c = self.channels[i];
                self.channels[i] = if result == RESULT_SUCCESS {
                    L2capChannel {
                        phase: ChannelPhase::Connected,
                        peer_cid: dcid,
                        peer_mtu: mtu,
                        peer_mps: mps,
                        peer_credits: credits,
                        ..c
                    }
                } else {
                    empty_slot()
                };
                Some(i)
            },
        }
    }

    /// Adds credits the peer grants on its channel `cid`. Credits past the maximum are a
    /// protocol error: the command is rejected and the channel is disconnected, which
    /// the returned signals carry out.
    pub fn on_credits(&mut self, conn: ConnHandle, id: u8, cid: u16, credits: u16) -> (r: Vec<
        L2capLeSignal,
    >)
        requires
            old(self).wf(),
        ensures
            final(self).wf(),
            final(self).config() == old(self).config(),
            credits_effect(old(self).slots(), old(self).config(), final(self).slots(), conn, id, cid, credits, r@),
    {
        let mut out: Vec<L2capLeSignal> = Vec::new();
        match self.find_peer(conn, cid, ChannelPhase::Connected) {
            None => {},
            Some(i) => {
                let c = self.channels[i];
                if c.peer_credits > MAX_CREDITS - credits {
                    self.channels[i] = L2capChannel { phase: ChannelPhase::Disconnecting, ..c };
                    out.push(L2capLeSignal::CommandReject { id, reason: REJECT_NOT_UNDERSTOOD });
                    let req = self.take_id();
                    out.push(
                        L2capLeSignal::DisconnectionReq {
                            id: req,
                            dcid: cid,
                            scid: L2CAP_CID_DYN_START + i as u16,
                        },
                    );
                } else {
                    self.channels[i] = L2capChannel { peer_credits: c.peer_credits + credits, ..c };
                }
            },
        }
        out
    }

    /// Answers the peer's request to close our channel `dcid` (its own being `scid`):
    /// the slot is freed and the response returned. A request that names no open channel
    /// of the link is rejected.
    pub fn on_disconnect_request(&mut self, conn: ConnHandle, id: u8, dcid: u16, scid: u16) -> (r:
        L2capLeSignal)
        requires
            old(self).wf(),
        ensures
            final(self).wf(),
            final(self).config() == old(self).config(),
            disconnect_request_effect(old(self).slots(), old(self).config(), final(self).slots(), conn, id, dcid, scid, r),
    {
        match self.slot_of(dcid) {
            Some(i) => {
                let c = self.channels[i];
                if c.phase != ChannelPhase::Disconnected && c.conn == conn && c.peer_cid == scid {
                    self.channels[i] = empty_slot();
                    return L2capLeSignal::DisconnectionRes { id, dcid, scid };
                }
                L2capLeSignal::CommandReject { id, reason: REJECT_INVALID_CID }
            },
            None => L2capLeSignal::CommandReject { id, reason: REJECT_INVALID_CID },
        }
    }

    /// Takes the peer's response to our request to close channel `scid`: the slot, if it
    /// was `Disconnecting`, is freed.
    pub fn on_disconnect_response(&mut self, conn: ConnHandle, dcid: u16, scid: u16)
        requires
            old(self).wf(),
        ensures
            final(self).wf(),
            final(self).config() == old(self).config(),
            disconnect_response_effect(old(self).slots(), old(self).config(), final(self).slots(), conn, dcid, scid),
    {
        if let Some(i) = self.slot_of(scid) {
            let c = self.channels[i];
            if c.phase == ChannelPhase::Disconnecting && c.conn == conn && c.peer_cid == dcid {
                self.channels[i] = empty_slot();
            }
        }
    }

    /// Handles an inbound signalling PDU of link `conn` and returns the PDUs to send back.
    /// A PDU whose code is unknown is rejected as not understood; a command reject
    /// changes nothing.
    pub fn control(&mut self, conn: ConnHandle, signal: L2capLeSignal) -> (r: Vec<L2capLeSignal>)
        requires
            old(self).wf(),
        ensures
            final(self).wf(),
            final(self).config() == old(self).config(),
            control_effect(old(self).slots(), old(self).config(), final(self).slots(), conn, signal, r@),
    {
        let mut out: Vec<L2capLeSignal> = Vec::new();
        match signal {
            L2capLeSignal::LeCreditConnReq { id, spsm, scid, mtu, mps, credits } => {
                let res = self.on_conn_request(conn, id, spsm, scid, mtu, mps, credits);
                out.push(res);
            },
            L2capLeSignal::LeCreditConnRes { id, dcid, mtu, mps, credits, result } => {
                let _ = self.on_conn_response(conn, id, dcid, mtu, mps, credits, result);
            },
            L2capLeSignal::LeCreditFlowInd { id, cid, credits } => {
                out = self.on_credits(conn, id, cid, credits);
            },
            L2capLeSignal::DisconnectionReq { id, dcid, scid } => {
                let res = self.on_disconnect_request(conn, id, dcid, scid);
                out.push(res);
            },
            L2capLeSignal::DisconnectionRes { dcid, scid, .. } => {
                self.on_disconnect_response(conn, dcid, scid);
            },
            L2capLeSignal::CommandReject { .. } => {},
            L2capLeSignal::Unknown { id, .. } => {
                out.push(L2capLeSignal::CommandReject { id, reason: REJECT_NOT_UNDERSTOOD });
            },
        }
        proof {
            if out@.len() == 1 {
                assert(out@ =~= seq![out@[0]]);
            }
        }
        out
    }

    /// Starts closing our connected channel in slot `i`: it becomes `Disconnecting` and
    /// the request to send is returned. `None`, changing nothing, when the slot is not
    /// connected.
    pub fn disconnect(&mut self, i: usize) -> (r: Option<L2capLeSignal>)
        requires
            old(self).wf(),
        ensures
            final(self).wf(),
            final(self).config() == old(self).config(),
            r is Some == (i < CHANNELS && old(self).slots()[i as int].phase
                == ChannelPhase::Connected),
            r is None ==> final(self).slots() == old(self).slots(),
            r matches Some(s) ==> {
                let c = old(self).slots()[i as int];
                &&& final(self).slots() == old(self).slots().update(
                    i as int,
                    L2capChannel { phase: ChannelPhase::Disconnecting, ..c },
                )
                &&& s matches L2capLeSignal::DisconnectionReq { id, dcid, scid }
                &&& id != 0 && dcid == c.peer_cid && scid == local_cid(i as int)
            },
    {
        if i >= self.channels.len() {
            return None;
        }
        let c = self.channels[i];
        if c.phase != ChannelPhase::Connected {
            return None;
        }
        self.channels[i] = L2capChannel { phase: ChannelPhase::Disconnecting, ..c };
        let id = self.take_id();
        Some(
            L2capLeSignal::DisconnectionReq {
                id,
                dcid: c.peer_cid,
                scid: L2CAP_CID_DYN_START + i as u16,
            },
        )
    }

    /// Frees every channel of a link that is gone.
    pub fn disconnect_all(&mut self, conn: ConnHandle)
        requires
            old(self).wf(),
        ensures
            final(self).wf(),
            final(self).config() == old(self).config(),
            final(self).slots().len() == old(self).slots().len(),
            forall|j: int|
                0 <= j < old(self).slots().len() ==> #[trigger] final(self).slots()[j] == if old(
                    self,
                ).slots()[j].conn == conn && old(self).slots()[j].phase
                    != ChannelPhase::Disconnected {
                    free_slot()
                } else {
                    old(self).slots()[j]
                },
    {
        let mut i: usize = 0;
        while i < self.channels.len()
            invariant
                self.wf(),
                self.config == old(self).config,
                self.channels@.len() == old(self).channels@.len(),
                i <= self.channels@.len(),
                forall|j: int|
                    0 <= j < self.channels@.len() ==> #[trigger] self.channels@[j] == if j < i && old(
                        self,
                    ).channels@[j].conn == conn && old(self).channels@[j].phase
                        != ChannelPhase::Disconnected {
                        free_slot()
                    } else {
                        old(self).channels@[j]
                    },
            decreases self.channels@.len() - i,
        {
            let c = self.channels[i];
            if c.conn == conn && c.phase != ChannelPhase::Disconnected {
                self.channels[i] = empty_slot();
            }
            i = i + 1;
        }
    }

    /// Takes in a K-frame for our channel `cid` of link `conn`. It costs the peer one
    /// credit. The payload goes into a buffer of the channel's pool client; when the pool
    /// has none the frame is dropped and its credit is kept back. A frame taken in counts
    /// towards the credits given back once the peer's credits fall below the low-water
    /// mark.
    pub fn receive<const MTU: usize, const N: usize, const CLIENTS: usize>(
        &mut self,
        conn: ConnHandle,
        cid: u16,
        payload: &[u8],
        pool: &mut PacketPool<MTU, N, CLIENTS>,
    ) -> (r: Result<Received, ChannelError>)
        requires
            old(self).wf(),
            old(pool).wf(),
            CHANNELS + 2 <= CLIENTS,
        ensures
            final(self).wf(),
            final(pool).wf(),
            final(self).config() == old(self).config(),
            final(pool).qos() == old(pool).qos(),
            !(r matches Ok(Received::Delivered { .. })) ==> *final(pool) == *old(pool),
            ({
                let i = cid - L2CAP_CID_DYN_START;
                let open = L2CAP_CID_DYN_START <= cid && i < CHANNELS && old(self).slots()[i].phase
                    == ChannelPhase::Connected && old(self).slots()[i].conn == conn;
                let c = old(self).slots()[i];
                &&& !open ==> r == Err::<Received, ChannelError>(ChannelError::UnknownChannel)
                    && final(self).slots() == old(self).slots()
                &&& open && c.local_credits == 0 ==> r == Err::<Received, ChannelError>(
                    ChannelError::NoCredits,
                ) && final(self).slots() == old(self).slots()
                &&& open && c.local_credits > 0 ==> {
                    let id = AllocId((i + 2) as usize);
                    if old(pool).spec_available(id) > 0 && payload@.len() <= MTU {
                        let (next, give) = after_frame(c, old(self).config().low_water);
                        &&& final(self).slots() == old(self).slots().update(i, next)
                        &&& r matches Ok(Received::Delivered { slot, pdu, credits })
                        &&& slot == i && pdu.payload() == payload@ && pdu.packet.client() == id
                            && final(pool).holds(&pdu.packet)
                        &&& give ==> (credits matches Some(
                            L2capLeSignal::LeCreditFlowInd { cid: s, credits: k, .. },
                        ) && s == cid && k == c.pending + 1)
                        &&& !give ==> credits is None
                    } else {
                        &&& final(self).slots() == old(self).slots().update(
                            i,
                            L2capChannel { local_credits: (c.local_credits - 1) as u16, ..c },
                        )
                        &&& r matches Ok(Received::Dropped { slot })
                        &&& slot == i
                    }
                }
            }),
    {
        let i = match self.slot_of(cid) {
            Some(i) => i,
            None => return Err(ChannelError::UnknownChannel),
        };
        let c = self.channels[i];
        if c.phase != ChannelPhase::Connected || c.conn != conn {
            return Err(ChannelError::UnknownChannel);
        }
        if c.local_credits == 0 {
            return Err(ChannelError::NoCredits);
        }
        let id = AllocId::dynamic(i);
        match to_pdu(pool, id, payload) {
            None => {
                self.channels[i] = L2capChannel { local_credits: c.local_credits - 1, ..c };
                Ok(Received::Dropped { slot: i })
            },
            Some(pdu) => {
                let local = c.local_credits - 1;
                let pending = c.pending + 1;
                if local < self.config.low_water {
                    self.channels[i] = L2capChannel {
                        local_credits: local + pending,
                        pending: 0,
                        ..c
                    };
                    let ind_id = self.take_id();
                    let ind = L2capLeSignal::LeCreditFlowInd { id: ind_id, cid, credits: pending };
                    Ok(Received::Delivered { slot: i, pdu, credits: Some(ind) })
                } else {
                    self.channels[i] = L2capChannel { local_credits: local, pending, ..c };
                    Ok(Received::Delivered { slot: i, pdu, credits: None })
                }
            },
        }
    }
}

} // verus!
