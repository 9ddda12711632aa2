use vstd::prelude::*;

use crate::codec::{le16, le16_bytes, read_le16, write_le16, CodecError};
use crate::connection_manager::{with_mtu, ConnHandle, ConnectionManager, DEFAULT_ATT_MTU};
use crate::l2cap::{encode_l2cap, l2cap_frame, Pdu, L2CAP_CID_ATT};
use crate::packet_pool::{AllocId, PacketPool};

verus! {

pub const ATT_EXCHANGE_MTU_REQUEST_OPCODE: u8 = 0x02;

pub const ATT_EXCHANGE_MTU_RESPONSE_OPCODE: u8 = 0x03;

pub const ATT_HANDLE_VALUE_NTF_OPTCODE: u8 = 0x1b;

/// A decoded ATT request: the MTU exchange, which this layer answers itself, or another
/// request for the attribute server.
#[derive(Clone, Copy, PartialEq, Eq, Structural, Debug)]
pub enum AttRequest {
    ExchangeMtu { mtu: u16 },
    Other { opcode: u8 },
}

pub open spec fn spec_decode_att(pdu: Seq<u8>) -> Result<AttRequest, CodecError> {
    if pdu.len() == 0 {
        Err(CodecError::InvalidValue)
    } else if pdu[0] == ATT_EXCHANGE_MTU_REQUEST_OPCODE {
        if pdu.len() < 3 {
            Err(CodecError::InvalidValue)
        } else {
            Ok(AttRequest::ExchangeMtu { mtu: le16(pdu[1], pdu[2]) as u16 })
        }
    } else {
        Ok(AttRequest::Other { opcode: pdu[0] })
    }
}

/// Reads an ATT request.
pub fn decode_att(pdu: &[u8]) -> (r: Result<AttRequest, CodecError>)
    ensures
        r == spec_decode_att(pdu@),
{
    if pdu.len() == 0 {
        Err(CodecError::InvalidValue)
    } else if pdu[0] == ATT_EXCHANGE_MTU_REQUEST_OPCODE {
        if pdu.len() < 3 {
            Err(CodecError::InvalidValue)
        } else {
            Ok(AttRequest::ExchangeMtu { mtu: read_le16(pdu[1], pdu[2]) })
        }
    } else {
        Ok(AttRequest::Other { opcode: pdu[0] })
    }
}

/// The body of an MTU exchange response.
pub open spec fn mtu_response_body(mtu: u16) -> Seq<u8> {
    seq![ATT_EXCHANGE_MTU_RESPONSE_OPCODE] + le16_bytes(mtu)
}

/// How many value bytes a notification carries on a link of ATT MTU `mtu`: the value,
/// cut at `mtu - 3`.
pub open spec fn notified_len(value_len: int, mtu: u16) -> int {
    if mtu < 3 {
        0
    } else if value_len < mtu - 3 {
        value_len
    } else {
        mtu - 3
    }
}

/// The body of a notification of `value` for the attribute `handle`.
pub open spec fn notification_body(handle: u16, value: Seq<u8>, mtu: u16) -> Seq<u8> {
    seq![ATT_HANDLE_VALUE_NTF_OPTCODE] + le16_bytes(handle) + value.take(
        notified_len(value.len() as int, mtu),
    )
}

/// `body` cut at `mtu` bytes.
pub open spec fn truncated(body: Seq<u8>, mtu: u16) -> Seq<u8> {
    if body.len() <= mtu {
        body
    } else {
        body.take(mtu as int)
    }
}

/// The L2CAP frame of an MTU exchange response.
pub fn mtu_response(mtu: u16) -> (r: Vec<u8>)
    ensures
        r@ == l2cap_frame(L2CAP_CID_ATT, mtu_response_body(mtu)),
{
    let mut body: Vec<u8> = Vec::new();
    body.push(ATT_EXCHANGE_MTU_RESPONSE_OPCODE);
    write_le16(&mut body, mtu);
    assert(body@ =~= mtu_response_body(mtu));
    match encode_l2cap(L2CAP_CID_ATT, body.as_slice()) {
        Ok(v) => v,
        Err(_) => Vec::new(),
    }
}

/// The L2CAP frame of a notification of `value` for the attribute `handle`, on a link of
/// ATT MTU `mtu`.
pub fn notification(handle: u16, value: &[u8], mtu: u16) -> (r: Vec<u8>)
    ensures
        r@ == l2cap_frame(L2CAP_CID_ATT, notification_body(handle, value@, mtu)),
{
    let n: usize = if mtu < 3 {
        0
    } else if value.len() < (mtu - 3) as usize {
        value.len()
    } else {
        (mtu - 3) as usize
    };
    let mut body: Vec<u8> = Vec::new();
    body.push(ATT_HANDLE_VALUE_NTF_OPTCODE);
    write_le16(&mut body, handle);
    let ghost head = body@;
    let mut i: usize = 0;
    while i < n
        invariant
            n <= value@.len(),
            i <= n,
            body@ == head + value@.take(i as int),
        decreases n - i,
    {
        body.push(value[i]);
        i = i + 1;
        assert(body@ =~= head + value@.take(i as int));
    }
    assert(body@ =~= notification_body(handle, value@, mtu));
    match encode_l2cap(L2CAP_CID_ATT, body.as_slice()) {
        Ok(v) => v,
        Err(_) => Vec::new(),
    }
}

/// The L2CAP frame of a response `body` from the attribute server, cut at the link's ATT
/// MTU `mtu`.
pub fn framed_response(body: &[u8], mtu: u16) -> (r: Vec<u8>)
    ensures
        r@ == l2cap_frame(L2CAP_CID_ATT, truncated(body@, mtu)),
{
    let n: usize = if body.len() <= mtu as usize {
        body.len()
    } else {
        mtu as usize
    };
    let (cut, _) = body.split_at(n);
    assert(cut@ =~= truncated(body@, mtu));
    match encode_l2cap(L2CAP_CID_ATT, cut) {
        Ok(v) => v,
        Err(_) => Vec::new(),
    }
}

/// Puts `frame` in a fresh buffer of client `id`. `None` when the pool gives no buffer
/// or the frame does not fit one; the pool is then as it was.
pub fn to_pdu<const MTU: usize, const N: usize, const CLIENTS: usize>(
    pool: &mut PacketPool<MTU, N, CLIENTS>,
    id: AllocId,
    frame: &[u8],
) -> (r: Option<Pdu>)
    requires
        old(pool).wf(),
        id.0 < CLIENTS,
    ensures
        final(pool).wf(),
        final(pool).qos() == old(pool).qos(),
        final(pool).usage().len() == CLIENTS,
        r is Some == (old(pool).spec_available(id) > 0 && frame@.len() <= MTU),
        r is None ==> *final(pool) == *old(pool),
        r matches Some(p) ==> {
            &&& p.payload() == frame@
            &&& p.len == frame@.len()
            &&& p.packet.client() == id
            &&& final(pool).holds(&p.packet)
            &&& final(pool).usage()[id.0 as int] == old(pool).usage()[id.0 as int] + 1
            &&& forall|c: int|
                0 <= c < CLIENTS && c != id.0 ==> #[trigger] final(pool).usage()[c] == old(
                    pool,
                ).usage()[c]
        },
{
    proof {
        pool.lemma_usage_counts_live_packets();
    }
    if frame.len() > MTU {
        return None;
    }
    match pool.allocate(id) {
        Some(mut packet) => {
            let ghost before = packet;
            packet.write(0, frame);
            assert(packet.bytes().len() == before.bytes().len());
            assert(pool.holds(&before));
            assert(pool.holds(&packet));
            assert(packet.bytes().subrange(0, frame@.len() as int) =~= frame@);
            Some(Pdu::new(packet, frame.len()))
        },
        None => None,
    }
}

/// What the attribute layer does with an inbound ATT PDU.
pub enum GattAction {
    /// Send this response.
    Respond(Pdu),
    /// Hand the request to the attribute server.
    Forward(AttRequest),
    /// The PDU does not decode: skip it.
    Skip(CodecError),
}

/// The ATT MTU that an MTU exchange with a peer asking for `request` settles on the link
/// `handle`: the smaller of `request` and `local_max`, or the default for an unknown link.
pub open spec fn agreed_mtu<const CONNS: usize>(
    conns: ConnectionManager<CONNS>,
    handle: ConnHandle,
    local_max: u16,
    request: u16,
) -> u16 {
    if conns.has_link(handle) {
        if request < local_max {
            request
        } else {
            local_max
        }
    } else {
        DEFAULT_ATT_MTU
    }
}

/// Handles an inbound ATT PDU of the link `handle`. Every request that decodes needs a
/// buffer of client `id` for its answer: `Err`, changing nothing, when the pool gives none.
/// An MTU exchange settles the link's MTU on the smaller of the request and `local_max`
/// and is answered here; other requests go to the attribute server, whose answer
/// `respond` frames.
pub fn handle_att<const MTU: usize, const N: usize, const CLIENTS: usize, const CONNS: usize>(
    pool: &mut PacketPool<MTU, N, CLIENTS>,
    id: AllocId,
    conns: &mut ConnectionManager<CONNS>,
    local_max: u16,
    handle: ConnHandle,
    pdu: &[u8],
) -> (r: Result<GattAction, ()>)
    requires
        old(pool).wf(),
        old(conns).wf(),
        id.0 < CLIENTS,
    ensures
        final(pool).wf(),
        final(conns).wf(),
        final(pool).qos() == old(pool).qos(),
        r is Err ==> *final(pool) == *old(pool) && *final(conns) == *old(conns),
        match spec_decode_att(pdu@) {
            Err(e) => r == Ok::<GattAction, ()>(GattAction::Skip(e)) && *final(pool) == *old(pool)
                && *final(conns) == *old(conns),
            Ok(AttRequest::Other { opcode }) => {
                &&& r is Ok == (old(pool).spec_available(id) > 0)
                &&& r is Ok ==> r == Ok::<GattAction, ()>(
                    GattAction::Forward(AttRequest::Other { opcode }),
                )
                &&& *final(pool) == *old(pool)
                &&& *final(conns) == *old(conns)
            },
            Ok(AttRequest::ExchangeMtu { mtu }) => {
                let agreed = agreed_mtu(*old(conns), handle, local_max, mtu);
                &&& r is Ok == (old(pool).spec_available(id) > 0 && MTU >= 7)
                &&& (r is Ok ==> r matches Ok(GattAction::Respond(_)))
                &&& (r matches Ok(GattAction::Respond(p)) ==> {
                    &&& p.payload() == l2cap_frame(L2CAP_CID_ATT, mtu_response_body(agreed))
                    &&& p.len == 7
                    &&& p.packet.client() == id
                    &&& final(pool).holds(&p.packet)
                })
                &&& (r is Ok && old(conns).has_link(handle) ==> final(conns).slots() == with_mtu(
                    old(conns).slots(),
                    handle,
                    agreed,
                ))
                &&& (r is Ok && !old(conns).has_link(handle) ==> final(conns).slots() == old(
                    conns,
                ).slots())
            },
        },
{
    match decode_att(pdu) {
        Err(e) => Ok(GattAction::Skip(e)),
        Ok(AttRequest::Other { opcode }) => {
            if pool.available(id) == 0 {
                return Err(());
            }
            Ok(GattAction::Forward(AttRequest::Other { opcode }))
        },
        Ok(AttRequest::ExchangeMtu { mtu }) => {
            if pool.available(id) == 0 || MTU < 7 {
                return Err(());
            }
            let agreed = conns.exchange_att_mtu(handle, local_max, mtu);
            let frame = mtu_response(agreed);
            match to_pdu(pool, id, frame.as_slice()) {
                Some(p) => Ok(GattAction::Respond(p)),
                None => Err(()),
            }
        },
    }
}

/// Frames the attribute server's answer `body` to the link `handle`, cut at the link's ATT
/// MTU, into a buffer of client `id`. `None`, changing nothing, when the pool gives no
/// buffer or the frame does not fit one.
pub fn respond<const MTU: usize, const N: usize, const CLIENTS: usize, const CONNS: usize>(
    pool: &mut PacketPool<MTU, N, CLIENTS>,
    id: AllocId,
    conns: &ConnectionManager<CONNS>,
    handle: ConnHandle,
    body: &[u8],
) -> (r: Option<Pdu>)
    requires
        old(pool).wf(),
        conns.wf(),
        id.0 < CLIENTS,
    ensures
        final(pool).wf(),
        final(pool).qos() == old(pool).qos(),
        ({
            let cut = truncated(body@, conns.spec_att_mtu(handle));
            &&& r is Some == (old(pool).spec_available(id) > 0 && 4 + cut.len() <= MTU)
            &&& r is None ==> *final(pool) == *old(pool)
            &&& r matches Some(p) ==> {
                &&& p.payload() == l2cap_frame(L2CAP_CID_ATT, cut)
                &&& p.len == 4 + cut.len()
                &&& p.packet.client() == id
                &&& final(pool).holds(&p.packet)
            }
        }),
{
    let mtu = conns.get_att_mtu(handle);
    let frame = framed_response(body, mtu);
    to_pdu(pool, id, frame.as_slice())
}

/// Why a notification could not be sent.
#[derive(Clone, Copy, PartialEq, Eq, Structural, Debug)]
pub enum NotifyError {
    /// The characteristic has no client configuration descriptor.
    NoCccd,
    /// The pool gave no buffer for the notification, or it does not fit one.
    NoBuffer,
}

/// Builds the notification of `value` for the characteristic `handle` to the link
/// `conn`. A characteristic without a client configuration descriptor (`cccd` is `None`)
/// is an error; a client that has not subscribed gets nothing, which is no error. The
/// value is cut at the link's ATT MTU less 3; the frame goes into a buffer of client `id`.
pub fn notify<const MTU: usize, const N: usize, const CLIENTS: usize, const CONNS: usize>(
    pool: &mut PacketPool<MTU, N, CLIENTS>,
    id: AllocId,
    conns: &ConnectionManager<CONNS>,
    conn: ConnHandle,
    handle: u16,
    cccd: Option<u16>,
    subscribed: bool,
    value: &[u8],
) -> (r: Result<Option<Pdu>, NotifyError>)
    requires
        old(pool).wf(),
        conns.wf(),
        id.0 < CLIENTS,
    ensures
        final(pool).wf(),
        final(pool).qos() == old(pool).qos(),
        cccd is None ==> r == Err::<Option<Pdu>, NotifyError>(NotifyError::NoCccd),
        cccd is Some && !subscribed ==> r == Ok::<Option<Pdu>, NotifyError>(None),
        (r is Err || r == Ok::<Option<Pdu>, NotifyError>(None)) ==> *final(pool) == *old(pool),
        cccd is Some && subscribed ==> {
            let m = conns.spec_att_mtu(conn);
            let carried = notified_len(value@.len() as int, m);
            &&& r is Ok == (old(pool).spec_available(id) > 0 && 7 + carried <= MTU)
            &&& r is Err ==> r == Err::<Option<Pdu>, NotifyError>(NotifyError::NoBuffer)
            &&& (r is Ok ==> r matches Ok(Some(_)))
            &&& (r matches Ok(Some(p)) ==> {
                &&& p.payload() == l2cap_frame(L2CAP_CID_ATT, notification_body(handle, value@, m))
                &&& p.len == 7 + carried
                &&& p.packet.client() == id
                &&& final(pool).holds(&p.packet)
            })
        },
{
    if cccd.is_none() {
        return Err(NotifyError::NoCccd);
    }
    if !subscribed {
        return Ok(None);
    }
    let mtu = conns.get_att_mtu(conn);
    let frame = notification(handle, value, mtu);
    match to_pdu(pool, id, frame.as_slice()) {
        Some(p) => Ok(Some(p)),
        None => Err(NotifyError::NoBuffer),
    }
}

} // verus!
