use vstd::prelude::*;

use crate::acl::{acl_frame, encode_acl, AclData, AclPacketBoundary, MAX_CONN_HANDLE};
use crate::codec::{le16, CodecError};
use crate::connection_manager::{ConnHandle, ConnectionInfo, ConnectionManager, ConnectionState};
use crate::gatt::to_pdu;
use crate::l2cap::{
    decode_l2cap, encode_l2cap, holds_l2cap, l2cap_frame, route, spec_route, L2capPacket, Pdu,
    Route, L2CAP_CID_LE_U_SIGNAL,
};
use crate::channel_manager::{control_effect, ChannelManager};
use crate::packet_pool::{AllocId, PacketPool, ATT_ID};
use crate::signal::{decode_signal, spec_decode_signal, L2capLeSignal};

verus! {

/// HCI reason code sent when a link is refused for want of room.
pub const REMOTE_DEVICE_TERMINATED_CONN_LOW_RESOURCES: u8 = 0x14;

/// Why an inbound ACL packet could not be handled.
#[derive(Clone, Copy, PartialEq, Eq, Structural, Debug)]
pub enum HandleError {
    Codec(CodecError),
    Other,
}

impl From<CodecError> for HandleError {
    fn from(e: CodecError) -> (r: Self)
        ensures
            r == HandleError::Codec(e),
    {
        HandleError::Codec(e)
    }
}

impl vstd::std_specs::convert::FromSpecImpl<CodecError> for HandleError {
    open spec fn obeys_from_spec() -> bool {
        true
    }

    open spec fn from_spec(e: CodecError) -> HandleError {
        HandleError::Codec(e)
    }
}

/// Where an inbound ACL packet went.
pub enum Inbound {
    /// An ATT PDU, copied into a buffer of the ATT client, for the ATT inbound queue.
    Att(ConnHandle, Pdu),
    /// A decoded signalling PDU, for the channel table.
    Signal(ConnHandle, L2capLeSignal),
    /// A frame for a dynamic channel.
    Channel(ConnHandle, L2capPacket),
    /// An ATT PDU dropped because the pool gave no buffer.
    Dropped,
}

/// Demultiplexes an inbound ACL packet by the channel of the L2CAP frame it carries.
/// A frame that does not decode, or a signalling PDU that does not, is a codec error; a
/// channel this host does not serve, or an ATT PDU too long for a buffer, is `Other`.
pub fn handle_acl<const MTU: usize, const N: usize, const CLIENTS: usize>(
    pool: &mut PacketPool<MTU, N, CLIENTS>,
    acl: &AclData,
) -> (r: Result<Inbound, HandleError>)
    requires
        old(pool).wf(),
        ATT_ID < CLIENTS,
    ensures
        final(pool).wf(),
        final(pool).qos() == old(pool).qos(),
        !holds_l2cap(acl.data@) ==> r == Err::<Inbound, HandleError>(
            HandleError::Codec(CodecError::InvalidValue),
        ),
        !(r matches Ok(Inbound::Att(_, _))) ==> *final(pool) == *old(pool),
        holds_l2cap(acl.data@) ==> {
            let d = acl.data@;
            let cid = le16(d[2], d[3]) as u16;
            let payload = d.subrange(4, 4 + le16(d[0], d[1]));
            let h = ConnHandle(acl.handle);
            match spec_route(cid) {
                Route::Att => if payload.len() > MTU {
                    r == Err::<Inbound, HandleError>(HandleError::Other)
                } else if old(pool).spec_available(AllocId(ATT_ID)) > 0 {
                    r matches Ok(Inbound::Att(g, p)) && g == h && p.payload() == payload
                        && p.len == payload.len() && p.pb == acl.boundary
                        && p.packet.client() == AllocId(ATT_ID)
                        && final(pool).holds(&p.packet)
                } else {
                    r matches Ok(Inbound::Dropped)
                },
                Route::Signal => match spec_decode_signal(payload) {
                    Err(e) => r == Err::<Inbound, HandleError>(HandleError::Codec(e)),
                    Ok(signal) => r matches Ok(Inbound::Signal(g, s)) && g == h && s == signal,
                },
                Route::Dynamic => r matches Ok(Inbound::Channel(g, p)) && g == h && p.channel == cid
                    && p.payload@ == payload,
                Route::Unsupported => r == Err::<Inbound, HandleError>(HandleError::Other),
            }
        },
{
    let packet = match decode_l2cap(acl.data.as_slice()) {
        Ok(p) => p,
        Err(e) => return Err(HandleError::from(e)),
    };
    let conn = ConnHandle(acl.handle);
    match route(packet.channel) {
        Route::Att => {
            if packet.payload.len() > MTU {
                return Err(HandleError::Other);
            }
            match to_pdu(pool, AllocId(ATT_ID), packet.payload.as_slice()) {
                Some(mut p) => {
                    p.pb = acl.boundary;
                    Ok(Inbound::Att(conn, p))
                },
                None => Ok(Inbound::Dropped),
            }
        },
        Route::Signal => match decode_signal(packet.payload.as_slice()) {
            Ok(signal) => Ok(Inbound::Signal(conn, signal)),
            Err(e) => Err(HandleError::Codec(e)),
        },
        Route::Dynamic => Ok(Inbound::Channel(conn, packet)),
        Route::Unsupported => Err(HandleError::Other),
    }
}

/// The ACL packet that carries an outbound PDU of the link `handle`, under the PDU's own
/// boundary flag.
pub fn encode_outbound(handle: ConnHandle, pdu: &Pdu) -> (r: Result<Vec<u8>, CodecError>)
    requires
        pdu.len <= pdu.packet.bytes().len(),
    ensures
        r is Ok == (handle.0 <= MAX_CONN_HANDLE && pdu.len <= 0xffff),
        r matches Ok(v) ==> v@ == acl_frame(handle.0, pdu.pb, pdu.payload()),
        r matches Err(e) ==> e == CodecError::InvalidValue,
{
    encode_acl(handle.0, pdu.pb, pdu.as_ref())
}

/// The ACL packet that carries the encoded signalling PDU `signal` of the link `handle`
/// on the LE signalling channel.
pub fn encode_signal(handle: ConnHandle, signal: &[u8]) -> (r: Result<Vec<u8>, CodecError>)
    ensures
        r is Ok == (handle.0 <= MAX_CONN_HANDLE && signal@.len() + 4 <= 0xffff),
        r matches Ok(v) ==> v@ == acl_frame(
            handle.0,
            AclPacketBoundary::FirstNonFlushable,
            l2cap_frame(L2CAP_CID_LE_U_SIGNAL, signal@),
        ),
        r matches Err(e) ==> e == CodecError::InvalidValue,
{
    if signal.len() > 0xffff - 4 {
        return Err(CodecError::InvalidValue);
    }
    let frame = encode_l2cap(L2CAP_CID_LE_U_SIGNAL, signal)?;
    encode_acl(handle.0, AclPacketBoundary::FirstNonFlushable, frame.as_slice())
}

/// A command for the controller that handling an event calls for.
#[derive(Clone, Copy, PartialEq, Eq, Structural, Debug)]
pub enum HciCommand {
    Disconnect { handle: ConnHandle, reason: u8 },
}

/// Records a link the controller reports as complete. When the table takes no more, the
/// link is to be torn down: the command for that is returned.
pub fn on_connection_complete<const CONNS: usize>(
    conns: &mut ConnectionManager<CONNS>,
    info: ConnectionInfo,
) -> (r: Option<HciCommand>)
    requires
        old(conns).wf(),
    ensures
        final(conns).wf(),
        r is None == (!old(conns).has_link(info.handle) && exists|i: int|
            0 <= i < old(conns).slots().len() && #[trigger] old(conns).slots()[i] is Disconnected),
        r is None ==> exists|i: int|
            crate::connection_manager::first_where(
                old(conns).slots(),
                i,
                |s: crate::connection_manager::ConnectionState| s is Disconnected,
            ) && final(conns).slots() == old(conns).slots().update(
                i,
                crate::connection_manager::ConnectionState::Connecting(info.handle, info),
            ),
        r is Some ==> final(conns).slots() == old(conns).slots() && r == Some(
            HciCommand::Disconnect {
                handle: info.handle,
                reason: REMOTE_DEVICE_TERMINATED_CONN_LOW_RESOURCES,
            },
        ),
{
    match conns.connect(info.handle, info) {
        Ok(()) => None,
        Err(()) => Some(
            HciCommand::Disconnect {
                handle: info.handle,
                reason: REMOTE_DEVICE_TERMINATED_CONN_LOW_RESOURCES,
            },
        ),
    }
}

/// Hands a decoded signalling PDU of link `conn` to the channel table and returns the
/// PDUs to send back.
pub fn handle_signal<const CHANNELS: usize>(
    channels: &mut ChannelManager<CHANNELS>,
    conn: ConnHandle,
    signal: L2capLeSignal,
) -> (r: Vec<L2capLeSignal>)
    requires
        old(channels).wf(),
    ensures
        final(channels).wf(),
        final(channels).config() == old(channels).config(),
        control_effect(
            old(channels).slots(),
            old(channels).config(),
            final(channels).slots(),
            conn,
            signal,
            r@,
        ),
{
    channels.control(conn, signal)
}

/// Forgets a link that is gone, by the controller's report or at the host's own request:
/// its slot in the connection table and every channel it had are freed.
pub fn on_link_lost<const CONNS: usize, const CHANNELS: usize>(
    conns: &mut ConnectionManager<CONNS>,
    channels: &mut ChannelManager<CHANNELS>,
    handle: ConnHandle,
)
    requires
        old(conns).wf(),
        old(channels).wf(),
    ensures
        final(conns).wf(),
        final(channels).wf(),
        final(channels).config() == old(channels).config(),
        final(conns).slots().len() == old(conns).slots().len(),
        forall|i: int|
            0 <= i < old(conns).slots().len() ==> #[trigger] final(conns).slots()[i] == if old(
                conns,
            ).slots()[i].holds(handle) {
                ConnectionState::Disconnected
            } else {
                old(conns).slots()[i]
            },
        final(channels).slots().len() == old(channels).slots().len(),
        forall|j: int|
            0 <= j < old(channels).slots().len() ==> #[trigger] final(channels).slots()[j] == if old(
                channels,
            ).slots()[j].conn == handle && old(channels).slots()[j].phase
                != crate::channel_manager::ChannelPhase::Disconnected {
                crate::channel_manager::free_slot()
            } else {
                old(channels).slots()[j]
            },
{
    let _ = conns.disconnect(handle);
    channels.disconnect_all(handle);
}

} // verus!
