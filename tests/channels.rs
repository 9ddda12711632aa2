use trouble_host::channel_manager::{
    ChannelConfig, ChannelError, ChannelManager, ChannelPhase, Received, REJECT_INVALID_CID,
    REJECT_NOT_UNDERSTOOD, RESULT_NO_RESOURCES, RESULT_SPSM_NOT_SUPPORTED, RESULT_SUCCESS,
};
use trouble_host::adapter::{handle_signal, on_link_lost};
use trouble_host::codec::CodecError;
use trouble_host::connection_manager::{ConnectionInfo, ConnectionManager, LeConnRole};
use trouble_host::connection_manager::ConnHandle;
use trouble_host::packet_pool::{AllocId, PacketPool, Qos};
use trouble_host::signal::{decode_signal, L2capLeSignal};

const CONFIG: ChannelConfig = ChannelConfig { mtu: 128, mps: 64, initial_credits: 5, low_water: 2 };

fn request(id: u8, spsm: u16, scid: u16) -> L2capLeSignal {
    L2capLeSignal::LeCreditConnReq { id, spsm, scid, mtu: 100, mps: 23, credits: 5 }
}

#[test]
fn signal_wire_format_round_trip() {
    let s = request(1, 0x0081, 0x0041);
    let b = s.encode();
    assert_eq!(
        b,
        vec![0x14, 0x01, 0x0a, 0x00, 0x81, 0x00, 0x41, 0x00, 0x64, 0x00, 0x17, 0x00, 0x05, 0x00]
    );
    assert_eq!(decode_signal(&b), Ok(s));
    let ind = L2capLeSignal::LeCreditFlowInd { id: 3, cid: 0x40, credits: 4 };
    assert_eq!(ind.encode(), vec![0x16, 0x03, 0x04, 0x00, 0x40, 0x00, 0x04, 0x00]);
    assert_eq!(decode_signal(&ind.encode()), Ok(ind));
}

#[test]
fn signal_decode_errors_and_unknown_codes() {
    assert_eq!(decode_signal(&[0x14, 0x01, 0x02, 0x00, 0x81, 0x00]), Err(CodecError::InvalidValue));
    assert_eq!(decode_signal(&[0x06, 0x01, 0x04]), Err(CodecError::InvalidValue));
    assert_eq!(decode_signal(&[0x06, 0x01, 0x04, 0x00, 0x40]), Err(CodecError::InvalidValue));
    assert_eq!(decode_signal(&[0x0b, 0x09, 0x00, 0x00]), Ok(L2capLeSignal::Unknown { id: 9, code: 0x0b }));
}

#[test]
fn signalling_round_trip_opens_channel() {
    let mut m: ChannelManager<2> = ChannelManager::new(CONFIG);
    let out = m.control(ConnHandle(1), request(7, 0x0081, 0x0041));
    assert_eq!(
        out,
        vec![L2capLeSignal::LeCreditConnRes {
            id: 7,
            dcid: 0x40,
            mtu: 128,
            mps: 64,
            credits: 5,
            result: RESULT_SUCCESS,
        }]
    );
    let c = m.channel(0).unwrap();
    assert_eq!(c.phase, ChannelPhase::Connected);
    assert_eq!(c.peer_cid, 0x41);
    assert_eq!(c.peer_mtu, 100);
    assert_eq!(c.peer_mps, 23);
    assert_eq!(c.peer_credits, 5);
    assert_eq!(c.local_credits, 5);
}

#[test]
fn connection_request_refusals() {
    let mut m: ChannelManager<1> = ChannelManager::new(CONFIG);
    let out = m.control(ConnHandle(1), request(1, 0x0100, 0x0041));
    assert!(matches!(
        out[0],
        L2capLeSignal::LeCreditConnRes { id: 1, result: RESULT_SPSM_NOT_SUPPORTED, .. }
    ));
    m.control(ConnHandle(1), request(2, 0x0081, 0x0041));
    let out = m.control(ConnHandle(1), request(3, 0x0081, 0x0042));
    assert!(matches!(out[0], L2capLeSignal::LeCreditConnRes { id: 3, dcid: 0, result: RESULT_NO_RESOURCES, .. }));
}

#[test]
fn credit_accounting_restores_at_low_water() {
    let mut m: ChannelManager<2> = ChannelManager::new(CONFIG);
    let mut pool: PacketPool<32, 8, 4> = PacketPool::new(Qos::Unrestricted);
    m.control(ConnHandle(1), request(1, 0x0081, 0x0041));
    let mut held = Vec::new();
    for n in 1..=3u16 {
        match m.receive(ConnHandle(1), 0x40, &[n as u8], &mut pool) {
            Ok(Received::Delivered { slot, pdu, credits }) => {
                assert_eq!(slot, 0);
                assert_eq!(pdu.as_ref(), &[n as u8][..]);
                assert!(credits.is_none());
                held.push(pdu);
            }
            _ => panic!("expected a delivered frame"),
        }
        assert_eq!(m.channel(0).unwrap().local_credits, 5 - n);
    }
    match m.receive(ConnHandle(1), 0x40, &[4], &mut pool) {
        Ok(Received::Delivered { credits: Some(L2capLeSignal::LeCreditFlowInd { cid, credits, .. }), .. }) => {
            assert_eq!(cid, 0x40);
            assert_eq!(credits, 4);
        }
        _ => panic!("expected credits back"),
    }
    assert_eq!(m.channel(0).unwrap().local_credits, 5);
    assert_eq!(pool.available(AllocId(2)), 4);
}

#[test]
fn dropped_frame_keeps_its_credit() {
    let mut m: ChannelManager<1> = ChannelManager::new(CONFIG);
    let mut pool: PacketPool<32, 1, 4> = PacketPool::new(Qos::Unrestricted);
    let _held = pool.allocate(AllocId(0)).unwrap();
    m.control(ConnHandle(1), request(1, 0x0081, 0x0041));
    assert!(matches!(m.receive(ConnHandle(1), 0x40, &[1], &mut pool), Ok(Received::Dropped { slot: 0 })));
    let c = m.channel(0).unwrap();
    assert_eq!(c.local_credits, 4);
    assert_eq!(c.pending, 0);
}

#[test]
fn frames_need_an_open_channel_and_credits() {
    let config = ChannelConfig { mtu: 64, mps: 64, initial_credits: 1, low_water: 0 };
    let mut m: ChannelManager<1> = ChannelManager::new(config);
    let mut pool: PacketPool<32, 4, 4> = PacketPool::new(Qos::Unrestricted);
    assert!(matches!(m.receive(ConnHandle(1), 0x40, &[1], &mut pool), Err(ChannelError::UnknownChannel)));
    m.control(ConnHandle(1), request(1, 0x0081, 0x0041));
    assert!(matches!(m.receive(ConnHandle(2), 0x40, &[1], &mut pool), Err(ChannelError::UnknownChannel)));
    assert!(matches!(m.receive(ConnHandle(1), 0x41, &[1], &mut pool), Err(ChannelError::UnknownChannel)));
    assert!(matches!(m.receive(ConnHandle(1), 0x40, &[1], &mut pool), Ok(Received::Delivered { credits: None, .. })));
    assert!(matches!(m.receive(ConnHandle(1), 0x40, &[2], &mut pool), Err(ChannelError::NoCredits)));
}

#[test]
fn credit_overflow_rejects_and_disconnects() {
    let mut m: ChannelManager<1> = ChannelManager::new(CONFIG);
    m.control(ConnHandle(1), request(1, 0x0081, 0x0041));
    let out = m.control(ConnHandle(1), L2capLeSignal::LeCreditFlowInd { id: 4, cid: 0x41, credits: 10 });
    assert!(out.is_empty());
    assert_eq!(m.channel(0).unwrap().peer_credits, 15);
    let out = m.control(ConnHandle(1), L2capLeSignal::LeCreditFlowInd { id: 5, cid: 0x41, credits: 0xfff5 });
    assert_eq!(out.len(), 2);
    assert_eq!(out[0], L2capLeSignal::CommandReject { id: 5, reason: REJECT_NOT_UNDERSTOOD });
    assert!(matches!(out[1], L2capLeSignal::DisconnectionReq { dcid: 0x41, scid: 0x40, .. }));
    assert_eq!(m.channel(0).unwrap().phase, ChannelPhase::Disconnecting);
    let out = m.control(ConnHandle(1), L2capLeSignal::DisconnectionRes { id: 6, dcid: 0x41, scid: 0x40 });
    assert!(out.is_empty());
    assert_eq!(m.channel(0).unwrap().phase, ChannelPhase::Disconnected);
}

#[test]
fn peer_disconnection_request() {
    let mut m: ChannelManager<2> = ChannelManager::new(CONFIG);
    m.control(ConnHandle(1), request(1, 0x0081, 0x0041));
    let out = m.control(ConnHandle(1), L2capLeSignal::DisconnectionReq { id: 2, dcid: 0x41, scid: 0x41 });
    assert_eq!(out, vec![L2capLeSignal::CommandReject { id: 2, reason: REJECT_INVALID_CID }]);
    let out = m.control(ConnHandle(1), L2capLeSignal::DisconnectionReq { id: 3, dcid: 0x40, scid: 0x41 });
    assert_eq!(out, vec![L2capLeSignal::DisconnectionRes { id: 3, dcid: 0x40, scid: 0x41 }]);
    assert_eq!(m.channel(0).unwrap().phase, ChannelPhase::Disconnected);
}

#[test]
fn outbound_channel_lifecycle() {
    let mut m: ChannelManager<2> = ChannelManager::new(CONFIG);
    let (slot, req) = m.connect(ConnHandle(3), 0x0080).unwrap();
    assert_eq!(slot, 0);
    let id = match req {
        L2capLeSignal::LeCreditConnReq { id, spsm, scid, mtu, mps, credits } => {
            assert_eq!((spsm, scid, mtu, mps, credits), (0x0080, 0x40, 128, 64, 5));
            id
        }
        _ => panic!("expected a connection request"),
    };
    assert_eq!(m.channel(0).unwrap().phase, ChannelPhase::Connecting);
    let out = m.control(
        ConnHandle(3),
        L2capLeSignal::LeCreditConnRes { id, dcid: 0x55, mtu: 80, mps: 40, credits: 9, result: RESULT_SUCCESS },
    );
    assert!(out.is_empty());
    let c = m.channel(0).unwrap();
    assert_eq!((c.phase, c.peer_cid, c.peer_mtu, c.peer_credits), (ChannelPhase::Connected, 0x55, 80, 9));
    let req = m.disconnect(0).unwrap();
    assert!(matches!(req, L2capLeSignal::DisconnectionReq { dcid: 0x55, scid: 0x40, .. }));
    assert!(m.disconnect(1).is_none());

    let (slot, req) = m.connect(ConnHandle(3), 0x0080).unwrap();
    assert_eq!(slot, 1);
    if let L2capLeSignal::LeCreditConnReq { id, .. } = req {
        m.control(
            ConnHandle(3),
            L2capLeSignal::LeCreditConnRes { id, dcid: 0, mtu: 0, mps: 0, credits: 0, result: RESULT_NO_RESOURCES },
        );
    }
    assert_eq!(m.channel(1).unwrap().phase, ChannelPhase::Disconnected);
}

#[test]
fn link_loss_frees_its_channels() {
    let mut m: ChannelManager<3> = ChannelManager::new(CONFIG);
    m.control(ConnHandle(1), request(1, 0x0081, 0x0041));
    m.control(ConnHandle(2), request(1, 0x0081, 0x0041));
    m.control(ConnHandle(1), request(2, 0x0081, 0x0042));
    m.disconnect_all(ConnHandle(1));
    assert_eq!(m.channel(0).unwrap().phase, ChannelPhase::Disconnected);
    assert_eq!(m.channel(1).unwrap().phase, ChannelPhase::Connected);
    assert_eq!(m.channel(2).unwrap().phase, ChannelPhase::Disconnected);
    assert!(m.channel(3).is_none());
}

#[test]
fn unknown_and_reject_signals() {
    let mut m: ChannelManager<1> = ChannelManager::new(CONFIG);
    let out = m.control(ConnHandle(1), L2capLeSignal::Unknown { id: 8, code: 0x0b });
    assert_eq!(out, vec![L2capLeSignal::CommandReject { id: 8, reason: REJECT_NOT_UNDERSTOOD }]);
    let out = m.control(ConnHandle(1), L2capLeSignal::CommandReject { id: 9, reason: 0 });
    assert!(out.is_empty());
}

#[test]
fn decoded_signal_goes_to_channel_table() {
    let mut m: ChannelManager<1> = ChannelManager::new(CONFIG);
    let replies = handle_signal(&mut m, ConnHandle(1), request(4, 0x0081, 0x0041));
    assert!(matches!(replies[0], L2capLeSignal::LeCreditConnRes { id: 4, dcid: 0x40, result: RESULT_SUCCESS, .. }));
    assert_eq!(m.channel(0).unwrap().phase, ChannelPhase::Connected);
}

#[test]
fn lost_link_frees_slot_and_channels() {
    let mut conns: ConnectionManager<2> = ConnectionManager::new();
    let info = ConnectionInfo {
        handle: ConnHandle(1),
        status: 0,
        role: LeConnRole::Central,
        peer_address: [0; 6],
        interval: 6,
        latency: 0,
        timeout: 10,
        att_mtu: 23,
    };
    conns.connect(ConnHandle(1), info).unwrap();
    conns.poll_accept().unwrap();
    let mut m: ChannelManager<2> = ChannelManager::new(CONFIG);
    m.control(ConnHandle(1), request(1, 0x0081, 0x0041));
    on_link_lost(&mut conns, &mut m, ConnHandle(1));
    assert_eq!(m.channel(0).unwrap().phase, ChannelPhase::Disconnected);
    assert_eq!(conns.connect(ConnHandle(1), info), Ok(()));
}
