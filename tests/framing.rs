use trouble_host::acl::{decode_acl, encode_acl, AclPacketBoundary};
use trouble_host::adapter::{encode_outbound, encode_signal, handle_acl, HandleError, Inbound};
use trouble_host::codec::CodecError;
use trouble_host::l2cap::{
    decode_l2cap, encode_l2cap, fragment, reassemble, route, Reassembly, Route,
};
use trouble_host::packet_pool::{AllocId, PacketPool, Qos};
use trouble_host::signal::L2capLeSignal;

#[test]
fn acl_header_carries_handle_flags_and_length() {
    let v = encode_acl(0x0040, AclPacketBoundary::FirstNonFlushable, &[1, 2, 3]).unwrap();
    assert_eq!(v, vec![0x40, 0x00, 0x03, 0x00, 1, 2, 3]);
    let v = encode_acl(0x0123, AclPacketBoundary::Continuing, &[9]).unwrap();
    assert_eq!(v, vec![0x23, 0x11, 0x01, 0x00, 9]);
    assert_eq!(
        encode_acl(0x0f00, AclPacketBoundary::Continuing, &[9]),
        Err(CodecError::InvalidValue)
    );
}

#[test]
fn acl_decode_reads_header() {
    let a = decode_acl(&[0x23, 0x21, 0x02, 0x00, 7, 8, 99]).unwrap();
    assert_eq!(a.handle, 0x123);
    assert_eq!(a.boundary, AclPacketBoundary::FirstFlushable);
    assert_eq!(a.broadcast, 0);
    assert_eq!(a.data, vec![7, 8]);
    assert!(decode_acl(&[0x23, 0x01, 0x05, 0x00, 7]).is_err());
    assert!(decode_acl(&[0x23, 0x01]).is_err());
}

#[test]
fn acl_round_trip() {
    let v = encode_acl(0x0eff, AclPacketBoundary::Complete, &[4, 5, 6, 7]).unwrap();
    let a = decode_acl(&v).unwrap();
    assert_eq!(a.handle, 0x0eff);
    assert_eq!(a.boundary, AclPacketBoundary::Complete);
    assert_eq!(a.data, vec![4, 5, 6, 7]);
}

#[test]
fn l2cap_frame_round_trip() {
    let v = encode_l2cap(0x0041, &[0xaa, 0xbb]).unwrap();
    assert_eq!(v, vec![0x02, 0x00, 0x41, 0x00, 0xaa, 0xbb]);
    let p = decode_l2cap(&v).unwrap();
    assert_eq!(p.channel, 0x41);
    assert_eq!(p.payload, vec![0xaa, 0xbb]);
    assert!(decode_l2cap(&[0x05, 0x00, 0x04, 0x00, 1]).is_err());
}

#[test]
fn routes_by_channel() {
    assert_eq!(route(0x0004), Route::Att);
    assert_eq!(route(0x0005), Route::Signal);
    assert_eq!(route(0x0040), Route::Dynamic);
    assert_eq!(route(0x1234), Route::Dynamic);
    assert_eq!(route(0x0006), Route::Unsupported);
}

#[test]
fn fragmentation_splits_and_reassembles() {
    let pdu: Vec<u8> = (0u8..10).collect();
    let frags = fragment(&pdu, 4);
    assert_eq!(frags.len(), 3);
    assert_eq!(frags[0].boundary, AclPacketBoundary::FirstNonFlushable);
    assert_eq!(frags[1].boundary, AclPacketBoundary::Continuing);
    assert_eq!(frags[2].boundary, AclPacketBoundary::Continuing);
    assert_eq!(frags[0].data, vec![0, 1, 2, 3]);
    assert_eq!(frags[2].data, vec![8, 9]);
    assert_eq!(reassemble(&frags), pdu);
}

#[test]
fn fragmentation_edge_sizes() {
    let exact: Vec<u8> = (0u8..8).collect();
    let frags = fragment(&exact, 4);
    assert_eq!(frags.len(), 2);
    assert_eq!(reassemble(&frags), exact);
    let small = vec![1u8, 2];
    let frags = fragment(&small, 27);
    assert_eq!(frags.len(), 1);
    assert_eq!(frags[0].boundary, AclPacketBoundary::FirstNonFlushable);
    let frags = fragment(&[], 27);
    assert_eq!(frags.len(), 1);
    assert!(frags[0].data.is_empty());
}

#[test]
fn reassembly_restarts_on_first_fragment() {
    let mut r = Reassembly::new();
    r.push(AclPacketBoundary::FirstNonFlushable, &[0x03, 0x00, 0x04]);
    assert!(!r.is_complete());
    r.push(AclPacketBoundary::Continuing, &[0x00, 1, 2, 3]);
    assert!(r.is_complete());
    assert_eq!(r.as_slice(), &[0x03, 0x00, 0x04, 0x00, 1, 2, 3][..]);
    r.push(AclPacketBoundary::FirstNonFlushable, &[9]);
    assert_eq!(r.as_slice(), &[9][..]);
}

fn acl(handle: u16, data: &[u8]) -> trouble_host::acl::AclData {
    decode_acl(&encode_acl(handle, AclPacketBoundary::FirstNonFlushable, data).unwrap()).unwrap()
}

#[test]
fn inbound_att_goes_to_att_queue() {
    let mut pool: PacketPool<16, 2, 4> = PacketPool::new(Qos::Unrestricted);
    let a = acl(3, &[0x03, 0x00, 0x04, 0x00, 0x02, 0x64, 0x00]);
    match handle_acl(&mut pool, &a) {
        Ok(Inbound::Att(h, pdu)) => {
            assert_eq!(h.0, 3);
            assert_eq!(pdu.len, 3);
            assert_eq!(pdu.as_ref(), &[0x02, 0x64, 0x00][..]);
            assert_eq!(pdu.pb, AclPacketBoundary::FirstNonFlushable);
            assert_eq!(pool.available(AllocId(0)), 1);
        }
        _ => panic!("expected an ATT PDU"),
    }
}

#[test]
fn inbound_att_dropped_when_pool_empty() {
    let mut pool: PacketPool<16, 1, 4> = PacketPool::new(Qos::Unrestricted);
    let _held = pool.allocate(AllocId(2)).unwrap();
    let a = acl(3, &[0x01, 0x00, 0x04, 0x00, 0x0a]);
    assert!(matches!(handle_acl(&mut pool, &a), Ok(Inbound::Dropped)));
}

#[test]
fn inbound_signal_and_dynamic_and_errors() {
    let mut pool: PacketPool<16, 2, 4> = PacketPool::new(Qos::Unrestricted);
    match handle_acl(&mut pool, &acl(1, &[0x06, 0x00, 0x05, 0x00, 0x01, 0x02, 0x02, 0x00, 0x00, 0x00])) {
        Ok(Inbound::Signal(h, s)) => {
            assert_eq!(h.0, 1);
            assert_eq!(s, L2capLeSignal::CommandReject { id: 2, reason: 0 });
        }
        _ => panic!("expected a signal"),
    }
    assert!(matches!(
        handle_acl(&mut pool, &acl(1, &[0x02, 0x00, 0x05, 0x00, 0x14, 0x01])),
        Err(HandleError::Codec(CodecError::InvalidValue))
    ));
    match handle_acl(&mut pool, &acl(1, &[0x01, 0x00, 0x41, 0x00, 0x77])) {
        Ok(Inbound::Channel(_, p)) => {
            assert_eq!(p.channel, 0x41);
            assert_eq!(p.payload, vec![0x77]);
        }
        _ => panic!("expected a channel frame"),
    }
    assert!(matches!(
        handle_acl(&mut pool, &acl(1, &[0x01, 0x00, 0x06, 0x00, 0x77])),
        Err(HandleError::Other)
    ));
    assert!(matches!(
        handle_acl(&mut pool, &acl(1, &[0x09, 0x00, 0x04, 0x00, 0x77])),
        Err(HandleError::Codec(CodecError::InvalidValue))
    ));
    assert_eq!(pool.available(AllocId(0)), 2);
}

#[test]
fn outbound_signal_is_framed_on_signalling_channel() {
    let v = encode_signal(trouble_host::connection_manager::ConnHandle(2), &[0x14, 0x01]).unwrap();
    assert_eq!(v, vec![0x02, 0x00, 0x06, 0x00, 0x02, 0x00, 0x05, 0x00, 0x14, 0x01]);
}

#[test]
fn outbound_pdu_keeps_its_boundary_flag() {
    let mut pool: PacketPool<8, 2, 4> = PacketPool::new(Qos::Unrestricted);
    let mut p = pool.allocate(AllocId(0)).unwrap();
    p.write(0, &[5, 6, 7]);
    let mut pdu = trouble_host::l2cap::Pdu::new(p, 2);
    pdu.pb = AclPacketBoundary::Continuing;
    let v = encode_outbound(trouble_host::connection_manager::ConnHandle(1), &pdu).unwrap();
    assert_eq!(v, vec![0x01, 0x10, 0x02, 0x00, 5, 6]);
}

#[test]
fn handle_error_from_codec() {
    assert_eq!(HandleError::from(CodecError::InvalidValue), HandleError::Codec(CodecError::InvalidValue));
}
