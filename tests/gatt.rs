use trouble_host::codec::CodecError;
use trouble_host::connection_manager::{ConnHandle, ConnectionInfo, ConnectionManager, LeConnRole};
use trouble_host::gatt::{
    decode_att, framed_response, handle_att, mtu_response, notification, notify, respond, AttRequest,
    GattAction, NotifyError,
};
use trouble_host::packet_pool::{AllocId, PacketPool, Qos, ATT_ID};

fn linked(handle: u16) -> ConnectionManager<2> {
    let mut m: ConnectionManager<2> = ConnectionManager::new();
    let info = ConnectionInfo {
        handle: ConnHandle(handle),
        status: 0,
        role: LeConnRole::Peripheral,
        peer_address: [0; 6],
        interval: 24,
        latency: 0,
        timeout: 100,
        att_mtu: 23,
    };
    m.connect(ConnHandle(handle), info).unwrap();
    m.poll_accept().unwrap();
    m
}

#[test]
fn decode_att_requests() {
    assert_eq!(decode_att(&[0x02, 0x64, 0x00]), Ok(AttRequest::ExchangeMtu { mtu: 100 }));
    assert_eq!(decode_att(&[0x0a, 0x03, 0x00]), Ok(AttRequest::Other { opcode: 0x0a }));
    assert_eq!(decode_att(&[0x02, 0x64]), Err(CodecError::InvalidValue));
    assert_eq!(decode_att(&[]), Err(CodecError::InvalidValue));
}

#[test]
fn mtu_response_frame() {
    assert_eq!(mtu_response(100), vec![0x03, 0x00, 0x04, 0x00, 0x03, 0x64, 0x00]);
}

#[test]
fn exchange_mtu_answers_with_smaller_and_truncates_notifications() {
    let mut pool: PacketPool<64, 4, 2> = PacketPool::new(Qos::Unrestricted);
    let mut conns = linked(1);
    match handle_att(&mut pool, AllocId(ATT_ID), &mut conns, 10, ConnHandle(1), &[0x02, 0x64, 0x00]) {
        Ok(GattAction::Respond(p)) => {
            assert_eq!(p.as_ref(), &[0x03, 0x00, 0x04, 0x00, 0x03, 0x0a, 0x00][..]);
        }
        _ => panic!("expected a response"),
    }
    assert_eq!(conns.get_att_mtu(ConnHandle(1)), 10);
    let value: Vec<u8> = (1u8..=12).collect();
    match notify(&mut pool, AllocId(ATT_ID), &conns, ConnHandle(1), 0x0010, Some(0x0011), true, &value) {
        Ok(Some(p)) => {
            assert_eq!(
                p.as_ref(),
                &[0x0a, 0x00, 0x04, 0x00, 0x1b, 0x10, 0x00, 1, 2, 3, 4, 5, 6, 7][..]
            );
        }
        _ => panic!("expected a notification"),
    }
}

#[test]
fn exchange_mtu_with_local_max_above_request() {
    let mut pool: PacketPool<64, 4, 2> = PacketPool::new(Qos::Unrestricted);
    let mut conns = linked(1);
    assert!(matches!(
        handle_att(&mut pool, AllocId(ATT_ID), &mut conns, 247, ConnHandle(1), &[0x02, 0x64, 0x00]),
        Ok(GattAction::Respond(_))
    ));
    assert_eq!(conns.get_att_mtu(ConnHandle(1)), 100);
}

#[test]
fn other_requests_are_forwarded_and_bad_ones_skipped() {
    let mut pool: PacketPool<64, 4, 2> = PacketPool::new(Qos::Unrestricted);
    let mut conns = linked(1);
    assert!(matches!(
        handle_att(&mut pool, AllocId(0), &mut conns, 247, ConnHandle(1), &[0x0a, 0x03, 0x00]),
        Ok(GattAction::Forward(AttRequest::Other { opcode: 0x0a }))
    ));
    assert!(matches!(
        handle_att(&mut pool, AllocId(0), &mut conns, 247, ConnHandle(1), &[0x02]),
        Ok(GattAction::Skip(CodecError::InvalidValue))
    ));
    assert_eq!(pool.available(AllocId(0)), 4);
}

#[test]
fn exchange_mtu_without_buffer_fails() {
    let mut pool: PacketPool<64, 1, 2> = PacketPool::new(Qos::Unrestricted);
    let _held = pool.allocate(AllocId(1)).unwrap();
    let mut conns = linked(1);
    assert!(handle_att(&mut pool, AllocId(0), &mut conns, 247, ConnHandle(1), &[0x02, 0x64, 0x00]).is_err());
    assert_eq!(conns.get_att_mtu(ConnHandle(1)), 23);
}

#[test]
fn notify_rules() {
    let mut pool: PacketPool<64, 4, 2> = PacketPool::new(Qos::Unrestricted);
    let conns = linked(1);
    assert!(matches!(
        notify(&mut pool, AllocId(0), &conns, ConnHandle(1), 0x10, None, true, &[1]),
        Err(NotifyError::NoCccd)
    ));
    assert!(matches!(
        notify(&mut pool, AllocId(0), &conns, ConnHandle(1), 0x10, Some(0x11), false, &[1]),
        Ok(None)
    ));
    assert_eq!(pool.available(AllocId(0)), 4);
}

#[test]
fn notification_and_response_frames() {
    assert_eq!(notification(0x0203, &[9, 8], 23), vec![0x05, 0x00, 0x04, 0x00, 0x1b, 0x03, 0x02, 9, 8]);
    assert_eq!(notification(0x0001, &[9, 8], 4), vec![0x04, 0x00, 0x04, 0x00, 0x1b, 0x01, 0x00, 9]);
    assert_eq!(framed_response(&[1, 2, 3, 4], 2), vec![0x02, 0x00, 0x04, 0x00, 1, 2]);
    assert_eq!(framed_response(&[1, 2], 23), vec![0x02, 0x00, 0x04, 0x00, 1, 2]);
}

#[test]
fn other_request_without_buffer_fails() {
    let mut pool: PacketPool<64, 1, 2> = PacketPool::new(Qos::Unrestricted);
    let _held = pool.allocate(AllocId(1)).unwrap();
    let mut conns = linked(1);
    assert!(handle_att(&mut pool, AllocId(0), &mut conns, 247, ConnHandle(1), &[0x0a, 0x03, 0x00]).is_err());
}

#[test]
fn exchange_mtu_response_is_seven_bytes() {
    let mut pool: PacketPool<64, 4, 2> = PacketPool::new(Qos::Unrestricted);
    let mut conns = linked(1);
    match handle_att(&mut pool, AllocId(0), &mut conns, 247, ConnHandle(1), &[0x02, 0x40, 0x00]) {
        Ok(GattAction::Respond(p)) => {
            assert_eq!(p.len, 7);
            assert_eq!(p.as_ref(), &[0x03, 0x00, 0x04, 0x00, 0x03, 0x40, 0x00][..]);
        }
        _ => panic!("expected a response"),
    }
    assert_eq!(conns.get_att_mtu(ConnHandle(1)), 0x40);
    assert_eq!(pool.available(AllocId(0)), 3);
}

#[test]
fn respond_cuts_answer_at_link_mtu() {
    let mut pool: PacketPool<64, 4, 2> = PacketPool::new(Qos::Unrestricted);
    let conns = linked(1);
    let body: Vec<u8> = (0u8..30).collect();
    let p = respond(&mut pool, AllocId(0), &conns, ConnHandle(1), &body).unwrap();
    assert_eq!(p.len, 4 + 23);
    assert_eq!(&p.as_ref()[..4], &[23, 0x00, 0x04, 0x00][..]);
    assert_eq!(&p.as_ref()[4..], &body[..23]);
    let mut small: PacketPool<16, 4, 2> = PacketPool::new(Qos::Unrestricted);
    assert!(respond(&mut small, AllocId(0), &conns, ConnHandle(1), &body).is_none());
    assert_eq!(small.available(AllocId(0)), 4);
}

#[test]
fn subscribed_notification_with_free_buffer_succeeds() {
    let mut pool: PacketPool<64, 1, 2> = PacketPool::new(Qos::Unrestricted);
    let conns = linked(1);
    match notify(&mut pool, AllocId(0), &conns, ConnHandle(1), 0x0010, Some(0x0011), true, &[1, 2, 3]) {
        Ok(Some(p)) => {
            assert_eq!(p.len, 10);
            assert_eq!(p.as_ref(), &[0x06, 0x00, 0x04, 0x00, 0x1b, 0x10, 0x00, 1, 2, 3][..]);
        }
        _ => panic!("expected a notification"),
    }
    assert!(matches!(
        notify(&mut pool, AllocId(0), &conns, ConnHandle(1), 0x0010, Some(0x0011), true, &[1]),
        Err(NotifyError::NoBuffer)
    ));
}
