use trouble_host::adapter::{on_connection_complete, HciCommand, REMOTE_DEVICE_TERMINATED_CONN_LOW_RESOURCES};
use trouble_host::connection_manager::{
    ConnHandle, ConnectionInfo, ConnectionManager, ConnectionState, LeConnRole, DEFAULT_ATT_MTU,
};

fn info(handle: u16) -> ConnectionInfo {
    ConnectionInfo {
        handle: ConnHandle(handle),
        status: 0,
        role: LeConnRole::Peripheral,
        peer_address: [1, 2, 3, 4, 5, 6],
        interval: 40,
        latency: 0,
        timeout: 400,
        att_mtu: DEFAULT_ATT_MTU,
    }
}

#[test]
fn connect_then_accept_yields_handle() {
    let mut m: ConnectionManager<2> = ConnectionManager::new();
    assert_eq!(m.connect(ConnHandle(1), info(1)), Ok(()));
    assert_eq!(m.poll_accept(), Some(ConnHandle(1)));
    // Accepted: nothing more is pending.
    assert_eq!(m.poll_accept(), None);
    assert_eq!(m.get_att_mtu(ConnHandle(1)), 23);
}

#[test]
fn disconnect_frees_slot_and_accept_waits() {
    let mut m: ConnectionManager<2> = ConnectionManager::new();
    m.connect(ConnHandle(1), info(1)).unwrap();
    assert_eq!(m.poll_accept(), Some(ConnHandle(1)));
    assert_eq!(m.disconnect(ConnHandle(1)), Ok(()));
    assert_eq!(m.poll_accept(), None);
    // Disconnecting again changes nothing.
    assert_eq!(m.disconnect(ConnHandle(1)), Ok(()));
    // The slot is free again.
    assert_eq!(m.connect(ConnHandle(2), info(2)), Ok(()));
    assert_eq!(m.connect(ConnHandle(3), info(3)), Ok(()));
}

#[test]
fn second_connect_fails_until_disconnect() {
    let mut m: ConnectionManager<1> = ConnectionManager::new();
    assert_eq!(m.connect(ConnHandle(1), info(1)), Ok(()));
    assert_eq!(m.connect(ConnHandle(2), info(2)), Err(()));
    m.disconnect(ConnHandle(1)).unwrap();
    assert_eq!(m.connect(ConnHandle(2), info(2)), Ok(()));
    assert_eq!(m.poll_accept(), Some(ConnHandle(2)));
}

#[test]
fn pending_connection_can_be_dropped_before_accept() {
    let mut m: ConnectionManager<2> = ConnectionManager::new();
    m.connect(ConnHandle(7), info(7)).unwrap();
    m.disconnect(ConnHandle(7)).unwrap();
    assert_eq!(m.poll_accept(), None);
}

#[test]
fn accept_takes_lowest_pending_slot() {
    let mut m: ConnectionManager<3> = ConnectionManager::new();
    m.connect(ConnHandle(5), info(5)).unwrap();
    m.connect(ConnHandle(6), info(6)).unwrap();
    assert_eq!(m.poll_accept(), Some(ConnHandle(5)));
    assert_eq!(m.poll_accept(), Some(ConnHandle(6)));
    assert_eq!(m.poll_accept(), None);
}

#[test]
fn same_handle_is_not_recorded_twice() {
    let mut m: ConnectionManager<2> = ConnectionManager::new();
    m.connect(ConnHandle(1), info(1)).unwrap();
    assert_eq!(m.connect(ConnHandle(1), info(1)), Err(()));
}

#[test]
fn att_mtu_exchange_takes_smaller() {
    let mut m: ConnectionManager<2> = ConnectionManager::new();
    m.connect(ConnHandle(1), info(1)).unwrap();
    assert_eq!(m.exchange_att_mtu(ConnHandle(1), 64, 100), 64);
    assert_eq!(m.get_att_mtu(ConnHandle(1)), 64);
    assert_eq!(m.exchange_att_mtu(ConnHandle(1), 247, 100), 100);
    assert_eq!(m.get_att_mtu(ConnHandle(1)), 100);
    // Unknown links keep the default.
    assert_eq!(m.exchange_att_mtu(ConnHandle(9), 247, 100), 23);
    assert_eq!(m.get_att_mtu(ConnHandle(9)), 23);
}

#[test]
fn new_table_is_all_disconnected() {
    let mut m: ConnectionManager<2> = ConnectionManager::new();
    assert_eq!(m.poll_accept(), None);
    assert!(matches!(ConnectionState::Disconnected, ConnectionState::Disconnected));
}

#[test]
fn connection_complete_without_room_asks_for_disconnect() {
    let mut m: ConnectionManager<1> = ConnectionManager::new();
    assert_eq!(on_connection_complete(&mut m, info(1)), None);
    assert_eq!(
        on_connection_complete(&mut m, info(2)),
        Some(HciCommand::Disconnect {
            handle: ConnHandle(2),
            reason: REMOTE_DEVICE_TERMINATED_CONN_LOW_RESOURCES,
        })
    );
    assert_eq!(REMOTE_DEVICE_TERMINATED_CONN_LOW_RESOURCES, 0x14);
}
