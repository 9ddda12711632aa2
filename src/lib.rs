pub mod acl;
pub mod adapter;
pub mod channel_manager;
pub mod codec;
pub mod connection_manager;
pub mod gatt;
pub mod l2cap;
pub mod packet_pool;
pub mod signal;
pub mod uuid;
