use vstd::prelude::*;

use bt_hci::data::{AclBroadcastFlag, AclPacket};
use bt_hci::param::ConnHandle as HciConnHandle;
use bt_hci::{FromHciBytes, WriteHci};

use crate::codec::{le16, le16_bytes, CodecError};

verus! {

/// The largest connection handle an HCI controller hands out.
pub const MAX_CONN_HANDLE: u16 = 0xeff;

/// The `Packet_Boundary_Flag` of an HCI ACL data packet.
#[derive(Clone, Copy, PartialEq, Eq, Structural, Debug)]
pub enum AclPacketBoundary {
    /// First fragment of a PDU that must not be flushed.
    FirstNonFlushable,
    /// A later fragment of a PDU.
    Continuing,
    /// First fragment of a PDU that may be flushed.
    FirstFlushable,
    /// A whole PDU.
    Complete,
}

/// The two bits that carry `pb` in the header.
pub open spec fn boundary_bits(pb: AclPacketBoundary) -> int {
    match pb {
        AclPacketBoundary::FirstNonFlushable => 0,
        AclPacketBoundary::Continuing => 1,
        AclPacketBoundary::FirstFlushable => 2,
        AclPacketBoundary::Complete => 3,
    }
}

/// The boundary flag that the bits `b` (below 4) stand for.
pub open spec fn boundary_of(b: int) -> AclPacketBoundary {
    if b == 0 {
        AclPacketBoundary::FirstNonFlushable
    } else if b == 1 {
        AclPacketBoundary::Continuing
    } else if b == 2 {
        AclPacketBoundary::FirstFlushable
    } else {
        AclPacketBoundary::Complete
    }
}

/// A point-to-point ACL data packet on the wire: the handle with the boundary flag in bits
/// 12 and 13, the data length, both little-endian, then the data.
pub open spec fn acl_frame(handle: u16, pb: AclPacketBoundary, data: Seq<u8>) -> Seq<u8> {
    le16_bytes((handle + 4096 * boundary_bits(pb)) as u16) + le16_bytes(data.len() as u16) + data
}

/// Whether `bytes` start with a whole ACL data packet.
pub open spec fn holds_acl(bytes: Seq<u8>) -> bool {
    bytes.len() >= 4 && bytes.len() - 4 >= le16(bytes[2], bytes[3])
}

/// Relies on bt_hci's `AclPacket::new` and its `WriteHci::write_hci`: the packet is
/// written as its 4-byte header (handle and flags, then data length, little-endian)
/// followed by the data. `ConnHandle::new` panics above `0xeff`.
#[verifier::external_body]
fn write_acl(handle: u16, pb: AclPacketBoundary, data: &[u8]) -> (r: Vec<u8>)
    requires
        handle <= MAX_CONN_HANDLE,
        data@.len() <= 0xffff,
    ensures
        r@ == acl_frame(handle, pb, data@),
{
    let pbf = match pb {
        AclPacketBoundary::FirstNonFlushable => bt_hci::data::AclPacketBoundary::FirstNonFlushable,
        AclPacketBoundary::Continuing => bt_hci::data::AclPacketBoundary::Continuing,
        AclPacketBoundary::FirstFlushable => bt_hci::data::AclPacketBoundary::FirstFlushable,
        AclPacketBoundary::Complete => bt_hci::data::AclPacketBoundary::Complete,
    };
    let acl = AclPacket::new(HciConnHandle::new(handle), pbf, AclBroadcastFlag::PointToPoint, data);
    let mut out = vec![0u8; acl.size()];
    let _ = acl.write_hci(out.as_mut_slice());
    out
}

/// Relies on bt_hci's `AclPacket::from_hci_bytes`: it fails when fewer than four bytes
/// or fewer data bytes than the header's length are there; else it gives the raw handle
/// field of the header and the data that the length covers.
#[verifier::external_body]
fn read_acl(bytes: &[u8]) -> (r: Option<(u16, Vec<u8>)>)
    ensures
        r is Some == holds_acl(bytes@),
        r matches Some((h, d)) ==> h == le16(bytes@[0], bytes@[1]) && d@ == bytes@.subrange(
            4,
            4 + le16(bytes@[2], bytes@[3]),
        ),
{
    match AclPacket::from_hci_bytes(bytes) {
        Ok((acl, _)) => Some((acl.header().handle, acl.data().to_vec())),
        Err(_) => None,
    }
}

/// A received ACL data packet.
pub struct AclData {
    pub handle: u16,
    pub boundary: AclPacketBoundary,
    pub broadcast: u8,
    pub data: Vec<u8>,
}

/// Frames `data` as a point-to-point ACL data packet of the link `handle`.
pub fn encode_acl(handle: u16, pb: AclPacketBoundary, data: &[u8]) -> (r: Result<Vec<u8>, CodecError>)
    ensures
        r is Ok == (handle <= MAX_CONN_HANDLE && data@.len() <= 0xffff),
        r matches Ok(v) ==> v@ == acl_frame(handle, pb, data@),
        r matches Err(e) ==> e == CodecError::InvalidValue,
{
    if handle > MAX_CONN_HANDLE || data.len() > 0xffff {
        return Err(CodecError::InvalidValue);
    }
    Ok(write_acl(handle, pb, data))
}

/// Reads an ACL data packet from the front of `bytes`.
pub fn decode_acl(bytes: &[u8]) -> (r: Result<AclData, CodecError>)
    ensures
        r is Ok == holds_acl(bytes@),
        r matches Err(e) ==> e == CodecError::InvalidValue,
        r matches Ok(a) ==> {
            let h = le16(bytes@[0], bytes@[1]);
            &&& a.handle == h % 4096
            &&& a.boundary == boundary_of((h / 4096) % 4)
            &&& a.broadcast == h / 16384
            &&& a.data@ == bytes@.subrange(4, 4 + le16(bytes@[2], bytes@[3]))
        },
{
    match read_acl(bytes) {
        Some((h, data)) => {
            let bits = (h / 4096) % 4;
            let boundary = if bits == 0 {
                AclPacketBoundary::FirstNonFlushable
            } else if bits == 1 {
                AclPacketBoundary::Continuing
            } else if bits == 2 {
                AclPacketBoundary::FirstFlushable
            } else {
                AclPacketBoundary::Complete
            };
            Ok(AclData { handle: h % 4096, boundary, broadcast: (h / 16384) as u8, data })
        },
        None => Err(CodecError::InvalidValue),
    }
}

} // verus!
