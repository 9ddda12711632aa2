use vstd::prelude::*;

use crate::acl::AclPacketBoundary;
use crate::codec::{le16, le16_bytes, read_le16, write_le16, CodecError};
use crate::packet_pool::Packet;

verus! {

/// The fixed channel of the attribute protocol.
pub const L2CAP_CID_ATT: u16 = 0x0004;

/// The fixed LE signalling channel.
pub const L2CAP_CID_LE_U_SIGNAL: u16 = 0x0005;

/// The first channel id of the dynamic range.
pub const L2CAP_CID_DYN_START: u16 = 0x0040;

/// An L2CAP frame on the wire: payload length and channel id, little-endian, then the
/// payload.
pub open spec fn l2cap_frame(cid: u16, payload: Seq<u8>) -> Seq<u8> {
    le16_bytes(payload.len() as u16) + le16_bytes(cid) + payload
}

/// Whether `data` starts with a whole L2CAP frame.
pub open spec fn holds_l2cap(data: Seq<u8>) -> bool {
    data.len() >= 4 && data.len() - 4 >= le16(data[0], data[1])
}

/// A decoded L2CAP frame.
pub struct L2capPacket {
    pub channel: u16,
    pub payload: Vec<u8>,
}

/// Frames `payload` for channel `cid`.
pub fn encode_l2cap(cid: u16, payload: &[u8]) -> (r: Result<Vec<u8>, CodecError>)
    ensures
        r is Ok == (payload@.len() <= 0xffff),
        r matches Ok(v) ==> v@ == l2cap_frame(cid, payload@),
        r matches Err(e) ==> e == CodecError::InvalidValue,
{
    if payload.len() > 0xffff {
        return Err(CodecError::InvalidValue);
    }
    let mut out: Vec<u8> = Vec::new();
    write_le16(&mut out, payload.len() as u16);
    write_le16(&mut out, cid);
    let mut i: usize = 0;
    while i < payload.len()
        invariant
            i <= payload@.len(),
            out@ == le16_bytes(payload@.len() as u16) + le16_bytes(cid) + payload@.subrange(0, i as int),
        decreases payload@.len() - i,
    {
        out.push(payload[i]);
        i = i + 1;
        assert(out@ =~= le16_bytes(payload@.len() as u16) + le16_bytes(cid) + payload@.subrange(
            0,
            i as int,
        ));
    }
    assert(payload@.subrange(0, payload@.len() as int) =~= payload@);
    Ok(out)
}

/// The bytes `s[from..to]` as a new vector.
pub fn copy_range(s: &[u8], from: usize, to: usize) -> (r: Vec<u8>)
    requires
        from <= to <= s@.len(),
    ensures
        r@ == s@.subrange(from as int, to as int),
{
    let mut out: Vec<u8> = Vec::new();
    let mut i: usize = from;
    while i < to
        invariant
            from <= i <= to,
            to <= s@.len(),
            out@ == s@.subrange(from as int, i as int),
        decreases to - i,
    {
        out.push(s[i]);
        i = i + 1;
        assert(out@ =~= s@.subrange(from as int, i as int));
    }
    out
}

/// Reads an L2CAP frame from the front of `data`.
pub fn decode_l2cap(data: &[u8]) -> (r: Result<L2capPacket, CodecError>)
    ensures
        r is Ok == holds_l2cap(data@),
        r matches Err(e) ==> e == CodecError::InvalidValue,
        r matches Ok(p) ==> p.channel == le16(data@[2], data@[3]) && p.payload@ == data@.subrange(
            4,
            4 + le16(data@[0], data@[1]),
        ),
{
    if data.len() < 4 {
        return Err(CodecError::InvalidValue);
    }
    let len = read_le16(data[0], data[1]) as usize;
    let channel = read_le16(data[2], data[3]);
    if data.len() - 4 < len {
        return Err(CodecError::InvalidValue);
    }
    Ok(L2capPacket { channel, payload: copy_range(data, 4, 4 + len) })
}

/// Where an inbound L2CAP frame goes, by its channel id.
#[derive(Clone, Copy, PartialEq, Eq, Structural, Debug)]
pub enum Route {
    /// The attribute protocol's inbound queue.
    Att,
    /// The signalling handler.
    Signal,
    /// A dynamic channel's receive queue.
    Dynamic,
    /// A fixed channel this host does not serve.
    Unsupported,
}

pub open spec fn spec_route(cid: u16) -> Route {
    if cid == L2CAP_CID_ATT {
        Route::Att
    } else if cid == L2CAP_CID_LE_U_SIGNAL {
        Route::Signal
    } else if cid >= L2CAP_CID_DYN_START {
        Route::Dynamic
    } else {
        Route::Unsupported
    }
}

pub fn route(cid: u16) -> (r: Route)
    ensures
        r == spec_route(cid),
{
    if cid == L2CAP_CID_ATT {
        Route::Att
    } else if cid == L2CAP_CID_LE_U_SIGNAL {
        Route::Signal
    } else if cid >= L2CAP_CID_DYN_START {
        Route::Dynamic
    } else {
        Route::Unsupported
    }
}

/// A PDU in a pool buffer: the first `len` bytes of the packet, with the boundary flag it
/// travels under.
pub struct Pdu {
    pub packet: Packet,
    pub pb: AclPacketBoundary,
    pub len: usize,
}

impl Pdu {
    /// A whole PDU of the first `len` bytes of `packet`.
    pub fn new(packet: Packet, len: usize) -> (r: Self)
        ensures
            r.packet == packet,
            r.len == len,
            r.pb == AclPacketBoundary::FirstNonFlushable,
    {
        Pdu { packet, pb: AclPacketBoundary::FirstNonFlushable, len }
    }

    /// The valid bytes of the PDU.
    pub open spec fn payload(&self) -> Seq<u8> {
        self.packet.bytes().subrange(0, self.len as int)
    }

    pub fn as_ref(&self) -> (r: &[u8])
        requires
            self.len <= self.packet.bytes().len(),
        ensures
            r@ == self.payload(),
    {
        let (a, _) = self.packet.as_ref().split_at(self.len);
        a
    }
}

/// One ACL fragment of an outbound PDU.
pub struct Fragment {
    pub boundary: AclPacketBoundary,
    pub data: Vec<u8>,
}

/// Fragment `i` of a PDU `pdu` cut into pieces of `size` bytes.
pub open spec fn fragment_at(pdu: Seq<u8>, size: int, i: int) -> (AclPacketBoundary, Seq<u8>) {
    (
        if i == 0 {
            AclPacketBoundary::FirstNonFlushable
        } else {
            AclPacketBoundary::Continuing
        },
        pdu.subrange(i * size, if (i + 1) * size < pdu.len() {
            (i + 1) * size
        } else {
            pdu.len() as int
        }),
    )
}

/// The fragments as boundary flags and bytes.
pub open spec fn fragments_view(f: Seq<Fragment>) -> Seq<(AclPacketBoundary, Seq<u8>)> {
    f.map_values(|x: Fragment| (x.boundary, x.data@))
}

/// Cuts `pdu` into ACL fragments of at most `size` bytes: the first flagged
/// `FirstNonFlushable`, the others `Continuing`. An empty PDU makes one empty fragment;
/// else there are as many as `size` goes into the length, rounded up.
pub fn fragment(pdu: &[u8], size: usize) -> (r: Vec<Fragment>)
    requires
        size > 0,
    ensures
        r@.len() >= 1,
        pdu@.len() == 0 ==> r@.len() == 1,
        pdu@.len() > 0 ==> (r@.len() - 1) * size < pdu@.len() <= r@.len() * size,
        forall|i: int|
            0 <= i < r@.len() ==> #[trigger] fragments_view(r@)[i] == fragment_at(pdu@, size as int, i),
{
    let mut out: Vec<Fragment> = Vec::new();
    let mut off: usize = 0;
    let len = pdu.len();
    assert(out@.len() * size == 0) by (nonlinear_arith)
        requires
            out@.len() == 0,
    ;
    loop
        invariant_except_break
            off == out@.len() * size,
            off <= len,
            out@.len() > 0 ==> off < len,
        invariant
            len == pdu@.len(),
            size > 0,
            forall|i: int|
                0 <= i < out@.len() ==> #[trigger] fragments_view(out@)[i] == fragment_at(
                    pdu@,
                    size as int,
                    i,
                ),
        ensures
            out@.len() >= 1,
            len == 0 ==> out@.len() == 1,
            len > 0 ==> (out@.len() - 1) * size < len <= out@.len() * size,
        decreases len - off,
    {
        let end = if len - off > size {
            off + size
        } else {
            len
        };
        let boundary = if out.len() == 0 {
            AclPacketBoundary::FirstNonFlushable
        } else {
            AclPacketBoundary::Continuing
        };
        let ghost prev = out@;
        let ghost k = out@.len() as int;
        let data = copy_range(pdu, off, end);
        out.push(Fragment { boundary, data });
        proof {
            assert((k + 1) * size == k * size + size) by (nonlinear_arith);
            assert forall|i: int| 0 <= i < out@.len() implies #[trigger] fragments_view(out@)[i]
                == fragment_at(pdu@, size as int, i) by {
                if i < k {
                    assert(out@[i] == prev[i]);
                    assert(fragments_view(prev)[i] == fragment_at(pdu@, size as int, i));
                }
            }
        }
        if end == len {
            break;
        }
        off = end;
    }
    out
}

/// What a received fragment does to the PDU being put together: a `Continuing` one
/// appends its bytes, any other starts a new PDU.
pub open spec fn reassembly_step(acc: Seq<u8>, pb: AclPacketBoundary, bytes: Seq<u8>) -> Seq<u8> {
    if pb == AclPacketBoundary::Continuing {
        acc + bytes
    } else {
        bytes
    }
}

/// The PDU that the fragments `frags`, received in order, put together.
pub open spec fn reassembled(frags: Seq<(AclPacketBoundary, Seq<u8>)>) -> Seq<u8>
    decreases frags.len(),
{
    if frags.len() == 0 {
        Seq::empty()
    } else {
        reassembly_step(reassembled(frags.drop_last()), frags.last().0, frags.last().1)
    }
}

/// An inbound PDU being put together from ACL fragments.
pub struct Reassembly {
    data: Vec<u8>,
}

impl Reassembly {
    /// The bytes gathered so far.
    pub closed spec fn bytes(&self) -> Seq<u8> {
        self.data@
    }

    pub fn new() -> (r: Self)
        ensures
            r.bytes() == Seq::<u8>::empty(),
    {
        Reassembly { data: Vec::new() }
    }

    /// Takes in the next fragment.
    pub fn push(&mut self, pb: AclPacketBoundary, bytes: &[u8])
        ensures
            final(self).bytes() == reassembly_step(old(self).bytes(), pb, bytes@),
    {
        if pb != AclPacketBoundary::Continuing {
            self.data = Vec::new();
        }
        let ghost start = self.data@;
        let mut i: usize = 0;
        while i < bytes.len()
            invariant
                i <= bytes@.len(),
                self.data@ == start + bytes@.subrange(0, i as int),
            decreases bytes@.len() - i,
        {
            self.data.push(bytes[i]);
            i = i + 1;
            assert(self.data@ =~= start + bytes@.subrange(0, i as int));
        }
        assert(bytes@.subrange(0, bytes@.len() as int) =~= bytes@);
        assert(start + Seq::<u8>::empty() =~= start);
    }

    /// Whether the bytes gathered form exactly the L2CAP frame their header declares.
    pub fn is_complete(&self) -> (r: bool)
        ensures
            r == (self.bytes().len() >= 4 && self.bytes().len() - 4 == le16(
                self.bytes()[0],
                self.bytes()[1],
            )),
    {
        if self.data.len() < 4 {
            return false;
        }
        let len = read_le16(self.data[0], self.data[1]) as usize;
        self.data.len() - 4 == len
    }

    pub fn as_slice(&self) -> (r: &[u8])
        ensures
            r@ == self.bytes(),
    {
        self.data.as_slice()
    }
}

/// Puts a PDU together from `frags`, received in order.
pub fn reassemble(frags: &Vec<Fragment>) -> (r: Vec<u8>)
    ensures
        r@ == reassembled(fragments_view(frags@)),
{
    let mut acc = Reassembly::new();
    let mut i: usize = 0;
    while i < frags.len()
        invariant
            i <= frags@.len(),
            acc.bytes() == reassembled(fragments_view(frags@).take(i as int)),
        decreases frags@.len() - i,
    {
        proof {
            let v = fragments_view(frags@);
            assert(v.take(i + 1).drop_last() =~= v.take(i as int));
        }
        acc.push(frags[i].boundary, frags[i].data.as_slice());
        i = i + 1;
    }
    assert(fragments_view(frags@).take(frags@.len() as int) =~= fragments_view(frags@));
    acc.data
}

/// Fragments cut from a PDU as `fragment` cuts them put the PDU back together, byte for
/// byte, when received in order.
pub proof fn lemma_fragment_round_trip(
    pdu: Seq<u8>,
    size: int,
    frags: Seq<(AclPacketBoundary, Seq<u8>)>,
)
    requires
        size > 0,
        frags.len() >= 1,
        pdu.len() == 0 ==> frags.len() == 1,
        pdu.len() > 0 ==> (frags.len() - 1) * size < pdu.len() <= frags.len() * size,
        forall|i: int| 0 <= i < frags.len() ==> #[trigger] frags[i] == fragment_at(pdu, size, i),
    ensures
        reassembled(frags) == pdu,
{
    let n = frags.len() as int;
    assert forall|k: int| 1 <= k <= n implies #[trigger] reassembled(frags.take(k)) == pdu.subrange(
        0,
        if k * size < pdu.len() {
            k * size
        } else {
            pdu.len() as int
        },
    ) by {
        lemma_round_trip_prefix(pdu, size, frags, k);
    }
    assert(frags.take(n) =~= frags);
    if pdu.len() > 0 {
        assert(pdu.subrange(0, pdu.len() as int) =~= pdu);
    } else {
        assert(n * size >= 0) by (nonlinear_arith)
            requires
                n >= 0,
                size > 0,
        ;
        assert(pdu.subrange(0, 0) =~= pdu);
    }
}

proof fn lemma_round_trip_prefix(
    pdu: Seq<u8>,
    size: int,
    frags: Seq<(AclPacketBoundary, Seq<u8>)>,
    k: int,
)
    requires
        size > 0,
        frags.len() >= 1,
        pdu.len() == 0 ==> frags.len() == 1,
        pdu.len() > 0 ==> (frags.len() - 1) * size < pdu.len() <= frags.len() * size,
        forall|i: int| 0 <= i < frags.len() ==> #[trigger] frags[i] == fragment_at(pdu, size, i),
        1 <= k <= frags.len(),
    ensures
        reassembled(frags.take(k)) == pdu.subrange(
            0,
            if k * size < pdu.len() {
                k * size
            } else {
                pdu.len() as int
            },
        ),
    decreases k,
{
    let n = frags.len() as int;
    assert(frags.take(k).drop_last() =~= frags.take(k - 1));
    assert(frags.take(k).last() == frags[k - 1]);
    if k == 1 {
        assert(1 * size == size);
        assert(0 * size == 0);
        assert(reassembled(frags.take(0)) == Seq::<u8>::empty());
    } else {
        lemma_round_trip_prefix(pdu, size, frags, k - 1);
        // The fragment before this one ended at a full multiple of `size`.
        assert((k - 1) * size <= (n - 1) * size) by (nonlinear_arith)
            requires
                k - 1 <= n - 1,
                size > 0,
        ;
        assert((k - 1) * size >= 0) by (nonlinear_arith)
            requires
                k - 1 >= 0,
                size > 0,
        ;
        assert(k * size == (k - 1) * size + size) by (nonlinear_arith);
        let end = if k * size < pdu.len() {
            k * size
        } else {
            pdu.len() as int
        };
        assert(pdu.subrange(0, (k - 1) * size) + pdu.subrange((k - 1) * size, end) =~= pdu.subrange(
            0,
            end,
        ));
    }
}

} // verus!
