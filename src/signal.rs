use vstd::prelude::*;

use crate::codec::{le16, le16_bytes, read_le16, write_le16, CodecError};

verus! {

pub const SIG_COMMAND_REJECT: u8 = 0x01;

pub const SIG_DISCONNECTION_REQ: u8 = 0x06;

pub const SIG_DISCONNECTION_RES: u8 = 0x07;

pub const SIG_LE_CREDIT_CONN_REQ: u8 = 0x14;

pub const SIG_LE_CREDIT_CONN_RES: u8 = 0x15;

pub const SIG_LE_CREDIT_FLOW_IND: u8 = 0x16;

/// A PDU of the LE signalling channel.
#[derive(Clone, Copy, PartialEq, Eq, Structural, Debug)]
pub enum L2capLeSignal {
    CommandReject { id: u8, reason: u16 },
    DisconnectionReq { id: u8, dcid: u16, scid: u16 },
    DisconnectionRes { id: u8, dcid: u16, scid: u16 },
    LeCreditConnReq { id: u8, spsm: u16, scid: u16, mtu: u16, mps: u16, credits: u16 },
    LeCreditConnRes { id: u8, dcid: u16, mtu: u16, mps: u16, credits: u16, result: u16 },
    LeCreditFlowInd { id: u8, cid: u16, credits: u16 },
    /// A well-framed PDU whose code this host does not know.
    Unknown { id: u8, code: u8 },
}

/// The 16-bit fields of a payload, little-endian.
pub open spec fn fields(vals: Seq<u16>) -> Seq<u8>
    decreases vals.len(),
{
    if vals.len() == 0 {
        Seq::empty()
    } else {
        fields(vals.drop_last()) + le16_bytes(vals.last())
    }
}

/// The `k`-th 16-bit field of a payload.
pub open spec fn field(p: Seq<u8>, k: int) -> u16 {
    le16(p[2 * k], p[2 * k + 1]) as u16
}

impl L2capLeSignal {
    pub open spec fn code(&self) -> u8 {
        match self {
            L2capLeSignal::CommandReject { .. } => SIG_COMMAND_REJECT,
            L2capLeSignal::DisconnectionReq { .. } => SIG_DISCONNECTION_REQ,
            L2capLeSignal::DisconnectionRes { .. } => SIG_DISCONNECTION_RES,
            L2capLeSignal::LeCreditConnReq { .. } => SIG_LE_CREDIT_CONN_REQ,
            L2capLeSignal::LeCreditConnRes { .. } => SIG_LE_CREDIT_CONN_RES,
            L2capLeSignal::LeCreditFlowInd { .. } => SIG_LE_CREDIT_FLOW_IND,
            L2capLeSignal::Unknown { code, .. } => *code,
        }
    }

    pub open spec fn id(&self) -> u8 {
        match self {
            L2capLeSignal::CommandReject { id, .. } => *id,
            L2capLeSignal::DisconnectionReq { id, .. } => *id,
            L2capLeSignal::DisconnectionRes { id, .. } => *id,
            L2capLeSignal::LeCreditConnReq { id, .. } => *id,
            L2capLeSignal::LeCreditConnRes { id, .. } => *id,
            L2capLeSignal::LeCreditFlowInd { id, .. } => *id,
            L2capLeSignal::Unknown { id, .. } => *id,
        }
    }

    /// The 16-bit fields that follow the header, in wire order.
    pub open spec fn values(&self) -> Seq<u16> {
        match self {
            L2capLeSignal::CommandReject { reason, .. } => seq![*reason],
            L2capLeSignal::DisconnectionReq { dcid, scid, .. } => seq![*dcid, *scid],
            L2capLeSignal::DisconnectionRes { dcid, scid, .. } => seq![*dcid, *scid],
            L2capLeSignal::LeCreditConnReq { spsm, scid, mtu, mps, credits, .. } => seq![
                *spsm,
                *scid,
                *mtu,
                *mps,
                *credits,
            ],
            L2capLeSignal::LeCreditConnRes { dcid, mtu, mps, credits, result, .. } => seq![
                *dcid,
                *mtu,
                *mps,
                *credits,
                *result,
            ],
            L2capLeSignal::LeCreditFlowInd { cid, credits, .. } => seq![*cid, *credits],
            L2capLeSignal::Unknown { .. } => Seq::empty(),
        }
    }

    /// The PDU on the wire: code, identifier, payload length, then the payload.
    pub open spec fn wire(&self) -> Seq<u8> {
        let p = fields(self.values());
        seq![self.code(), self.id()] + le16_bytes(p.len() as u16) + p
    }

    /// Encodes the PDU.
    pub fn encode(&self) -> (r: Vec<u8>)
        ensures
            r@ == self.wire(),
    {
        let mut vals: Vec<u16> = Vec::new();
        let (code, id) = match *self {
            L2capLeSignal::CommandReject { id, reason } => {
                vals.push(reason);
                (SIG_COMMAND_REJECT, id)
            },
            L2capLeSignal::DisconnectionReq { id, dcid, scid } => {
                vals.push(dcid);
                vals.push(scid);
                (SIG_DISCONNECTION_REQ, id)
            },
            L2capLeSignal::DisconnectionRes { id, dcid, scid } => {
                vals.push(dcid);
                vals.push(scid);
                (SIG_DISCONNECTION_RES, id)
            },
            L2capLeSignal::LeCreditConnReq { id, spsm, scid, mtu, mps, credits } => {
                vals.push(spsm);
                vals.push(scid);
                vals.push(mtu);
                vals.push(mps);
                vals.push(credits);
                (SIG_LE_CREDIT_CONN_REQ, id)
            },
            L2capLeSignal::LeCreditConnRes { id, dcid, mtu, mps, credits, result } => {
                vals.push(dcid);
                vals.push(mtu);
                vals.push(mps);
                vals.push(credits);
                vals.push(result);
                (SIG_LE_CREDIT_CONN_RES, id)
            },
            L2capLeSignal::LeCreditFlowInd { id, cid, credits } => {
                vals.push(cid);
                vals.push(credits);
                (SIG_LE_CREDIT_FLOW_IND, id)
            },
            L2capLeSignal::Unknown { id, code } => (code, id),
        };
        assert(vals@ =~= self.values());
        let mut payload: Vec<u8> = Vec::new();
        let mut i: usize = 0;
        while i < vals.len()
            invariant
                i <= vals@.len(),
                vals@.len() <= 5,
                payload@ == fields(vals@.take(i as int)),
                payload@.len() == 2 * i,
            decreases vals@.len() - i,
        {
            assert(vals@.take(i + 1).drop_last() =~= vals@.take(i as int));
            write_le16(&mut payload, vals[i]);
            i = i + 1;
        }
        assert(vals@.take(vals@.len() as int) =~= vals@);
        let mut out: Vec<u8> = Vec::new();
        out.push(code);
        out.push(id);
        write_le16(&mut out, payload.len() as u16);
        let ghost head = out@;
        let mut j: usize = 0;
        while j < payload.len()
            invariant
                j <= payload@.len(),
                out@ == head + payload@.take(j as int),
            decreases payload@.len() - j,
        {
            out.push(payload[j]);
            j = j + 1;
            assert(out@ =~= head + payload@.take(j as int));
        }
        assert(payload@.take(payload@.len() as int) =~= payload@);
        out
    }
}

/// How many 16-bit fields a PDU with this code carries; `None` for codes this host does
/// not know.
pub open spec fn field_count(code: u8) -> Option<int> {
    if code == SIG_COMMAND_REJECT {
        Some(1)
    } else if code == SIG_DISCONNECTION_REQ || code == SIG_DISCONNECTION_RES || code
        == SIG_LE_CREDIT_FLOW_IND {
        Some(2)
    } else if code == SIG_LE_CREDIT_CONN_REQ || code == SIG_LE_CREDIT_CONN_RES {
        Some(5)
    } else {
        None
    }
}

/// The PDU with code `code` and identifier `id` whose payload is `p`.
pub open spec fn signal_of(code: u8, id: u8, p: Seq<u8>) -> L2capLeSignal {
    if code == SIG_COMMAND_REJECT {
        L2capLeSignal::CommandReject { id, reason: field(p, 0) }
    } else if code == SIG_DISCONNECTION_REQ {
        L2capLeSignal::DisconnectionReq { id, dcid: field(p, 0), scid: field(p, 1) }
    } else if code == SIG_DISCONNECTION_RES {
        L2capLeSignal::DisconnectionRes { id, dcid: field(p, 0), scid: field(p, 1) }
    } else if code == SIG_LE_CREDIT_FLOW_IND {
        L2capLeSignal::LeCreditFlowInd { id, cid: field(p, 0), credits: field(p, 1) }
    } else if code == SIG_LE_CREDIT_CONN_REQ {
        L2capLeSignal::LeCreditConnReq {
            id,
            spsm: field(p, 0),
            scid: field(p, 1),
            mtu: field(p, 2),
            mps: field(p, 3),
            credits: field(p, 4),
        }
    } else if code == SIG_LE_CREDIT_CONN_RES {
        L2capLeSignal::LeCreditConnRes {
            id,
            dcid: field(p, 0),
            mtu: field(p, 1),
            mps: field(p, 2),
            credits: field(p, 3),
            result: field(p, 4),
        }
    } else {
        L2capLeSignal::Unknown { id, code }
    }
}

/// What decoding `b` gives: a header of four bytes, a payload as long as the header says,
/// and for a known code at least its fields.
pub open spec fn spec_decode_signal(b: Seq<u8>) -> Result<L2capLeSignal, CodecError> {
    if b.len() < 4 || b.len() - 4 < le16(b[2], b[3]) {
        Err(CodecError::InvalidValue)
    } else {
        let p = b.subrange(4, 4 + le16(b[2], b[3]));
        match field_count(b[0]) {
            Some(n) => if p.len() < 2 * n {
                Err(CodecError::InvalidValue)
            } else {
                Ok(signal_of(b[0], b[1], p))
            },
            None => Ok(signal_of(b[0], b[1], p)),
        }
    }
}

fn read_field(p: &[u8], k: usize) -> (r: u16)
    requires
        k <= 4,
        2 * k + 1 < p@.len(),
    ensures
        r == field(p@, k as int),
{
    read_le16(p[2 * k], p[2 * k + 1])
}

/// Decodes a signalling PDU.
pub fn decode_signal(b: &[u8]) -> (r: Result<L2capLeSignal, CodecError>)
    ensures
        r == spec_decode_signal(b@),
{
    if b.len() < 4 {
        return Err(CodecError::InvalidValue);
    }
    let len = read_le16(b[2], b[3]) as usize;
    if b.len() - 4 < len {
        return Err(CodecError::InvalidValue);
    }
    let (_, rest) = b.split_at(4);
    let (p, _) = rest.split_at(len);
    assert(p@ =~= b@.subrange(4, 4 + le16(b@[2], b@[3])));
    let code = b[0];
    let id = b[1];
    let n: usize = if code == SIG_COMMAND_REJECT {
        1
    } else if code == SIG_DISCONNECTION_REQ || code == SIG_DISCONNECTION_RES || code
        == SIG_LE_CREDIT_FLOW_IND {
        2
    } else if code == SIG_LE_CREDIT_CONN_REQ || code == SIG_LE_CREDIT_CONN_RES {
        5
    } else {
        0
    };
    if p.len() < 2 * n {
        return Err(CodecError::InvalidValue);
    }
    if code == SIG_COMMAND_REJECT {
        Ok(L2capLeSignal::CommandReject { id, reason: read_field(p, 0) })
    } else if code == SIG_DISCONNECTION_REQ {
        Ok(L2capLeSignal::DisconnectionReq { id, dcid: read_field(p, 0), scid: read_field(p, 1) })
    } else if code == SIG_DISCONNECTION_RES {
        Ok(L2capLeSignal::DisconnectionRes { id, dcid: read_field(p, 0), scid: read_field(p, 1) })
    } else if code == SIG_LE_CREDIT_FLOW_IND {
        Ok(L2capLeSignal::LeCreditFlowInd { id, cid: read_field(p, 0), credits: read_field(p, 1) })
    } else if code == SIG_LE_CREDIT_CONN_REQ {
        Ok(
            L2capLeSignal::LeCreditConnReq {
                id,
                spsm: read_field(p, 0),
                scid: read_field(p, 1),
                mtu: read_field(p, 2),
                mps: read_field(p, 3),
                credits: read_field(p, 4),
            },
        )
    } else if code == SIG_LE_CREDIT_CONN_RES {
        Ok(
            L2capLeSignal::LeCreditConnRes {
                id,
                dcid: read_field(p, 0),
                mtu: read_field(p, 1),
                mps: read_field(p, 2),
                credits: read_field(p, 3),
                result: read_field(p, 4),
            },
        )
    } else {
        Ok(L2capLeSignal::Unknown { id, code })
    }
}

proof fn lemma_le16_round_trip(v: u16)
    ensures
        le16(le16_bytes(v)[0], le16_bytes(v)[1]) == v,
{
}

proof fn lemma_fields_len(vals: Seq<u16>)
    ensures
        fields(vals).len() == 2 * vals.len(),
    decreases vals.len(),
{
    if vals.len() > 0 {
        lemma_fields_len(vals.drop_last());
    }
}

proof fn lemma_field_of_fields(vals: Seq<u16>, k: int)
    requires
        0 <= k < vals.len(),
    ensures
        field(fields(vals), k) == vals[k],
    decreases vals.len(),
{
    let init = vals.drop_last();
    lemma_fields_len(init);
    if k < vals.len() - 1 {
        lemma_field_of_fields(init, k);
        assert(fields(vals)[2 * k] == fields(init)[2 * k]);
        assert(fields(vals)[2 * k + 1] == fields(init)[2 * k + 1]);
    } else {
        lemma_le16_round_trip(vals.last());
        assert(fields(vals)[2 * k] == le16_bytes(vals.last())[0]);
        assert(fields(vals)[2 * k + 1] == le16_bytes(vals.last())[1]);
    }
}

/// Decoding the wire form of a signalling PDU, whatever bytes follow it, gives the PDU
/// back. (A PDU of the `Unknown` kind whose code is a known one has no such wire form of
/// its own.)
pub proof fn lemma_signal_round_trip(s: L2capLeSignal, rest: Seq<u8>)
    requires
        s is Unknown ==> field_count(s.code()) is None,
    ensures
        spec_decode_signal(s.wire() + rest) == Ok::<L2capLeSignal, CodecError>(s),
{
    let p = fields(s.values());
    let b = s.wire() + rest;
    lemma_fields_len(s.values());
    assert(p.len() <= 10);
    lemma_le16_round_trip(p.len() as u16);
    assert(b[2] == le16_bytes(p.len() as u16)[0]);
    assert(b[3] == le16_bytes(p.len() as u16)[1]);
    assert(b.subrange(4, 4 + p.len() as int) =~= p);
    assert forall|k: int| 0 <= k < s.values().len() implies #[trigger] field(p, k) == s.values()[k] by {
        lemma_field_of_fields(s.values(), k);
    }
    if s.values().len() > 0 {
        assert(field(p, 0) == s.values()[0]);
    }
    if s.values().len() > 1 {
        assert(field(p, 1) == s.values()[1]);
    }
    if s.values().len() > 4 {
        assert(field(p, 2) == s.values()[2]);
        assert(field(p, 3) == s.values()[3]);
        assert(field(p, 4) == s.values()[4]);
    }
}

} // verus!
