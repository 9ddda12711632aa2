use vstd::prelude::*;

use crate::codec::{le16, le16_bytes, read_le16, CodecError};

verus! {

/// A Bluetooth UUID, in its 16-bit or its 128-bit form, as little-endian bytes.
#[derive(Debug, PartialEq, Eq, Clone, Copy)]
pub enum Uuid {
    Uuid16([u8; 2]),
    Uuid128([u8; 16]),
}

/// What decoding `src` as a UUID gives: two bytes that are not both zero make a short
/// UUID; two zero bytes start a long one of sixteen bytes.
pub open spec fn decoded_uuid(src: Seq<u8>) -> Result<Seq<u8>, CodecError> {
    if src.len() < 2 {
        Err(CodecError::InvalidValue)
    } else if le16(src[0], src[1]) == 0 {
        if src.len() < 16 {
            Err(CodecError::InvalidValue)
        } else {
            Ok(src.subrange(0, 16))
        }
    } else {
        Ok(src.subrange(0, 2))
    }
}

impl Uuid {
    /// The bytes of the UUID.
    pub open spec fn raw(&self) -> Seq<u8> {
        match self {
            Uuid::Uuid16(b) => b@,
            Uuid::Uuid128(b) => b@,
        }
    }

    pub fn new_short(val: u16) -> (r: Self)
        ensures
            r is Uuid16,
            r.raw() == le16_bytes(val),
    {
        let b: [u8; 2] = [(val % 256) as u8, (val / 256) as u8];
        assert(b@ =~= le16_bytes(val));
        Uuid::Uuid16(b)
    }

    pub fn new_long(val: [u8; 16]) -> (r: Self)
        ensures
            r == Uuid::Uuid128(val),
    {
        Uuid::Uuid128(val)
    }

    /// Copies the bytes of the UUID into `data`, which has exactly their length.
    pub fn bytes(&self, data: &mut [u8])
        requires
            old(data)@.len() == self.raw().len(),
        ensures
            final(data)@ == self.raw(),
    {
        let raw = self.as_raw();
        let mut i: usize = 0;
        while i < raw.len()
            invariant
                raw@ == self.raw(),
                data@.len() == raw@.len(),
                i <= raw@.len(),
                forall|j: int| 0 <= j < i ==> data@[j] == raw@[j],
            decreases raw@.len() - i,
        {
            data[i] = raw[i];
            i = i + 1;
        }
        assert(data@ =~= self.raw());
    }

    /// The type tag of the UUID: 1 for the short form, 2 for the long one.
    pub fn get_type(&self) -> (r: u8)
        ensures
            r == (if self is Uuid16 {
                1u8
            } else {
                2u8
            }),
    {
        match self {
            Uuid::Uuid16(_) => 0x01,
            Uuid::Uuid128(_) => 0x02,
        }
    }

    /// The length of an attribute entry that carries the UUID: a 4-byte header and the
    /// UUID's bytes.
    pub fn len(&self) -> (r: usize)
        ensures
            r == 4 + self.raw().len(),
    {
        match self {
            Uuid::Uuid16(_) => 6,
            Uuid::Uuid128(_) => 20,
        }
    }

    pub fn as_raw(&self) -> (r: &[u8])
        ensures
            r@ == self.raw(),
    {
        match self {
            Uuid::Uuid16(uuid) => uuid.as_slice(),
            Uuid::Uuid128(uuid) => uuid.as_slice(),
        }
    }

    /// The number of bytes the UUID takes on the wire.
    pub fn size(&self) -> (r: usize)
        ensures
            r == self.raw().len(),
    {
        self.as_raw().len()
    }

    /// A UUID from its bytes, which are two or sixteen.
    pub fn from_slice(data: &[u8]) -> (r: Self)
        requires
            data@.len() == 2 || data@.len() == 16,
        ensures
            r.raw() == data@,
            (r is Uuid16) == (data@.len() == 2),
    {
        if data.len() == 2 {
            let b: [u8; 2] = [data[0], data[1]];
            assert(b@ =~= data@);
            Uuid::Uuid16(b)
        } else {
            let mut b: [u8; 16] = [0u8; 16];
            let mut i: usize = 0;
            while i < 16
                invariant
                    data@.len() == 16,
                    i <= 16,
                    forall|j: int| 0 <= j < i ==> b@[j] == data@[j],
                decreases 16 - i,
            {
                b[i] = data[i];
                i = i + 1;
            }
            assert(b@ =~= data@);
            Uuid::Uuid128(b)
        }
    }

    /// Reads a UUID from the front of `src`.
    pub fn decode(src: &[u8]) -> (r: Result<Uuid, CodecError>)
        ensures
            match (r, decoded_uuid(src@)) {
                (Ok(u), Ok(b)) => u.raw() == b,
                (Err(e), Err(f)) => e == f,
                _ => false,
            },
    {
        if src.len() < 2 {
            Err(CodecError::InvalidValue)
        } else {
            let val = read_le16(src[0], src[1]);
            if val == 0 {
                if src.len() < 16 {
                    return Err(CodecError::InvalidValue);
                }
                let head = slice_prefix(src, 16);
                Ok(Uuid::from_slice(head))
            } else {
                Ok(Uuid::from_slice(slice_prefix(src, 2)))
            }
        }
    }

    /// Writes the bytes of the UUID at the front of `dest`.
    pub fn encode(&self, dest: &mut [u8]) -> (r: Result<(), CodecError>)
        ensures
            r is Ok == (self.raw().len() <= old(dest)@.len()),
            r is Ok ==> final(dest)@ == self.raw() + old(dest)@.subrange(
                self.raw().len() as int,
                old(dest)@.len() as int,
            ),
            r is Err ==> r == Err::<(), CodecError>(CodecError::InsufficientSpace) && final(dest)@
                == old(dest)@,
    {
        let raw = self.as_raw();
        if raw.len() > dest.len() {
            return Err(CodecError::InsufficientSpace);
        }
        let mut i: usize = 0;
        while i < raw.len()
            invariant
                raw@ == self.raw(),
                raw@.len() <= dest@.len(),
                dest@.len() == old(dest)@.len(),
                i <= raw@.len(),
                forall|j: int| 0 <= j < i ==> dest@[j] == raw@[j],
                forall|j: int| raw@.len() <= j < dest@.len() ==> dest@[j] == old(dest)@[j],
            decreases raw@.len() - i,
        {
            dest[i] = raw[i];
            i = i + 1;
        }
        assert(dest@ =~= self.raw() + old(dest)@.subrange(
            self.raw().len() as int,
            old(dest)@.len() as int,
        ));
        Ok(())
    }
}

impl From<u16> for Uuid {
    fn from(data: u16) -> (r: Self)
        ensures
            r is Uuid16,
            r.raw() == le16_bytes(data),
    {
        let b: [u8; 2] = [(data % 256) as u8, (data / 256) as u8];
        assert(b@ =~= le16_bytes(data));
        Uuid::Uuid16(b)
    }
}

impl vstd::std_specs::convert::FromSpecImpl<u16> for Uuid {
    open spec fn obeys_from_spec() -> bool {
        true
    }

    open spec fn from_spec(data: u16) -> Uuid {
        Uuid::Uuid16([(data % 256) as u8, (data / 256) as u8])
    }
}

/// The first `n` elements of `s`.
fn slice_prefix(s: &[u8], n: usize) -> (r: &[u8])
    requires
        n <= s@.len(),
    ensures
        r@ == s@.subrange(0, n as int),
{
    let (a, _) = s.split_at(n);
    a
}

} // verus!
