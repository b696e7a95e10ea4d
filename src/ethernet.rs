use vstd::prelude::*;

use crate::error::Error;

verus! {

/// Length of an Ethernet II header: two addresses and the ethertype.
pub const HEADER_LEN: usize = 14;

/// The protocol carried by a frame, as named by its ethertype field.
#[derive(Debug, Clone, Copy, PartialEq, Eq, Structural)]
pub enum EtherType {
    IPv4,
    ARP,
    IPv6,
    Unknown(u16),
}

/// The ethertype that a 16-bit code stands for.
pub open spec fn ethertype_of(code: u16) -> EtherType {
    if code == 0x0800 {
        EtherType::IPv4
    } else if code == 0x0806 {
        EtherType::ARP
    } else if code == 0x86DD {
        EtherType::IPv6
    } else {
        EtherType::Unknown(code)
    }
}

/// The big-endian 16-bit value of two bytes.
pub open spec fn be_u16(hi: u8, lo: u8) -> u16 {
    (hi as int * 256 + lo as int) as u16
}

impl EtherType {
    /// Names the ethertype of a 16-bit code; any code outside the known set is `Unknown`.
    pub fn from_code(code: u16) -> (r: EtherType)
        ensures
            r == ethertype_of(code),
    {
        match code {
            0x0800 => EtherType::IPv4,
            0x0806 => EtherType::ARP,
            0x86DD => EtherType::IPv6,
            other => EtherType::Unknown(other),
        }
    }
}

impl From<u16> for EtherType {
    fn from(code: u16) -> (r: EtherType) {
        EtherType::from_code(code)
    }
}

impl vstd::std_specs::convert::FromSpecImpl<u16> for EtherType {
    open spec fn obeys_from_spec() -> bool {
        true
    }

    open spec fn from_spec(v: u16) -> EtherType {
        ethertype_of(v)
    }
}

/// An Ethernet II frame: a view over a captured buffer of at least `HEADER_LEN` bytes.
pub struct Frame<'a>(pub &'a [u8]);

impl<'a> Frame<'a> {
    /// The buffer is long enough to hold the header.
    pub open spec fn wf(&self) -> bool {
        self.0@.len() >= HEADER_LEN
    }

    /// Views a buffer as a frame, refusing one too short for the header.
    pub fn new(data: &'a [u8]) -> (r: Result<Frame<'a>, Error>)
        ensures
            match r {
                Ok(f) => data@.len() >= HEADER_LEN && f.0@ == data@,
                Err(e) => data@.len() < HEADER_LEN && e == (Error::MalformedFrame { len: data@.len() as usize }),
            },
    {
        if data.len() < HEADER_LEN {
            Err(Error::MalformedFrame { len: data.len() })
        } else {
            Ok(Frame(data))
        }
    }

    /// Bytes 0 to 5: the destination address.
    pub fn destination(&self) -> (r: &[u8])
        requires
            self.wf(),
        ensures
            r@ == self.0@.subrange(0, 6),
    {
        &self.0[0..6]
    }

    /// Bytes 6 to 11: the source address.
    pub fn source(&self) -> (r: &[u8])
        requires
            self.wf(),
        ensures
            r@ == self.0@.subrange(6, 12),
    {
        &self.0[6..12]
    }

    /// Bytes 12 and 13, read big-endian, as an ethertype.
    pub fn ethertype(&self) -> (r: EtherType)
        requires
            self.wf(),
        ensures
            r == ethertype_of(be_u16(self.0@[12], self.0@[13])),
    {
        let hi = self.0[12] as u16;
        let lo = self.0[13] as u16;
        EtherType::from_code(hi * 256 + lo)
    }

    /// Everything after the header.
    pub fn payload(&self) -> (r: &[u8])
        requires
            self.wf(),
        ensures
            r@ == self.0@.subrange(14, self.0@.len() as int),
    {
        &self.0[HEADER_LEN..self.0.len()]
    }
}

} // verus!
