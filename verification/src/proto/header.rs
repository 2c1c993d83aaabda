//! Message headers.

use vstd::prelude::*;

use crate::bytes::{le16, lemma_u16_roundtrip, read_u16, u16_at, u16_bytes};
use crate::proto::{HEADER_LEN, MAGIC, MAX_PAYLOAD, VERSION};

verus! {

/// A parsed message header.
#[derive(Debug, Clone, Copy, PartialEq, Eq, Structural)]
pub struct Header {
    pub kind: u8,
    pub seq: u16,
    pub len: u16,
}

#[derive(Debug, Clone, Copy, PartialEq, Eq, Structural)]
pub enum DecodeError {
    /// Fewer than a header's worth of bytes available.
    Truncated,
    BadMagic,
    VersionMismatch { got: u8 },
    /// Payload length exceeds the limit; refuse rather than try to buffer.
    Oversized(u16),
}

impl Header {
    /// The header's eight bytes.
    pub open spec fn wire(kind: u8, seq: u16, len: u16) -> Seq<u8> {
        seq![MAGIC, VERSION, kind, 0u8] + le16(seq as int) + le16(len as int)
    }

    /// The header that `b` starts with, or the first thing wrong with it.
    pub open spec fn from_wire(b: Seq<u8>) -> Result<Header, DecodeError> {
        if b.len() < HEADER_LEN {
            Err(DecodeError::Truncated)
        } else if b[0] != MAGIC {
            Err(DecodeError::BadMagic)
        } else if b[1] != VERSION {
            Err(DecodeError::VersionMismatch { got: b[1] })
        } else if u16_at(b, 6) > MAX_PAYLOAD {
            Err(DecodeError::Oversized(u16_at(b, 6)))
        } else {
            Ok(Header { kind: b[2], seq: u16_at(b, 4), len: u16_at(b, 6) })
        }
    }

    pub fn encode(kind: u8, seq: u16, len: u16) -> (r: [u8; HEADER_LEN])
        ensures
            r@ == Self::wire(kind, seq, len),
    {
        let s: [u8; 2] = u16_bytes(seq);
        let l: [u8; 2] = u16_bytes(len);
        let r: [u8; HEADER_LEN] = [MAGIC, VERSION, kind, 0, s[0], s[1], l[0], l[1]];
        assert(r@ =~= Self::wire(kind, seq, len));
        r
    }

    pub fn decode(b: &[u8]) -> (r: Result<Self, DecodeError>)
        ensures
            r == Self::from_wire(b@),
    {
        if b.len() < HEADER_LEN {
            return Err(DecodeError::Truncated);
        }
        if b[0] != MAGIC {
            return Err(DecodeError::BadMagic);
        }
        if b[1] != VERSION {
            return Err(DecodeError::VersionMismatch { got: b[1] });
        }
        let len: u16 = read_u16(b, 6);
        if len as usize > MAX_PAYLOAD {
            return Err(DecodeError::Oversized(len));
        }
        Ok(Header { kind: b[2], seq: read_u16(b, 4), len })
    }

    /// Decoding an encoded header gives its fields back, whatever follows it;
    /// only a length over the limit is refused.
    pub proof fn law_roundtrip(kind: u8, seq: u16, len: u16, rest: Seq<u8>)
        ensures
            Self::wire(kind, seq, len).len() == HEADER_LEN,
            Self::from_wire(Self::wire(kind, seq, len) + rest) == if len <= MAX_PAYLOAD {
                Ok::<Header, DecodeError>(Header { kind, seq, len })
            } else {
                Err(DecodeError::Oversized(len))
            },
    {
        let b = Self::wire(kind, seq, len) + rest;
        assert(b.subrange(4, 6) =~= le16(seq as int));
        assert(b.subrange(6, 8) =~= le16(len as int));
        lemma_u16_roundtrip(seq, b, 4);
        lemma_u16_roundtrip(len, b, 6);
    }
}

impl Header {
    /// What each byte of a header is for: 0x53, the version, the kind, a byte
    /// that stays zero, the sequence number and the payload's length, in which
    /// the first byte weighs least.
    pub proof fn law_what_each_byte_is_for(kind: u8, seq: u16, len: u16)
        ensures
            ({
                let w = Self::wire(kind, seq, len);
                &&& w.len() == 8
                &&& w[0] == 0x53
                &&& w[1] == 3
                &&& w[2] == kind
                &&& w[3] == 0
                &&& w[4] + 256 * w[5] == seq
                &&& w[6] + 256 * w[7] == len
            }),
    {
    }

    /// A header is read off the same bytes. It is one exactly where there are
    /// eight, the first two are 0x53 and the version, and the length is at most
    /// 512; what is wrong with it is told in that order.
    pub proof fn law_what_makes_a_header(b: Seq<u8>)
        ensures
            ({
                let len = b[6] + 256 * b[7];
                match Self::from_wire(b) {
                    Ok(h) => b.len() >= 8 && b[0] == 0x53 && b[1] == 3 && len <= 512 && h.kind
                        == b[2] && h.seq == b[4] + 256 * b[5] && h.len == len,
                    Err(DecodeError::Truncated) => b.len() < 8,
                    Err(DecodeError::BadMagic) => b.len() >= 8 && b[0] != 0x53,
                    Err(DecodeError::VersionMismatch { got }) => b.len() >= 8 && b[0] == 0x53
                        && b[1] != 3 && got == b[1],
                    Err(DecodeError::Oversized(n)) => b.len() >= 8 && b[0] == 0x53 && b[1] == 3
                        && len > 512 && n == len,
                }
            }),
    {
    }
}

} // verus!
