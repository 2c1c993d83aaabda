//! Firmware updates over the link.

use vstd::prelude::*;

use crate::bytes::{le32, put, read_u32, splice, u32_at, u32_bytes};
use crate::text::{padded_text, read_padded};

verus! {

/// Most image bytes one message carries: a payload less the offset before them.
pub const OTA_CHUNK_MAX: usize = 508;

/// What an update announces before the first byte of it.
#[derive(Debug, Clone, Copy, PartialEq, Eq)]
pub struct OtaBegin {
    /// Bytes of the whole image.
    pub len: u32,
    /// Digest of the whole image.
    pub sha256: [u8; 32],
}

impl OtaBegin {
    pub const WIRE_LEN: usize = 36;

    /// The announcement on the wire.
    pub open spec fn wire(len: u32, sha256: Seq<u8>) -> Seq<u8> {
        le32(len as int) + sha256
    }

    /// Write the announcement at the start of `out`.
    pub fn encode_into(&self, out: &mut [u8])
        requires
            old(out)@.len() >= Self::WIRE_LEN,
        ensures
            final(out)@ == splice(old(out)@, 0, Self::wire(self.len, self.sha256@)),
    {
        let ghost before = out@;
        put(out, 0, u32_bytes(self.len).as_slice());
        put(out, 4, self.sha256.as_slice());
        assert(out@ =~= splice(before, 0, Self::wire(self.len, self.sha256@)));
    }
}

/// A run of image bytes.
pub struct OtaChunk;

impl OtaChunk {
    /// A run of image bytes on the wire, after its place in the image.
    pub open spec fn wire(offset: u32, data: Seq<u8>) -> Seq<u8> {
        le32(offset as int) + data
    }

    /// Write the run at the start of `out`; returns how many bytes that took.
    pub fn encode_into(offset: u32, data: &[u8], out: &mut [u8]) -> (used: usize)
        requires
            old(out)@.len() >= 4 + data@.len(),
        ensures
            used == 4 + data@.len(),
            final(out)@ == splice(old(out)@, 0, Self::wire(offset, data@)),
    {
        let ghost before = out@;
        let room: usize = out.len();
        put(out, 0, u32_bytes(offset).as_slice());
        put(out, 4, data);
        assert(out@ =~= splice(before, 0, Self::wire(offset, data@)));
        4 + data.len()
    }
}

/// How far the dongle has got with an update.
#[derive(Debug, Clone, Copy, PartialEq, Eq, Structural)]
pub struct OtaStatus {
    /// Image bytes written so far.
    pub received: u32,
}

impl OtaStatus {
    pub const WIRE_LEN: usize = 4;

    /// The status on the wire.
    pub open spec fn wire(self) -> Seq<u8> {
        le32(self.received as int)
    }

    /// The status that `b` starts with.
    pub open spec fn from_wire(b: Seq<u8>) -> Option<OtaStatus> {
        if b.len() < 4 {
            None
        } else {
            Some(OtaStatus { received: u32_at(b, 0) })
        }
    }

    pub fn decode(b: &[u8]) -> (r: Option<Self>)
        ensures
            r == Self::from_wire(b@),
    {
        if b.len() < 4 {
            return None;
        }
        Some(OtaStatus { received: read_u32(b, 0) })
    }

    /// A status on the wire is read as it was meant, whatever follows it.
    pub proof fn law_roundtrip(self, rest: Seq<u8>)
        ensures
            Self::from_wire(self.wire() + rest) == Some(self),
    {
        let b = self.wire() + rest;
        assert(b.subrange(0, 4) =~= le32(self.received as int));
        crate::bytes::lemma_u32_roundtrip(self.received, b, 0);
    }
}

/// What the dongle is running.
#[derive(Debug, Clone, Copy, PartialEq, Eq)]
pub struct FirmwareInfo {
    /// The version string, padded with NULs.
    pub version: [u8; 32],
    /// The image has not confirmed itself yet.
    pub pending_verify: bool,
    /// There is a second app slot to write an update to.
    pub ota_capable: bool,
}

impl FirmwareInfo {
    pub const WIRE_LEN: usize = 33;

    /// `b` starts with this: a flag byte, then the version.
    pub open spec fn read_from(self, b: Seq<u8>) -> bool {
        &&& b.len() >= 33
        &&& self.pending_verify == (b[0] & 0x01 != 0)
        &&& self.ota_capable == (b[0] & 0x02 != 0)
        &&& self.version@ == b.subrange(1, 33)
    }

    pub fn decode(b: &[u8]) -> (r: Option<Self>)
        ensures
            r is Some <==> b@.len() >= Self::WIRE_LEN,
            r matches Some(info) ==> info.read_from(b@),
    {
        if b.len() < 33 {
            return None;
        }
        let mut version: [u8; 32] = [0; 32];
        let mut i: usize = 0;
        while i < 32
            invariant
                i <= 32,
                b@.len() >= 33,
                forall|j: int| 0 <= j < i ==> version@[j] == b@[1 + j],
            decreases 32 - i,
        {
            version[i] = b[1 + i];
            i = i + 1;
        }
        assert(version@ =~= b@.subrange(1, 33));
        Some(
            FirmwareInfo {
                version,
                pending_verify: b[0] & 0x01 != 0,
                ota_capable: b[0] & 0x02 != 0,
            },
        )
    }

    /// The version up to its padding; empty where the bytes are not text.
    pub fn version_str(&self) -> (r: &str)
        ensures
            r@ == padded_text(self.version@),
    {
        read_padded(self.version.as_slice())
    }
}

/// What each byte of an update's messages is for: a length or an offset of four
/// bytes, the first of which weighs least, and behind it the digest or the image
/// bytes.
pub proof fn law_what_each_byte_is_for(n: u32, data: Seq<u8>, i: int)
    requires
        0 <= i < data.len(),
    ensures
        ({
            let begin = OtaBegin::wire(n, data);
            let chunk = OtaChunk::wire(n, data);
            &&& begin.len() == 4 + data.len()
            &&& begin[0] + 256 * begin[1] + 65536 * begin[2] + 16777216 * begin[3] == n
            &&& begin[4 + i] == data[i]
            &&& chunk.len() == 4 + data.len()
            &&& chunk[0] + 256 * chunk[1] + 65536 * chunk[2] + 16777216 * chunk[3] == n
            &&& chunk[4 + i] == data[i]
        }),
{
    crate::bytes::law_the_first_byte_weighs_least(n as int);
}

/// How far the dongle has got is read off four bytes, the first of which weighs
/// least.
pub proof fn law_progress_is_four_bytes(b: Seq<u8>)
    ensures
        OtaStatus::from_wire(b) is None <==> b.len() < 4,
        OtaStatus::from_wire(b) matches Some(s) ==> s.received == b[0] + 256 * b[1] + 65536 * b[2]
            + 16777216 * b[3],
{
}

/// What the dongle runs is read off its first byte, whose lowest bit says that
/// the image has not confirmed itself and whose next bit says that there is a
/// second slot, and off the thirty-two behind it, which name the version.
pub proof fn law_what_the_dongle_runs(info: FirmwareInfo, b: Seq<u8>, i: int)
    requires
        info.read_from(b),
        0 <= i < 32,
    ensures
        b.len() >= 33,
        info.pending_verify <==> b[0] % 2 == 1,
        info.ota_capable <==> b[0] / 2 % 2 == 1,
        info.version@[i] == b[1 + i],
{
    let f = b[0];
    assert((f & 1 != 0 <==> f % 2 == 1) && (f & 2 != 0 <==> f / 2 % 2 == 1)) by (bit_vector);
}

} // verus!
