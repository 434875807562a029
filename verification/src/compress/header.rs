use vstd::prelude::*;

use super::{CompressionClass, CompressionError, PAGE_BYTES, spec_class_from_id, spec_class_id};
use crate::le::{le_u16, le_u32, u16_le_bytes, u32_le_bytes, lemma_u16_le_roundtrip, lemma_u32_le_roundtrip};

verus! {

/// Number of bytes an encoded header occupies in front of the payload.
pub const HEADER_BYTES: usize = 16;

/// Header magic: the bytes "HXCP" read as a little-endian word.
pub const MAGIC: u32 = 0x5043_5848;

/// Header format version.
pub const VERSION: u8 = 1;

/// Metadata in front of every encoded page.
#[derive(Copy, Clone)]
pub struct EncodedHeader {
    class: CompressionClass,
    payload_len: u16,
    checksum: u32,
}

/// The sixteen header bytes written for a class, payload length and checksum.
pub open spec fn spec_header_bytes(class: CompressionClass, payload_len: u16, checksum: u32) -> Seq<u8> {
    u32_le_bytes(MAGIC) + seq![VERSION, spec_class_id(class)] + u16_le_bytes(payload_len)
        + u16_le_bytes(PAGE_BYTES as u16) + u16_le_bytes(0) + u32_le_bytes(checksum)
}

/// What decoding the bytes `s` yields: the class, payload length and checksum, or the error.
pub open spec fn spec_decode_header(s: Seq<u8>) -> Result<(CompressionClass, u16, u32), CompressionError> {
    if s.len() < HEADER_BYTES {
        Err(CompressionError::TruncatedInput)
    } else if le_u32(s, 0) != MAGIC {
        Err(CompressionError::InvalidHeaderMagic)
    } else if s[4] != VERSION {
        Err(CompressionError::UnsupportedHeaderVersion)
    } else {
        match spec_class_from_id(s[5]) {
            Err(e) => Err(e),
            Ok(class) => {
                if le_u16(s, 8) != PAGE_BYTES {
                    Err(CompressionError::InvalidDecodedLength)
                } else {
                    Ok((class, le_u16(s, 6) as u16, le_u32(s, 12) as u32))
                }
            },
        }
    }
}

impl EncodedHeader {
    pub closed spec fn spec_class(self) -> CompressionClass {
        self.class
    }

    pub closed spec fn spec_payload_len(self) -> u16 {
        self.payload_len
    }

    pub closed spec fn spec_checksum(self) -> u32 {
        self.checksum
    }

    /// The header's fields as a triple.
    pub open spec fn fields(self) -> (CompressionClass, u16, u32) {
        (self.spec_class(), self.spec_payload_len(), self.spec_checksum())
    }

    pub fn new(class: CompressionClass, payload_len: u16, checksum: u32) -> (header: Self)
        ensures
            header.fields() == (class, payload_len, checksum),
    {
        Self { class, payload_len, checksum }
    }

    pub fn class(self) -> (class: CompressionClass)
        ensures
            class == self.spec_class(),
    {
        self.class
    }

    pub fn payload_len(self) -> (len: u16)
        ensures
            len == self.spec_payload_len(),
    {
        self.payload_len
    }

    pub fn checksum(self) -> (checksum: u32)
        ensures
            checksum == self.spec_checksum(),
    {
        self.checksum
    }

    /// Writes the header into the first sixteen bytes of `out`.
    pub fn encode_into(self, out: &mut [u8]) -> (result: Result<(), CompressionError>)
        ensures
            old(out)@.len() < HEADER_BYTES ==> result == Err::<(), CompressionError>(
                CompressionError::OutputTooSmall,
            ) && final(out)@ == old(out)@,
            old(out)@.len() >= HEADER_BYTES ==> result is Ok && final(out)@ == spec_header_bytes(
                self.spec_class(),
                self.spec_payload_len(),
                self.spec_checksum(),
            ) + old(out)@.subrange(HEADER_BYTES as int, old(out)@.len() as int),
    {
        if out.len() < HEADER_BYTES {
            return Err(CompressionError::OutputTooSmall);
        }
        let class_id = self.class.id();
        out[0] = 0x48;
        out[1] = 0x58;
        out[2] = 0x43;
        out[3] = 0x50;
        out[4] = VERSION;
        out[5] = class_id;
        out[6] = (self.payload_len % 256) as u8;
        out[7] = (self.payload_len / 256) as u8;
        out[8] = 0x00;
        out[9] = 0x10;
        out[10] = 0;
        out[11] = 0;
        let c = self.checksum;
        out[12] = (c % 256) as u8;
        out[13] = ((c / 256) % 256) as u8;
        out[14] = ((c / 65536) % 256) as u8;
        out[15] = (c / 16777216) as u8;
        proof {
            let lo = (c % 65536) as u16;
            let hi = (c / 65536) as u16;
            assert((lo % 256) as u8 == (c % 256) as u8);
            assert((lo / 256) as u8 == ((c / 256) % 256) as u8);
            assert((hi % 256) as u8 == ((c / 65536) % 256) as u8);
            assert((hi / 256) as u8 == (c / 16777216) as u8);
            assert(final(out)@ =~= spec_header_bytes(
                self.spec_class(),
                self.spec_payload_len(),
                self.spec_checksum(),
            ) + old(out)@.subrange(HEADER_BYTES as int, old(out)@.len() as int));
        }
        Ok(())
    }

    /// Parses a header from the first sixteen bytes of `input`.
    pub fn decode(input: &[u8]) -> (result: Result<Self, CompressionError>)
        ensures
            match result {
                Ok(header) => spec_decode_header(input@) == Ok::<
                    (CompressionClass, u16, u32),
                    CompressionError,
                >(header.fields()),
                Err(e) => spec_decode_header(input@) == Err::<
                    (CompressionClass, u16, u32),
                    CompressionError,
                >(e),
            },
    {
        if input.len() < HEADER_BYTES {
            return Err(CompressionError::TruncatedInput);
        }
        let magic = read_u32_le(input, 0);
        if magic != MAGIC {
            return Err(CompressionError::InvalidHeaderMagic);
        }
        let version = input[4];
        if version != VERSION {
            return Err(CompressionError::UnsupportedHeaderVersion);
        }
        let class = match CompressionClass::from_id(input[5]) {
            Ok(class) => class,
            Err(e) => return Err(e),
        };
        let payload_len = read_u16_le(input, 6);
        let decoded_len = read_u16_le(input, 8);
        if decoded_len != PAGE_BYTES as u16 {
            return Err(CompressionError::InvalidDecodedLength);
        }
        let checksum = read_u32_le(input, 12);
        Ok(Self { class, payload_len, checksum })
    }
}

/// Reads a little-endian `u16` at `offset`.
fn read_u16_le(input: &[u8], offset: usize) -> (value: u16)
    requires
        offset + 2 <= input.len(),
    ensures
        value == le_u16(input@, offset as int),
{
    input[offset] as u16 + (input[offset + 1] as u16) * 256
}

/// Reads a little-endian `u32` at `offset`.
fn read_u32_le(input: &[u8], offset: usize) -> (value: u32)
    requires
        offset + 4 <= input.len(),
    ensures
        value == le_u32(input@, offset as int),
{
    let lo = read_u16_le(input, offset) as u32;
    let hi = read_u16_le(input, offset + 2) as u32;
    lo + hi * 65536
}

/// Decoding the bytes written for a header gives back that header.
pub proof fn lemma_header_roundtrip(class: CompressionClass, payload_len: u16, checksum: u32, rest: Seq<u8>)
    ensures
        spec_decode_header(spec_header_bytes(class, payload_len, checksum) + rest) == Ok::<
            (CompressionClass, u16, u32),
            CompressionError,
        >((class, payload_len, checksum)),
{
    let s = spec_header_bytes(class, payload_len, checksum) + rest;
    assert(s.subrange(0, 4) =~= u32_le_bytes(MAGIC));
    lemma_u32_le_roundtrip(MAGIC, s, 0);
    assert(s.subrange(6, 8) =~= u16_le_bytes(payload_len));
    lemma_u16_le_roundtrip(payload_len, s, 6);
    assert(s.subrange(8, 10) =~= u16_le_bytes(PAGE_BYTES as u16));
    lemma_u16_le_roundtrip(PAGE_BYTES as u16, s, 8);
    assert(s.subrange(12, 16) =~= u32_le_bytes(checksum));
    lemma_u32_le_roundtrip(checksum, s, 12);
    assert(s[4] == VERSION);
    assert(s[5] == spec_class_id(class));
}

} // verus!
