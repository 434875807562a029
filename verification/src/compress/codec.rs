use vstd::prelude::*;

use super::checksum::{fnv1a32, spec_fnv1a32};
use super::header::{EncodedHeader, HEADER_BYTES, spec_decode_header, spec_header_bytes, lemma_header_roundtrip};
use super::{CompressionClass, CompressionError, EncodedPage, PAGE_BYTES};

verus! {

/// Every byte of `p` is zero.
pub open spec fn all_zero(p: Seq<u8>) -> bool {
    forall|i: int| 0 <= i < p.len() ==> p[i] == 0
}

/// Every byte of `p` equals `b`.
pub open spec fn all_equal(p: Seq<u8>, b: u8) -> bool {
    forall|i: int| 0 <= i < p.len() ==> p[i] == b
}

/// The class a page is encoded with.
pub open spec fn spec_classify(p: Seq<u8>) -> CompressionClass {
    if all_zero(p) {
        CompressionClass::Zero
    } else if all_equal(p, p[0]) {
        CompressionClass::Same
    } else {
        CompressionClass::Raw
    }
}

/// Payload length stored for each class.
pub open spec fn spec_payload_len(class: CompressionClass) -> nat {
    match class {
        CompressionClass::Zero => 0,
        CompressionClass::Same => 1,
        CompressionClass::Sxrc => 0,
        CompressionClass::Raw => PAGE_BYTES as nat,
    }
}

/// The payload stored for page `p` under `class`.
pub open spec fn spec_payload(p: Seq<u8>, class: CompressionClass) -> Seq<u8> {
    match class {
        CompressionClass::Same => seq![p[0]],
        CompressionClass::Raw => p,
        _ => Seq::empty(),
    }
}

/// The full encoding of page `p`: header followed by payload.
pub open spec fn spec_encode_page(p: Seq<u8>) -> Seq<u8> {
    let class = spec_classify(p);
    let payload = spec_payload(p, class);
    spec_header_bytes(class, spec_payload_len(class) as u16, spec_fnv1a32(payload)) + payload
}

/// A page of `PAGE_BYTES` copies of `b`.
pub open spec fn filled_page(b: u8) -> Seq<u8> {
    Seq::new(PAGE_BYTES as nat, |i: int| b)
}

/// What decoding the bytes `s` yields: the class and the page, or the error.
pub open spec fn spec_decode_page(s: Seq<u8>) -> Result<(CompressionClass, Seq<u8>), CompressionError> {
    match spec_decode_header(s) {
        Err(e) => Err(e),
        Ok((class, payload_len, checksum)) => {
            if s.len() != HEADER_BYTES + payload_len {
                Err(CompressionError::InvalidPayloadLength)
            } else {
                let payload = s.subrange(HEADER_BYTES as int, s.len() as int);
                if spec_fnv1a32(payload) != checksum {
                    Err(CompressionError::ChecksumMismatch)
                } else {
                    match class {
                        CompressionClass::Zero => if payload.len() != 0 {
                            Err(CompressionError::InvalidPayloadLength)
                        } else {
                            Ok((class, filled_page(0)))
                        },
                        CompressionClass::Same => if payload.len() != 1 {
                            Err(CompressionError::InvalidPayloadLength)
                        } else {
                            Ok((class, filled_page(payload[0])))
                        },
                        CompressionClass::Raw => if payload.len() != PAGE_BYTES {
                            Err(CompressionError::InvalidPayloadLength)
                        } else {
                            Ok((class, payload))
                        },
                        CompressionClass::Sxrc => Err(CompressionError::UnsupportedClass),
                    }
                }
            }
        },
    }
}

/// Encodes `page` into the front of `scratch`.
pub fn encode_page(page: &[u8; PAGE_BYTES], scratch: &mut [u8]) -> (result: Result<EncodedPage, CompressionError>)
    ensures
        ({
            let encoded = spec_encode_page(page@);
            &&& old(scratch)@.len() < encoded.len() ==> result == Err::<EncodedPage, CompressionError>(
                CompressionError::OutputTooSmall,
            ) && final(scratch)@ == old(scratch)@
            &&& old(scratch)@.len() >= encoded.len() ==> result == Ok::<EncodedPage, CompressionError>(
                EncodedPage { class: spec_classify(page@), len: encoded.len() as usize },
            ) && final(scratch)@ == encoded + old(scratch)@.subrange(
                encoded.len() as int,
                old(scratch)@.len() as int,
            )
        }),
{
    let ghost p = page@;
    let class = classify_page(page);
    let payload_len = payload_len_for_class(class);
    let encoded_len = HEADER_BYTES + payload_len;
    if scratch.len() < encoded_len {
        return Err(CompressionError::OutputTooSmall);
    }
    let ghost before = scratch@;
    match class {
        CompressionClass::Zero => {},
        CompressionClass::Same => {
            scratch[HEADER_BYTES] = page[0];
        },
        CompressionClass::Raw => {
            let mut i: usize = 0;
            while i < PAGE_BYTES
                invariant
                    i <= PAGE_BYTES,
                    p == page@,
                    p.len() == PAGE_BYTES,
                    scratch@.len() == before.len(),
                    before.len() >= HEADER_BYTES + PAGE_BYTES,
                    forall|j: int| 0 <= j < HEADER_BYTES ==> scratch@[j] == before[j],
                    forall|j: int| 0 <= j < i ==> scratch@[HEADER_BYTES + j] == p[j],
                    forall|j: int| HEADER_BYTES + i <= j < scratch@.len() ==> scratch@[j] == before[j],
                decreases PAGE_BYTES - i,
            {
                scratch[HEADER_BYTES + i] = page[i];
                i = i + 1;
            }
        },
        CompressionClass::Sxrc => {
            return Err(CompressionError::UnsupportedClass);
        },
    }
    let ghost payload = spec_payload(p, class);
    let checksum = fnv1a32(&scratch[HEADER_BYTES..encoded_len]);
    proof {
        assert(scratch@.subrange(HEADER_BYTES as int, encoded_len as int) =~= payload);
    }
    let header = EncodedHeader::new(class, payload_len as u16, checksum);
    let ghost mid = scratch@;
    let _ = header.encode_into(scratch);
    proof {
        assert(mid.subrange(HEADER_BYTES as int, mid.len() as int) =~= payload + before.subrange(
            encoded_len as int,
            before.len() as int,
        ));
        assert(scratch@ =~= spec_encode_page(p) + before.subrange(encoded_len as int, before.len() as int));
    }
    Ok(EncodedPage::new(class, encoded_len))
}

/// Decodes an encoded page into `out`, returning its class.
pub fn decode_page(encoded: &[u8], out: &mut [u8; PAGE_BYTES]) -> (result: Result<CompressionClass, CompressionError>)
    ensures
        match spec_decode_page(encoded@) {
            Ok((class, page)) => result == Ok::<CompressionClass, CompressionError>(class) && final(out)@ == page,
            Err(e) => result == Err::<CompressionClass, CompressionError>(e) && final(out)@ == old(out)@,
        },
{
    let header = match EncodedHeader::decode(encoded) {
        Ok(header) => header,
        Err(e) => return Err(e),
    };
    let payload_len = header.payload_len() as usize;
    let encoded_len = HEADER_BYTES + payload_len;
    if encoded.len() != encoded_len {
        return Err(CompressionError::InvalidPayloadLength);
    }
    let payload = &encoded[HEADER_BYTES..encoded_len];
    if fnv1a32(payload) != header.checksum() {
        return Err(CompressionError::ChecksumMismatch);
    }
    let class = header.class();
    match class {
        CompressionClass::Zero => {
            if payload.len() != 0 {
                return Err(CompressionError::InvalidPayloadLength);
            }
            fill_page(out, 0);
        },
        CompressionClass::Same => {
            if payload.len() != 1 {
                return Err(CompressionError::InvalidPayloadLength);
            }
            fill_page(out, payload[0]);
        },
        CompressionClass::Raw => {
            if payload.len() != PAGE_BYTES {
                return Err(CompressionError::InvalidPayloadLength);
            }
            let mut i: usize = 0;
            while i < PAGE_BYTES
                invariant
                    i <= PAGE_BYTES,
                    payload@.len() == PAGE_BYTES,
                    out@.len() == PAGE_BYTES,
                    forall|j: int| 0 <= j < i ==> out@[j] == payload@[j],
                decreases PAGE_BYTES - i,
            {
                out[i] = payload[i];
                i = i + 1;
            }
            proof {
                assert(out@ =~= payload@);
            }
        },
        CompressionClass::Sxrc => {
            return Err(CompressionError::UnsupportedClass);
        },
    }
    Ok(class)
}

/// Sets every byte of `out` to `b`.
fn fill_page(out: &mut [u8; PAGE_BYTES], b: u8)
    ensures
        final(out)@ == filled_page(b),
{
    let mut i: usize = 0;
    while i < PAGE_BYTES
        invariant
            i <= PAGE_BYTES,
            out@.len() == PAGE_BYTES,
            forall|j: int| 0 <= j < i ==> out@[j] == b,
        decreases PAGE_BYTES - i,
    {
        out[i] = b;
        i = i + 1;
    }
    proof {
        assert(out@ =~= filled_page(b));
    }
}

/// Chooses the class `page` is encoded with.
fn classify_page(page: &[u8; PAGE_BYTES]) -> (class: CompressionClass)
    ensures
        class == spec_classify(page@),
{
    let first = page[0];
    let mut all_zero_so_far = true;
    let mut i: usize = 0;
    while i < PAGE_BYTES
        invariant
            i <= PAGE_BYTES,
            page@.len() == PAGE_BYTES,
            all_zero_so_far <==> (forall|j: int| 0 <= j < i ==> page@[j] == 0),
        decreases PAGE_BYTES - i,
    {
        if page[i] != 0 {
            all_zero_so_far = false;
        }
        i = i + 1;
    }
    if all_zero_so_far {
        return CompressionClass::Zero;
    }
    let mut all_same_so_far = true;
    i = 0;
    while i < PAGE_BYTES
        invariant
            i <= PAGE_BYTES,
            page@.len() == PAGE_BYTES,
            first == page@[0],
            all_same_so_far <==> (forall|j: int| 0 <= j < i ==> page@[j] == first),
        decreases PAGE_BYTES - i,
    {
        if page[i] != first {
            all_same_so_far = false;
        }
        i = i + 1;
    }
    if all_same_so_far {
        return CompressionClass::Same;
    }
    CompressionClass::Raw
}

/// Number of payload bytes stored for `class`.
fn payload_len_for_class(class: CompressionClass) -> (len: usize)
    ensures
        len == spec_payload_len(class),
{
    match class {
        CompressionClass::Zero => 0,
        CompressionClass::Same => 1,
        CompressionClass::Sxrc => 0,
        CompressionClass::Raw => PAGE_BYTES,
    }
}

/// Decoding the encoding of any page gives back its class and the page itself.
pub proof fn lemma_encode_decode_roundtrip(p: Seq<u8>)
    requires
        p.len() == PAGE_BYTES,
    ensures
        spec_decode_page(spec_encode_page(p)) == Ok::<(CompressionClass, Seq<u8>), CompressionError>(
            (spec_classify(p), p),
        ),
{
    let class = spec_classify(p);
    let payload = spec_payload(p, class);
    let s = spec_encode_page(p);
    lemma_header_roundtrip(class, spec_payload_len(class) as u16, spec_fnv1a32(payload), payload);
    assert(s.subrange(HEADER_BYTES as int, s.len() as int) =~= payload);
    match class {
        CompressionClass::Zero => {
            assert(p =~= filled_page(0));
        },
        CompressionClass::Same => {
            assert(p =~= filled_page(p[0]));
        },
        _ => {},
    }
}

/// The encoding of a page is its header followed by the payload of its class.
pub proof fn lemma_encoded_len(p: Seq<u8>)
    requires
        p.len() == PAGE_BYTES,
    ensures
        spec_encode_page(p).len() == HEADER_BYTES + spec_payload_len(spec_classify(p)),
        spec_encode_page(p).len() <= HEADER_BYTES + PAGE_BYTES,
{
    let class = spec_classify(p);
    assert(spec_payload(p, class).len() == spec_payload_len(class));
}

} // verus!
