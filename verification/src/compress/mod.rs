pub mod checksum;
pub mod codec;
pub mod header;
pub mod store;

use vstd::prelude::*;

verus! {

/// Size in bytes of one page handled by the compression layer.
pub const PAGE_BYTES: usize = 4096;

/// How a page is represented once encoded.
#[derive(Copy, Clone, PartialEq, Eq, Structural, Debug)]
pub enum CompressionClass {
    /// Every byte of the page is zero; no payload.
    Zero,
    /// Every byte of the page equals one value; a one-byte payload.
    Same,
    /// Dictionary-coded page; reserved, not produced by this codec.
    Sxrc,
    /// The page is stored verbatim.
    Raw,
}

/// Errors of the page codec.
#[derive(Copy, Clone, PartialEq, Eq, Structural, Debug)]
pub enum CompressionError {
    InvalidPayloadLength,
    OutputTooSmall,
    UnsupportedClass,
    ChecksumMismatch,
    TruncatedInput,
    InvalidHeaderMagic,
    UnsupportedHeaderVersion,
    InvalidDecodedLength,
    InvalidClassId,
}

/// The on-disk identifier of each class.
pub open spec fn spec_class_id(class: CompressionClass) -> u8 {
    match class {
        CompressionClass::Zero => 0,
        CompressionClass::Same => 1,
        CompressionClass::Sxrc => 2,
        CompressionClass::Raw => 3,
    }
}

/// The class a stored identifier names, if any.
pub open spec fn spec_class_from_id(id: u8) -> Result<CompressionClass, CompressionError> {
    if id == 0 {
        Ok(CompressionClass::Zero)
    } else if id == 1 {
        Ok(CompressionClass::Same)
    } else if id == 2 {
        Ok(CompressionClass::Sxrc)
    } else if id == 3 {
        Ok(CompressionClass::Raw)
    } else {
        Err(CompressionError::InvalidClassId)
    }
}

impl CompressionClass {
    /// The identifier stored in an encoded header.
    pub fn id(self) -> (id: u8)
        ensures
            id == spec_class_id(self),
    {
        match self {
            CompressionClass::Zero => 0,
            CompressionClass::Same => 1,
            CompressionClass::Sxrc => 2,
            CompressionClass::Raw => 3,
        }
    }

    /// The class named by a stored identifier.
    pub fn from_id(id: u8) -> (result: Result<CompressionClass, CompressionError>)
        ensures
            result == spec_class_from_id(id),
    {
        if id == 0 {
            Ok(CompressionClass::Zero)
        } else if id == 1 {
            Ok(CompressionClass::Same)
        } else if id == 2 {
            Ok(CompressionClass::Sxrc)
        } else if id == 3 {
            Ok(CompressionClass::Raw)
        } else {
            Err(CompressionError::InvalidClassId)
        }
    }
}

/// Reading back the identifier of a class gives the class.
pub proof fn lemma_class_id_roundtrip(class: CompressionClass)
    ensures
        spec_class_from_id(spec_class_id(class)) == Ok::<CompressionClass, CompressionError>(class),
{
}

/// An encoded page: its class and the number of bytes of the caller's buffer it occupies.
#[derive(Copy, Clone, PartialEq, Eq, Structural, Debug)]
pub struct EncodedPage {
    pub class: CompressionClass,
    pub len: usize,
}

impl EncodedPage {
    pub fn new(class: CompressionClass, len: usize) -> (page: EncodedPage)
        ensures
            page.class == class,
            page.len == len,
    {
        EncodedPage { class, len }
    }
}

} // verus!
