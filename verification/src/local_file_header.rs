use vstd::prelude::*;

use crate::arj_error::ArjError;
use crate::byte_order::{le32, le32_at};
use crate::name_field::{byte_chars, find_nul, nul_index, string_of_bytes};

verus! {

/// The closed set of compression-method tags an entry can carry.
///
/// `CompressedMost`, `Compressed` and `CompressedFaster` differ historically
/// in compression effort, not algorithm: all three route to the same
/// external decoder configuration.  `CompressedFastest` is recognized but
/// not implemented.  Unrecognized numeric tags keep their raw value in
/// `Unknown`, preserving forward compatibility.
#[derive(Debug, Clone, Copy, PartialEq, Eq, Structural)]
pub enum CompressionMethod {
    /// No compression: the stored bytes are the data.
    Stored,
    /// Highest-effort variant of the external decoder's scheme.
    CompressedMost,
    /// Middle-effort variant of the same scheme.
    Compressed,
    /// Lower-effort variant of the same scheme.
    CompressedFaster,
    /// Lowest-effort variant; recognized but not implemented here.
    CompressedFastest,
    /// Marker for an entry that carries no data and no checksum.
    NoDataNoCrc,
    /// Marker for an entry that carries no data.
    NoData,
    /// Any other tag value, kept raw.
    Unknown(u8),
}

/// Whether the method routes the entry's data to the external decoder.
pub open spec fn routes_to_decoder(m: CompressionMethod) -> bool {
    m == CompressionMethod::CompressedMost || m == CompressionMethod::Compressed
        || m == CompressionMethod::CompressedFaster
}

/// The method a numeric compression tag selects.
pub open spec fn method_of_tag(tag: u8) -> CompressionMethod {
    if tag == 0 {
        CompressionMethod::Stored
    } else if tag == 1 {
        CompressionMethod::CompressedMost
    } else if tag == 2 {
        CompressionMethod::Compressed
    } else if tag == 3 {
        CompressionMethod::CompressedFaster
    } else if tag == 4 {
        CompressionMethod::CompressedFastest
    } else if tag == 8 {
        CompressionMethod::NoDataNoCrc
    } else if tag == 9 {
        CompressionMethod::NoData
    } else {
        CompressionMethod::Unknown(tag)
    }
}

impl CompressionMethod {
    /// Maps a numeric tag to the method it selects.
    pub fn from_tag(tag: u8) -> (r: CompressionMethod)
        ensures
            r == method_of_tag(tag),
    {
        match tag {
            0 => CompressionMethod::Stored,
            1 => CompressionMethod::CompressedMost,
            2 => CompressionMethod::Compressed,
            3 => CompressionMethod::CompressedFaster,
            4 => CompressionMethod::CompressedFastest,
            8 => CompressionMethod::NoDataNoCrc,
            9 => CompressionMethod::NoData,
            _ => CompressionMethod::Unknown(tag),
        }
    }
}

/// The abstract content of a per-entry header.
pub ghost struct EntryModel {
    /// The stored name.
    pub name: Seq<char>,
    /// Size of the entry's data before compression.
    pub original_size: u32,
    /// Size of the entry's data as stored in the archive.
    pub compressed_size: u32,
    /// How the entry's data is compressed.
    pub method: CompressionMethod,
    /// Checksum of the original data, as the header records it.
    pub crc: u32,
}

/// Least payload length that holds all fixed fields of a per-entry header.
pub const LOCAL_FIXED_LEN: usize = 30;

/// Byte offset of the compression-method tag within the payload.
pub const METHOD_OFFSET: usize = 5;

/// Byte offset of the 32-bit compressed size within the payload.
pub const COMPRESSED_SIZE_OFFSET: usize = 12;

/// Byte offset of the 32-bit original size within the payload.
pub const ORIGINAL_SIZE_OFFSET: usize = 16;

/// Byte offset of the entry's 32-bit data checksum within the payload.
pub const CRC_OFFSET: usize = 20;

/// Whether a nonempty, checksum-valid payload parses as a per-entry header:
/// the fixed fields are present, the name offset declared in its first byte
/// lies inside the payload, and the name is zero-terminated.
pub open spec fn local_header_ok(b: Seq<u8>) -> bool {
    &&& b.len() >= LOCAL_FIXED_LEN
    &&& b[0] as int <= b.len()
    &&& nul_index(b, b[0] as int) is Some
}

/// The stored name of a well-formed per-entry header payload: the bytes
/// from the declared offset up to the terminating zero.
pub open spec fn local_name(b: Seq<u8>) -> Seq<char>
    recommends
        local_header_ok(b),
{
    byte_chars(b.subrange(b[0] as int, nul_index(b, b[0] as int)->Some_0))
}

/// The entry a well-formed per-entry header payload describes.
pub open spec fn local_model(b: Seq<u8>) -> EntryModel
    recommends
        local_header_ok(b),
{
    EntryModel {
        name: local_name(b),
        original_size: le32_at(b, ORIGINAL_SIZE_OFFSET as int),
        compressed_size: le32_at(b, COMPRESSED_SIZE_OFFSET as int),
        method: method_of_tag(b[METHOD_OFFSET as int]),
        crc: le32_at(b, CRC_OFFSET as int),
    }
}

/// One entry's descriptor: the stored name, both sizes, the compression
/// method, and the data checksum the header records.  Created fresh by each
/// `get_next_entry` call; consumed by `skip` or `read`.
#[derive(Debug, Clone)]
pub struct LocalFileHeader {
    /// The stored name.
    pub name: String,
    /// Size of the entry's data before compression.
    pub original_size: u32,
    /// Size of the entry's data as stored in the archive.
    pub compressed_size: u32,
    /// How the entry's data is compressed.
    pub compression_method: CompressionMethod,
    /// Checksum of the original data, as the header records it.
    pub original_crc: u32,
}

impl View for LocalFileHeader {
    type V = EntryModel;

    open spec fn view(&self) -> EntryModel {
        EntryModel {
            name: self.name@,
            original_size: self.original_size,
            compressed_size: self.compressed_size,
            method: self.compression_method,
            crc: self.original_crc,
        }
    }
}

impl LocalFileHeader {
    /// Interprets a checksum-validated payload as a per-entry header.
    ///
    /// An empty payload is the end-of-entries marker, reported as absence
    /// rather than an error.  A nonempty payload without the fixed fields
    /// or a terminated name is malformed.  The payload's integrity was
    /// already checked; nothing is re-validated here.
    pub fn load_from(bytes: &Vec<u8>) -> (r: Result<Option<LocalFileHeader>, ArjError>)
        ensures
            match r {
                Ok(oh) => match oh {
                    None => bytes@.len() == 0,
                    Some(h) => {
                        &&& bytes@.len() > 0
                        &&& local_header_ok(bytes@)
                        &&& h@ == local_model(bytes@)
                    },
                },
                Err(e) => {
                    &&& bytes@.len() > 0
                    &&& !local_header_ok(bytes@)
                    &&& e == ArjError::MalformedHeader
                },
            },
    {
        let len: usize = bytes.len();
        if len == 0 {
            return Ok(None);
        }
        if len < LOCAL_FIXED_LEN {
            return Err(ArjError::MalformedHeader);
        }
        let off = bytes[0] as usize;
        if off > len {
            return Err(ArjError::MalformedHeader);
        }
        let nul = match find_nul(bytes, off) {
            Some(j) => j,
            None => {
                return Err(ArjError::MalformedHeader);
            },
        };
        let name = string_of_bytes(bytes, off, nul);
        let compression_method = CompressionMethod::from_tag(bytes[METHOD_OFFSET]);
        let compressed_size = le32(
            bytes[COMPRESSED_SIZE_OFFSET],
            bytes[COMPRESSED_SIZE_OFFSET + 1],
            bytes[COMPRESSED_SIZE_OFFSET + 2],
            bytes[COMPRESSED_SIZE_OFFSET + 3],
        );
        let original_size = le32(
            bytes[ORIGINAL_SIZE_OFFSET],
            bytes[ORIGINAL_SIZE_OFFSET + 1],
            bytes[ORIGINAL_SIZE_OFFSET + 2],
            bytes[ORIGINAL_SIZE_OFFSET + 3],
        );
        let original_crc = le32(
            bytes[CRC_OFFSET],
            bytes[CRC_OFFSET + 1],
            bytes[CRC_OFFSET + 2],
            bytes[CRC_OFFSET + 3],
        );
        Ok(
            Some(
                LocalFileHeader {
                    name,
                    original_size,
                    compressed_size,
                    compression_method,
                    original_crc,
                },
            ),
        )
    }
}

} // verus!
