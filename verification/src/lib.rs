//! Reader for the ARJ archive container format.
//!
//! The library locates and validates magic-delimited, checksum-trailed header
//! blocks, parses the archive-level header and the per-entry headers, and
//! exposes each entry's raw or decompressed payload bytes.  The caller hands
//! the archive over as plain bytes; the CRC-32 primitive and the LZ-style
//! decoder for compressed entries are outside collaborators.

pub mod arj_archive;
pub mod arj_error;
pub mod byte_order;
pub mod checksum;
pub mod decoder;
pub mod header_block;
pub mod local_file_header;
pub mod main_header;
pub mod name_field;
