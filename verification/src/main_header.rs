use vstd::prelude::*;

use crate::arj_error::ArjError;
use crate::name_field::{byte_chars, find_nul, nul_index, string_of_bytes};

verus! {

/// Least payload length that holds all fixed fields of the archive header.
pub const MAIN_FIXED_LEN: usize = 34;

/// Whether a checksum-valid payload parses as the archive-level header:
/// the fixed fields are present, the name offset declared in its first byte
/// lies inside the payload, and the name is zero-terminated.
pub open spec fn main_header_ok(b: Seq<u8>) -> bool {
    &&& b.len() >= MAIN_FIXED_LEN
    &&& b[0] as int <= b.len()
    &&& nul_index(b, b[0] as int) is Some
}

/// The stored archive name of a well-formed archive header payload.
pub open spec fn main_name(b: Seq<u8>) -> Seq<char>
    recommends
        main_header_ok(b),
{
    byte_chars(b.subrange(b[0] as int, nul_index(b, b[0] as int)->Some_0))
}

/// The archive-level identity: the stored archive name.  Created once when
/// the archive is opened and immutable thereafter.
#[derive(Debug, Clone)]
pub struct MainHeader {
    /// The stored archive name.
    pub name: String,
}

impl View for MainHeader {
    type V = Seq<char>;

    open spec fn view(&self) -> Seq<char> {
        self.name@
    }
}

impl MainHeader {
    /// Interprets a checksum-validated payload as the archive-level header.
    /// A payload without the fixed fields or a terminated name is
    /// malformed.  The payload's integrity was already checked; nothing is
    /// re-validated here.
    pub fn load_from(bytes: &Vec<u8>) -> (r: Result<MainHeader, ArjError>)
        ensures
            match r {
                Ok(h) => {
                    &&& main_header_ok(bytes@)
                    &&& h@ == main_name(bytes@)
                },
                Err(e) => {
                    &&& !main_header_ok(bytes@)
                    &&& e == ArjError::MalformedHeader
                },
            },
    {
        let len: usize = bytes.len();
        if len < MAIN_FIXED_LEN {
            return Err(ArjError::MalformedHeader);
        }
        let off = bytes[0] as usize;
        if off > len {
            return Err(ArjError::MalformedHeader);
        }
        let nul = match find_nul(bytes, off) {
            Some(j) => j,
            None => {
                return Err(ArjError::MalformedHeader);
            },
        };
        let name = string_of_bytes(bytes, off, nul);
        Ok(MainHeader { name })
    }
}

} // verus!
