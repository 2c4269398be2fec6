use vstd::prelude::*;

verus! {

/// The ways an archive operation can fail.
///
/// Every failure is fatal to the operation that raised it; nothing is
/// retried.  After `Io` or `Integrity` the stream position is no longer
/// trustworthy and the reader should be discarded.
#[derive(Debug, Clone, Copy, PartialEq, Eq, Structural)]
pub enum ArjError {
    /// The stream ended before a read completed, or a seek target lay
    /// beyond its end.
    Io,
    /// A header block's trailing checksum does not match the checksum of
    /// its payload, or the external decoder rejected an entry's data.
    Integrity,
    /// A header block declares a payload larger than the format allows.
    OversizedHeader,
    /// The stream's very first header block is absent: an archive without
    /// any headers is invalid.
    EmptyArchive,
    /// A checksum-valid payload could not be interpreted as a header.
    MalformedHeader,
    /// The entry carries a compression tag (kept raw for diagnosis) that
    /// names no scheme this reader handles.
    UnsupportedMethod(u8),
    /// The entry's compression method is recognized by the format but not
    /// implemented here; the entry itself is intact.
    NotSupported,
}

} // verus!
