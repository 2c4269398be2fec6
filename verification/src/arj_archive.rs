use vstd::prelude::*;

use crate::arj_error::ArjError;
use crate::decoder::{decode_compressed, lh_decoded};
use crate::header_block::{
    block_read, copy_range, ext_chain, header_read, lemma_block_read_bounds,
    lemma_ext_chain_bounds, lemma_scan_magic_bounds, read_extended_headers, read_header,
    scan_magic,
};
use crate::local_file_header::{
    local_header_ok, local_model, routes_to_decoder, CompressionMethod, EntryModel,
    LocalFileHeader,
};
use crate::main_header::{main_header_ok, main_name, MainHeader};

verus! {

/// Opening an archive: read the first top-level header block, which must
/// be present (an archive without any header is invalid), parse it as the
/// archive-level header, then drain its chain of extended headers.  On
/// success the result carries the archive name and the cursor position of
/// the first entry's header block.
pub open spec fn open_read(d: Seq<u8>) -> Result<(Seq<char>, int), ArjError> {
    match header_read(d, 0) {
        Err(e) => Err(e),
        Ok((payload, q)) => {
            if payload.len() == 0 {
                Err(ArjError::EmptyArchive)
            } else if !main_header_ok(payload) {
                Err(ArjError::MalformedHeader)
            } else {
                match ext_chain(d, q) {
                    Err(e) => Err(e),
                    Ok((blocks, end)) => Ok((main_name(payload), end)),
                }
            }
        },
    }
}

/// One step of the entry iteration from cursor `p`: read one top-level
/// header block; an absent block (declared size zero) ends the entries
/// without error; otherwise parse the payload as a per-entry header and
/// drain that entry's chain of extended headers.  On success the result
/// carries the entry — or `None` at the end of the entries — and the new
/// cursor position.
pub open spec fn next_entry_read(d: Seq<u8>, p: int) -> Result<
    (Option<EntryModel>, int),
    ArjError,
> {
    match header_read(d, p) {
        Err(e) => Err(e),
        Ok((payload, q)) => {
            if payload.len() == 0 {
                Ok((None, q))
            } else if !local_header_ok(payload) {
                Err(ArjError::MalformedHeader)
            } else {
                match ext_chain(d, q) {
                    Err(e) => Err(e),
                    Ok((blocks, end)) => Ok((Some(local_model(payload)), end)),
                }
            }
        },
    }
}

/// Reading one entry's data with the cursor at `p`: take exactly
/// `compressed_size` bytes, then dispatch on the compression method.
/// Stored bytes pass through unchanged; the three decoder-routed variants
/// ask the external decoder for exactly `original_size` bytes, and its
/// rejection is an integrity failure; the unimplemented variant is
/// distinguished from the data-less and unknown tags, which carry their
/// raw value.
pub open spec fn entry_data_read(d: Seq<u8>, p: int, h: EntryModel) -> Result<Seq<u8>, ArjError> {
    if p + h.compressed_size > d.len() {
        Err(ArjError::Io)
    } else {
        let compressed = d.subrange(p, p + h.compressed_size);
        match h.method {
            CompressionMethod::Stored => Ok(compressed),
            CompressionMethod::CompressedMost | CompressionMethod::Compressed
                | CompressionMethod::CompressedFaster => {
                match lh_decoded(compressed, h.original_size as nat) {
                    Some(out) => Ok(out),
                    None => Err(ArjError::Integrity),
                }
            },
            CompressionMethod::CompressedFastest => Err(ArjError::NotSupported),
            CompressionMethod::NoDataNoCrc => Err(ArjError::UnsupportedMethod(8)),
            CompressionMethod::NoData => Err(ArjError::UnsupportedMethod(9)),
            CompressionMethod::Unknown(tag) => Err(ArjError::UnsupportedMethod(tag)),
        }
    }
}

/// A successful iteration step lands strictly forward, within the stream.
pub proof fn lemma_next_entry_read_bounds(d: Seq<u8>, p: int)
    requires
        0 <= p <= d.len(),
        next_entry_read(d, p) is Ok,
    ensures
        p < next_entry_read(d, p)->Ok_0.1 <= d.len(),
{
    lemma_scan_magic_bounds(d, p);
    let q0 = scan_magic(d, p)->Some_0;
    lemma_block_read_bounds(d, q0);
    let (payload, q1) = block_read(d, q0)->Ok_0;
    if payload.len() != 0 {
        lemma_ext_chain_bounds(d, q1);
    }
}

/// The entries physically present from cursor `p` on: each iteration step
/// succeeds, each entry's data lies within the stream, and the walk ends
/// at the end-of-entries sentinel.  `None` when the bytes from `p` are not
/// a valid archive tail.
pub open spec fn entries_from(d: Seq<u8>, p: int) -> Option<Seq<EntryModel>>
    recommends
        0 <= p <= d.len(),
    decreases d.len() - p,
        when 0 <= p <= d.len()
        via entries_from_decreases
{
    match next_entry_read(d, p) {
        Err(_) => None,
        Ok((oh, q)) => match oh {
            None => Some(Seq::empty()),
            Some(h) => {
                if q + h.compressed_size <= d.len() {
                    match entries_from(d, q + h.compressed_size) {
                        None => None,
                        Some(rest) => Some(seq![h] + rest),
                    }
                } else {
                    None
                }
            },
        },
    }
}

#[via_fn]
proof fn entries_from_decreases(d: Seq<u8>, p: int) {
    if next_entry_read(d, p) is Ok {
        lemma_next_entry_read_bounds(d, p);
    }
}

/// Entry iteration is exact.  Over a valid archive tail, one iteration
/// step yields precisely the first entry present — none skipped, none
/// duplicated — and, once that entry's data is skipped, the remaining tail
/// holds exactly the remaining entries; over an empty tail the step
/// reports the end of the entries.  Iterating and skipping therefore ends
/// in the end-of-entries state after exactly as many steps as entries are
/// physically present.
pub proof fn lemma_iteration_exact(d: Seq<u8>, p: int)
    requires
        0 <= p <= d.len(),
        entries_from(d, p) is Some,
    ensures
        ({
            let es = entries_from(d, p)->Some_0;
            &&& es.len() == 0 ==> (match next_entry_read(d, p) {
                Ok((oh, q)) => oh is None,
                Err(_) => false,
            })
            &&& es.len() > 0 ==> (match next_entry_read(d, p) {
                Ok((oh, q)) => {
                    &&& oh == Some(es[0])
                    &&& p < q
                    &&& q + es[0].compressed_size <= d.len()
                    &&& entries_from(d, q + es[0].compressed_size) == Some(es.skip(1))
                },
                Err(_) => false,
            })
        }),
{
    let es = entries_from(d, p)->Some_0;
    if es.len() > 0 {
        lemma_next_entry_read_bounds(d, p);
        let (oh, q) = next_entry_read(d, p)->Ok_0;
        let h = oh->Some_0;
        let rest = entries_from(d, q + h.compressed_size)->Some_0;
        assert(es == seq![h] + rest);
        assert(es[0] == h);
        assert(es.skip(1) =~= rest);
    }
}

/// The cursor position after the iteration protocol has read and skipped
/// the first `k` entries of the tail at `p`: each step reads the entry's
/// headers and then skips exactly its `compressed_size` data bytes.
/// Meaningful while each of those steps succeeds.
pub open spec fn position_after(d: Seq<u8>, p: int, k: nat) -> int
    decreases k,
{
    if k == 0 {
        p
    } else {
        let (oh, q) = next_entry_read(d, position_after(d, p, (k - 1) as nat))->Ok_0;
        q + oh->Some_0.compressed_size
    }
}

/// Repeating the protocol visits every entry in order and then stops.
/// Over a valid archive tail holding `es`, after the first `k` entries are
/// read and skipped the remaining tail holds exactly the entries after the
/// first `k`; so by `lemma_iteration_exact` each step yields the next
/// entry present, and with `k` the number of entries present the tail is
/// empty and the following step reports the end of the entries.
pub proof fn lemma_iteration_terminates(d: Seq<u8>, p: int, k: nat)
    requires
        0 <= p <= d.len(),
        entries_from(d, p) is Some,
        k <= entries_from(d, p)->Some_0.len(),
    ensures
        0 <= position_after(d, p, k) <= d.len(),
        entries_from(d, position_after(d, p, k)) == Some(
            entries_from(d, p)->Some_0.skip(k as int),
        ),
    decreases k,
{
    let es = entries_from(d, p)->Some_0;
    if k == 0 {
        assert(es.skip(0) =~= es);
    } else {
        lemma_iteration_terminates(d, p, (k - 1) as nat);
        let pk1 = position_after(d, p, (k - 1) as nat);
        let tail = es.skip(k as int - 1);
        lemma_iteration_exact(d, pk1);
        let (oh, q) = next_entry_read(d, pk1)->Ok_0;
        assert(oh == Some(tail[0]));
        assert(entries_from(d, q + tail[0].compressed_size) == Some(tail.skip(1)));
        assert(tail.skip(1) =~= es.skip(k as int));
    }
}

/// Reading a stored entry is the identity transform: exactly
/// `compressed_size` bytes, byte-for-byte the bytes stored at the cursor.
pub proof fn lemma_stored_read_identity(d: Seq<u8>, p: int, h: EntryModel)
    requires
        0 <= p,
        h.method == CompressionMethod::Stored,
        p + h.compressed_size <= d.len(),
    ensures
        entry_data_read(d, p, h) == Ok::<_, ArjError>(d.subrange(p, p + h.compressed_size)),
        entry_data_read(d, p, h)->Ok_0.len() == h.compressed_size,
{
}

/// A decoder-routed entry decodes to exactly `original_size` bytes, and
/// the outcome depends on the entry's compressed bytes alone: equal
/// compressed windows decode equally, so decoding the same bytes twice
/// yields identical output.
pub proof fn lemma_decoder_read_deterministic(
    d1: Seq<u8>,
    p1: int,
    d2: Seq<u8>,
    p2: int,
    h: EntryModel,
)
    requires
        0 <= p1,
        0 <= p2,
        routes_to_decoder(h.method),
        p1 + h.compressed_size <= d1.len(),
        p2 + h.compressed_size <= d2.len(),
        d1.subrange(p1, p1 + h.compressed_size) == d2.subrange(p2, p2 + h.compressed_size),
    ensures
        entry_data_read(d1, p1, h) == entry_data_read(d2, p2, h),
{
}

/// Reader for one archive: owns the archive bytes, the cursor, and the
/// archive-level header parsed when the archive was opened.
///
/// The cursor sits at a header-block boundary between calls.  Each entry
/// yielded by `get_next_entry` must be consumed by `skip` or `read` before
/// the next `get_next_entry`.  The reader does not enforce that ordering:
/// violating it leaves the cursor inside the skipped entry's data, and the
/// following calls resynchronize on whatever magic-like bytes they find
/// there — a documented caller obligation, not an internal check.
pub struct ArjArchieve {
    data: Vec<u8>,
    pos: usize,
    /// The archive-level header.
    pub header: MainHeader,
}

impl ArjArchieve {
    /// The archive bytes the reader was opened over.
    pub closed spec fn stream(self) -> Seq<u8> {
        self.data@
    }

    /// The cursor: the offset of the next byte to be read.
    pub closed spec fn cursor(self) -> int {
        self.pos as int
    }

    /// The cursor lies within the stream.
    pub open spec fn wf(self) -> bool {
        0 <= self.cursor() <= self.stream().len()
    }

    /// The archive name the archive-level header carries.
    pub closed spec fn archive_name(self) -> Seq<char> {
        self.header@
    }

    /// Opens an archive over its bytes: reads the first header block,
    /// parses it as the archive-level header, and drains its extended
    /// headers, leaving the cursor at the first entry's header block.
    pub fn new(data: Vec<u8>) -> (r: Result<Self, ArjError>)
        ensures
            match r {
                Ok(a) => {
                    &&& a.wf()
                    &&& a.stream() == data@
                    &&& open_read(data@) == Ok::<_, ArjError>((a.archive_name(), a.cursor()))
                },
                Err(e) => open_read(data@) == Err::<(Seq<char>, int), _>(e),
            },
    {
        let mut pos: usize = 0;
        let header_bytes = match read_header(&data, &mut pos) {
            Ok(b) => b,
            Err(e) => {
                return Err(e);
            },
        };
        if header_bytes.len() == 0 {
            return Err(ArjError::EmptyArchive);
        }
        let header = match MainHeader::load_from(&header_bytes) {
            Ok(h) => h,
            Err(e) => {
                return Err(e);
            },
        };
        match read_extended_headers(&data, &mut pos) {
            Ok(_) => {},
            Err(e) => {
                return Err(e);
            },
        }
        Ok(ArjArchieve { data, pos, header })
    }

    /// The stored archive name.
    pub fn get_name(&self) -> (r: &str)
        ensures
            r@ == self.archive_name(),
    {
        self.header.name.as_str()
    }

    /// Advances to the next entry: reads one top-level header block,
    /// reports the end of the entries on the zero-size sentinel, and
    /// otherwise parses the per-entry header, drains its extended headers,
    /// and hands the header back.  The previous entry must already have
    /// been consumed by `skip` or `read`.
    pub fn get_next_entry(&mut self) -> (r: Result<Option<LocalFileHeader>, ArjError>)
        requires
            old(self).wf(),
        ensures
            final(self).wf(),
            final(self).stream() == old(self).stream(),
            final(self).archive_name() == old(self).archive_name(),
            match r {
                Ok(oh) => match oh {
                    Some(h) => next_entry_read(old(self).stream(), old(self).cursor())
                        == Ok::<_, ArjError>((Some(h@), final(self).cursor())),
                    None => next_entry_read(old(self).stream(), old(self).cursor()) == Ok::<
                        _,
                        ArjError,
                    >((None::<EntryModel>, final(self).cursor())),
                },
                Err(e) => next_entry_read(old(self).stream(), old(self).cursor()) == Err::<
                    (Option<EntryModel>, int),
                    _,
                >(e),
            },
    {
        let mut pos: usize = self.pos;
        let r = read_header(&self.data, &mut pos);
        self.pos = pos;
        let header_bytes = match r {
            Ok(b) => b,
            Err(e) => {
                return Err(e);
            },
        };
        if header_bytes.len() == 0 {
            return Ok(None);
        }
        let current = match LocalFileHeader::load_from(&header_bytes) {
            Ok(oh) => oh,
            Err(e) => {
                return Err(e);
            },
        };
        let entry = match current {
            Some(h) => h,
            None => {
                // absence means an empty payload, handled above
                return Ok(None);
            },
        };
        let mut pos2: usize = self.pos;
        let r2 = read_extended_headers(&self.data, &mut pos2);
        self.pos = pos2;
        match r2 {
            Ok(_) => {},
            Err(e) => {
                return Err(e);
            },
        }
        Ok(Some(entry))
    }

    /// Consumes the current entry without reading its data: advances the
    /// cursor by exactly `compressed_size` bytes, leaving it at the header
    /// block of the entry that follows.  Fails when that many bytes are
    /// not left in the stream.
    pub fn skip(&mut self, header: &LocalFileHeader) -> (r: Result<(), ArjError>)
        requires
            old(self).wf(),
        ensures
            final(self).wf(),
            final(self).stream() == old(self).stream(),
            final(self).archive_name() == old(self).archive_name(),
            match r {
                Ok(_) => {
                    &&& old(self).cursor() + header.compressed_size <= old(self).stream().len()
                    &&& final(self).cursor() == old(self).cursor() + header.compressed_size
                },
                Err(e) => {
                    &&& e == ArjError::Io
                    &&& old(self).cursor() + header.compressed_size > old(self).stream().len()
                    &&& final(self).cursor() == old(self).cursor()
                },
            },
    {
        let size = header.compressed_size as usize;
        if self.data.len() - self.pos < size {
            return Err(ArjError::Io);
        }
        self.pos = self.pos + size;
        Ok(())
    }

    /// Reads the current entry's data: takes exactly `compressed_size`
    /// bytes at the cursor and dispatches on the compression method, as
    /// `entry_data_read` describes.  On success — and on any failure that
    /// arose after the bytes were taken — the cursor ends just past the
    /// entry's data.
    pub fn read(&mut self, header: &LocalFileHeader) -> (r: Result<Vec<u8>, ArjError>)
        requires
            old(self).wf(),
        ensures
            final(self).wf(),
            final(self).stream() == old(self).stream(),
            final(self).archive_name() == old(self).archive_name(),
            match r {
                Ok(out) => {
                    &&& entry_data_read(old(self).stream(), old(self).cursor(), header@) == Ok::<
                        _,
                        ArjError,
                    >(out@)
                    &&& header@.method == CompressionMethod::Stored ==> out@.len()
                        == header.compressed_size
                    &&& routes_to_decoder(header@.method) ==> out@.len() == header.original_size
                    &&& final(self).cursor() == old(self).cursor() + header.compressed_size
                },
                Err(e) => {
                    &&& entry_data_read(old(self).stream(), old(self).cursor(), header@) == Err::<
                        Seq<u8>,
                        _,
                    >(e)
                    &&& e != ArjError::Io ==> final(self).cursor() == old(self).cursor()
                        + header.compressed_size
                },
            },
    {
        let size = header.compressed_size as usize;
        if self.data.len() - self.pos < size {
            return Err(ArjError::Io);
        }
        let compressed = copy_range(&self.data, self.pos, self.pos + size);
        self.pos = self.pos + size;
        match header.compression_method {
            CompressionMethod::Stored => Ok(compressed),
            CompressionMethod::CompressedMost | CompressionMethod::Compressed
                | CompressionMethod::CompressedFaster => {
                match decode_compressed(&compressed, header.original_size as usize) {
                    Some(out) => Ok(out),
                    None => Err(ArjError::Integrity),
                }
            },
            CompressionMethod::CompressedFastest => Err(ArjError::NotSupported),
            CompressionMethod::NoDataNoCrc => Err(ArjError::UnsupportedMethod(8)),
            CompressionMethod::NoData => Err(ArjError::UnsupportedMethod(9)),
            CompressionMethod::Unknown(tag) => Err(ArjError::UnsupportedMethod(tag)),
        }
    }
}

} // verus!
