use vstd::prelude::*;

use crate::arj_error::ArjError;
use crate::byte_order::{le16, le16_at, le32, le32_at};
use crate::checksum::{crc32, crc32_of};

verus! {

/// Largest payload a header block may declare; a larger declared size is a
/// format error.
pub const MAX_HEADER_SIZE: u16 = 2600;

/// First byte of the magic pair that opens a top-level header block.
pub const ARJ_MAGIC_1: u8 = 0x60;

/// Second byte of the magic pair.
pub const ARJ_MAGIC_2: u8 = 0xEA;

/// The position just past the first occurrence of the magic pair at or
/// after `p`, or `None` when the stream ends first.
///
/// The scan is the resynchronization heuristic: it moves forward one byte
/// at a time, so leading garbage is skipped and the earliest pair wins,
/// even one that overlaps a first magic byte whose follower did not
/// complete a pair.
pub open spec fn scan_magic(d: Seq<u8>, p: int) -> Option<int>
    recommends
        0 <= p <= d.len(),
    decreases d.len() - p,
        when 0 <= p <= d.len()
{
    if p >= d.len() {
        None
    } else if d[p] != ARJ_MAGIC_1 {
        scan_magic(d, p + 1)
    } else if p + 1 >= d.len() {
        None
    } else if d[p + 1] == ARJ_MAGIC_2 {
        Some(p + 2)
    } else {
        scan_magic(d, p + 1)
    }
}

/// Reading one bare header block at `p`: a 16-bit little-endian size, that
/// many payload bytes, and a 32-bit little-endian checksum trailer that must
/// match the checksum of the payload.  A declared size of zero is the
/// end-of-chain sentinel and yields an empty payload with no trailer.  On
/// success the result carries the payload and the position just past the
/// block.
pub open spec fn block_read(d: Seq<u8>, p: int) -> Result<(Seq<u8>, int), ArjError>
    recommends
        0 <= p <= d.len(),
{
    if p + 2 > d.len() {
        Err(ArjError::Io)
    } else {
        let size = le16_at(d, p) as int;
        if size == 0 {
            Ok((Seq::empty(), p + 2))
        } else if size > MAX_HEADER_SIZE as int {
            Err(ArjError::OversizedHeader)
        } else if p + 2 + size + 4 > d.len() {
            Err(ArjError::Io)
        } else {
            let payload = d.subrange(p + 2, p + 2 + size);
            if crc32_of(payload) != le32_at(d, p + 2 + size) {
                Err(ArjError::Integrity)
            } else {
                Ok((payload, p + 2 + size + 4))
            }
        }
    }
}

/// Reading one top-level header block from `p`: scan forward for the magic
/// pair, then read one block there.
pub open spec fn header_read(d: Seq<u8>, p: int) -> Result<(Seq<u8>, int), ArjError>
    recommends
        0 <= p <= d.len(),
{
    match scan_magic(d, p) {
        None => Err(ArjError::Io),
        Some(q) => block_read(d, q),
    }
}

/// Draining the chain of extended headers that starts at `p`: bare blocks
/// (no magic pair), one after the other, each validated exactly as a
/// top-level block — size cap included — until a zero-size block ends the
/// chain.  On success the result carries the validated payloads in order
/// and the position just past the terminating block.
pub open spec fn ext_chain(d: Seq<u8>, p: int) -> Result<(Seq<Seq<u8>>, int), ArjError>
    recommends
        0 <= p <= d.len(),
    decreases d.len() - p,
        when 0 <= p <= d.len()
{
    match block_read(d, p) {
        Err(e) => Err(e),
        Ok((payload, q)) => {
            if payload.len() == 0 {
                Ok((Seq::empty(), q))
            } else {
                match ext_chain(d, q) {
                    Err(e) => Err(e),
                    Ok((rest, end)) => Ok((seq![payload] + rest, end)),
                }
            }
        },
    }
}

/// A successful scan lands past at least the two magic bytes and within
/// the stream.
pub proof fn lemma_scan_magic_bounds(d: Seq<u8>, p: int)
    requires
        0 <= p <= d.len(),
        scan_magic(d, p) is Some,
    ensures
        p + 2 <= scan_magic(d, p)->Some_0 <= d.len(),
    decreases d.len() - p,
{
    if p >= d.len() {
    } else if d[p] != ARJ_MAGIC_1 {
        lemma_scan_magic_bounds(d, p + 1);
    } else if p + 1 >= d.len() {
    } else if d[p + 1] == ARJ_MAGIC_2 {
    } else {
        lemma_scan_magic_bounds(d, p + 1);
    }
}

/// A successful block read lands within the stream, and a block with a
/// nonempty payload consumes at least its size bytes plus framing.
pub proof fn lemma_block_read_bounds(d: Seq<u8>, p: int)
    requires
        0 <= p <= d.len(),
        block_read(d, p) is Ok,
    ensures
        ({
            let (payload, q) = block_read(d, p)->Ok_0;
            &&& p + 2 <= q <= d.len()
            &&& payload.len() > 0 ==> q >= p + 7
        }),
{
}

/// A successfully drained chain ends within the stream, past at least the
/// two size bytes of its terminating block.
pub proof fn lemma_ext_chain_bounds(d: Seq<u8>, p: int)
    requires
        0 <= p <= d.len(),
        ext_chain(d, p) is Ok,
    ensures
        p + 2 <= ext_chain(d, p)->Ok_0.1 <= d.len(),
    decreases d.len() - p,
{
    let (payload, q) = block_read(d, p)->Ok_0;
    lemma_block_read_bounds(d, p);
    if payload.len() > 0 {
        lemma_ext_chain_bounds(d, q);
    }
}

/// A block whose trailing checksum does not match the checksum of its
/// payload is rejected as an integrity failure; no payload comes back.
pub proof fn lemma_checksum_mismatch_rejected(d: Seq<u8>, p: int)
    requires
        0 <= p,
        p + 2 <= d.len(),
        1 <= le16_at(d, p) as int <= MAX_HEADER_SIZE as int,
        p + 2 + le16_at(d, p) as int + 4 <= d.len(),
        crc32_of(d.subrange(p + 2, p + 2 + le16_at(d, p) as int)) != le32_at(
            d,
            p + 2 + le16_at(d, p) as int,
        ),
    ensures
        block_read(d, p) == Err::<(Seq<u8>, int), _>(ArjError::Integrity),
{
}

/// Copies the bytes of `data` at `start .. end` into a fresh vector.
pub(crate) fn copy_range(data: &Vec<u8>, start: usize, end: usize) -> (r: Vec<u8>)
    requires
        start <= end <= data@.len(),
    ensures
        r@ == data@.subrange(start as int, end as int),
{
    let mut out: Vec<u8> = Vec::new();
    let mut i: usize = start;
    while i < end
        invariant
            start <= i <= end <= data@.len(),
            out@ == data@.subrange(start as int, i as int),
        decreases end - i,
    {
        let b = data[i];
        out.push(b);
        proof {
            assert(out@ =~= data@.subrange(start as int, (i + 1) as int));
        }
        i = i + 1;
    }
    out
}

/// Reads one bare block at `start`, exactly as `block_read` describes.
fn read_block_at(data: &Vec<u8>, start: usize) -> (r: Result<(Vec<u8>, usize), ArjError>)
    requires
        start <= data@.len(),
    ensures
        match r {
            Ok(block) => {
                &&& block_read(data@, start as int) == Ok::<_, ArjError>(
                    (block.0@, block.1 as int),
                )
                &&& block.1 <= data@.len()
            },
            Err(e) => block_read(data@, start as int) == Err::<(Seq<u8>, int), _>(e),
        },
{
    let len: usize = data.len();
    if len - start < 2 {
        return Err(ArjError::Io);
    }
    let size16 = le16(data[start], data[start + 1]);
    assert(size16 == le16_at(data@, start as int));
    if size16 == 0 {
        return Ok((Vec::new(), start + 2));
    }
    if size16 > MAX_HEADER_SIZE {
        return Err(ArjError::OversizedHeader);
    }
    let size = size16 as usize;
    if len - (start + 2) < size + 4 {
        return Err(ArjError::Io);
    }
    let payload = copy_range(data, start + 2, start + 2 + size);
    let trailer = le32(
        data[start + 2 + size],
        data[start + 2 + size + 1],
        data[start + 2 + size + 2],
        data[start + 2 + size + 3],
    );
    assert(trailer == le32_at(data@, start as int + 2 + size as int));
    let computed = crc32(&payload);
    if computed != trailer {
        Err(ArjError::Integrity)
    } else {
        Ok((payload, start + 2 + size + 4))
    }
}

/// Scans forward from the cursor for the magic pair, then reads one
/// size-capped block: the payload of the next top-level header block, or an
/// empty vector when a zero size signals the end of the entries.
///
/// On success the cursor lands just past the block; on failure it is not
/// meaningful, beyond staying within the stream.
pub fn read_header(data: &Vec<u8>, pos: &mut usize) -> (r: Result<Vec<u8>, ArjError>)
    requires
        *old(pos) <= data@.len(),
    ensures
        *final(pos) <= data@.len(),
        match r {
            Ok(payload) => header_read(data@, *old(pos) as int) == Ok::<_, ArjError>(
                (payload@, *final(pos) as int),
            ),
            Err(e) => header_read(data@, *old(pos) as int) == Err::<(Seq<u8>, int), _>(e),
        },
{
    let len: usize = data.len();
    let ghost start: int = *pos as int;
    let mut cur: usize = *pos;
    loop
        invariant_except_break
            cur <= len,
            len == data@.len(),
            *pos <= len,
            start == *old(pos) as int,
            scan_magic(data@, start) == scan_magic(data@, cur as int),
        ensures
            cur <= len,
            len == data@.len(),
            start == *old(pos) as int,
            scan_magic(data@, start) == Some(cur as int),
        decreases len - cur,
    {
        if cur >= len {
            *pos = cur;
            return Err(ArjError::Io);
        }
        let b1 = data[cur];
        if b1 != ARJ_MAGIC_1 {
            cur = cur + 1;
            continue ;
        }
        if cur + 1 >= len {
            *pos = cur;
            return Err(ArjError::Io);
        }
        let b2 = data[cur + 1];
        if b2 == ARJ_MAGIC_2 {
            cur = cur + 2;
            break ;
        }
        cur = cur + 1;
    }
    match read_block_at(data, cur) {
        Ok(block) => {
            *pos = block.1;
            Ok(block.0)
        },
        Err(e) => {
            *pos = cur;
            Err(e)
        },
    }
}

/// Drains one chain of extended headers from the cursor, validating each
/// block, and returns the payloads in order.  The chain's contents are
/// discarded by the entry iteration, but the cursor must move past them to
/// sit at the next block boundary.
pub fn read_extended_headers(data: &Vec<u8>, pos: &mut usize) -> (r: Result<
    Vec<Vec<u8>>,
    ArjError,
>)
    requires
        *old(pos) <= data@.len(),
    ensures
        *final(pos) <= data@.len(),
        match r {
            Ok(blocks) => ext_chain(data@, *old(pos) as int) == Ok::<_, ArjError>(
                (blocks.deep_view(), *final(pos) as int),
            ),
            Err(e) => ext_chain(data@, *old(pos) as int) == Err::<(Seq<Seq<u8>>, int), _>(e),
        },
{
    let ghost start: int = *pos as int;
    let mut acc: Vec<Vec<u8>> = Vec::new();
    let mut cur: usize = *pos;
    loop
        invariant
            cur <= data@.len(),
            *pos <= data@.len(),
            start == *old(pos) as int,
            ext_chain(data@, start) == (match ext_chain(data@, cur as int) {
                Ok((rest, end)) => Ok::<_, ArjError>((acc.deep_view() + rest, end)),
                Err(e) => Err(e),
            }),
        decreases data@.len() - cur,
    {
        match read_block_at(data, cur) {
            Err(e) => {
                *pos = cur;
                return Err(e);
            },
            Ok(block) => {
                let payload = block.0;
                let end = block.1;
                if payload.len() == 0 {
                    *pos = end;
                    proof {
                        assert(acc.deep_view() + Seq::<Seq<u8>>::empty() =~= acc.deep_view());
                    }
                    return Ok(acc);
                }
                proof {
                    lemma_block_read_bounds(data@, cur as int);
                }
                let ghost old_acc = acc.deep_view();
                let ghost pv = payload@;
                acc.push(payload);
                proof {
                    assert(acc.deep_view() =~~= old_acc + seq![pv]);
                    if ext_chain(data@, end as int) is Ok {
                        let (rest, chain_end) = ext_chain(data@, end as int)->Ok_0;
                        assert((old_acc + seq![pv]) + rest =~~= old_acc + (seq![pv] + rest));
                    }
                }
                cur = end;
            },
        }
    }
}

} // verus!
