use vstd::prelude::*;

use delharc::decode::{Decoder, DecoderAny};

verus! {

/// What the external decoder produces from the given compressed bytes when
/// asked for exactly `out_len` decoded bytes, or `None` when it rejects
/// them.  The outcome is a function of the compressed bytes and the
/// requested length alone.
pub uninterp spec fn lh_decoded(compressed: Seq<u8>, out_len: nat) -> Option<Seq<u8>>;

/// Relies on delharc's DecoderAny, configured for the legacy LZ-variant
/// scheme the decoder-routed methods share, and Decoder::fill_buffer:
/// decoding a byte slice is a pure computation over the slice and the
/// requested output length; fill_buffer fills the whole buffer or fails.
#[verifier::external_body]
pub(crate) fn decode_compressed(compressed: &Vec<u8>, out_len: usize) -> (r: Option<Vec<u8>>)
    ensures
        match r {
            Some(v) => {
                &&& lh_decoded(compressed@, out_len as nat) == Some(v@)
                &&& v@.len() == out_len
            },
            None => lh_decoded(compressed@, out_len as nat) is None,
        },
{
    let mut decoder = DecoderAny::new_from_compression(
        delharc::CompressionMethod::Lh6,
        compressed.as_slice(),
    );
    let mut buffer = vec![0u8; out_len];
    match decoder.fill_buffer(&mut buffer) {
        Ok(()) => Some(buffer),
        Err(_) => None,
    }
}

} // verus!
