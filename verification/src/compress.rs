//! Compression-test kernel: the size of the deflate image of the sample.
//! The estimator's observation is the ratio of compressed to original size.

use vstd::prelude::*;

verus! {

/// The deflate-compressed image of a byte sequence, as the flate2 encoder
/// produces it at its default compression level.
pub uninterp spec fn deflate_of(s: Seq<u8>) -> Seq<u8>;

/// Relies on flate2's DeflateEncoder: writing the whole buffer into an
/// encoder backed by a Vec and finishing it returns the deflate image of
/// the buffer. Writes into a Vec-backed encoder do not fail, so the error
/// arm is never taken.
#[verifier::external_body]
fn deflate_compress(data: &Vec<u8>) -> (r: Vec<u8>)
    ensures
        r@ == deflate_of(data@),
{
    let mut encoder = flate2::write::DeflateEncoder::new(
        Vec::new(),
        flate2::Compression::default(),
    );
    let _ = std::io::Write::write_all(&mut encoder, data.as_slice());
    match encoder.finish() {
        Ok(v) => v,
        Err(_) => Vec::new(),
    }
}

/// Compression kernel: the deflate-compressed size next to the original
/// size, or nothing on an empty sample.
pub fn compression_sizes(samples: &Vec<u8>) -> (r: Option<(usize, usize)>)
    ensures
        r is None <==> samples@.len() == 0,
        (r matches Some(c) ==> c.0 == deflate_of(samples@).len() && c.1 == samples@.len()),
{
    if samples.len() == 0 {
        return None;
    }
    let compressed: Vec<u8> = deflate_compress(samples);
    Some((compressed.len(), samples.len()))
}

} // verus!
