use vstd::prelude::*;

verus! {

/// The raw DEFLATE stream this library's compressor produces for `data`:
/// a function of the bytes alone.
pub uninterp spec fn deflate_of(data: Seq<u8>) -> Seq<u8>;

/// What decompressing a raw DEFLATE stream yields: the original bytes, or
/// nothing when the stream is not well formed. A function of the bytes alone.
pub uninterp spec fn inflate_of(data: Seq<u8>) -> Option<Seq<u8>>;

/// The IEEE CRC-32 checksum of `data`: a function of the bytes alone.
pub uninterp spec fn crc32_of(data: Seq<u8>) -> u32;

/// Relies on miniz_oxide::deflate::compress_to_vec: a deterministic raw
/// DEFLATE stream for the input, which
/// miniz_oxide::inflate::decompress_to_vec decompresses back to the input.
#[verifier::external_body]
pub fn deflate(data: &Vec<u8>) -> (r: Vec<u8>)
    ensures
        r@ == deflate_of(data@),
        inflate_of(r@) == Some(data@),
{
    miniz_oxide::deflate::compress_to_vec(data.as_slice(), 6)
}

/// Relies on miniz_oxide::inflate::decompress_to_vec: decompresses a raw
/// DEFLATE stream, or reports that the stream is not well formed.
#[verifier::external_body]
pub fn inflate(data: &Vec<u8>) -> (r: Option<Vec<u8>>)
    ensures
        match r {
            Some(v) => inflate_of(data@) == Some(v@),
            None => inflate_of(data@) is None,
        },
{
    match miniz_oxide::inflate::decompress_to_vec(data.as_slice()) {
        Ok(v) => Some(v),
        Err(_) => None,
    }
}

/// Relies on crc32fast::hash: the IEEE CRC-32 of the bytes.
#[verifier::external_body]
pub fn crc32(data: &Vec<u8>) -> (r: u32)
    ensures
        r == crc32_of(data@),
{
    crc32fast::hash(data.as_slice())
}

} // verus!
