//! Path-directed artifact encoding.
//!
//! A path whose final extension is the compressed-artifact marker `gz` has
//! its content stored gzip-compressed and read back through transparent
//! decompression; any other path stores its content raw.

use vstd::prelude::*;

use crate::cursor::slice_bytes;

verus! {

/// What gzip decompression yields on these bytes: the decompressed payload,
/// or nothing when the bytes are not a well-formed gzip stream.
pub uninterp spec fn gunzip_of(b: Seq<u8>) -> Option<Seq<u8>>;

/// Relies on flate2::write::GzEncoder at best compression over an in-memory
/// buffer: the encoded stream decompresses back to exactly the bytes written,
/// and writing to a byte buffer cannot fail.
#[verifier::external_body]
pub(crate) fn gz_compress(data: &Vec<u8>) -> (r: Vec<u8>)
    ensures
        gunzip_of(r@) == Some(data@),
{
    let mut enc = flate2::write::GzEncoder::new(Vec::new(), flate2::Compression::best());
    std::io::Write::write_all(&mut enc, data).expect("writing to a buffer cannot fail");
    enc.finish().expect("writing to a buffer cannot fail")
}

/// Relies on flate2::bufread::GzDecoder over an in-memory buffer: reading to
/// the end yields the decompressed payload of a well-formed gzip stream and
/// fails exactly on bytes that are not one; what it yields is a function of
/// the bytes alone.
#[verifier::external_body]
pub(crate) fn gz_decompress(data: &Vec<u8>) -> (r: Option<Vec<u8>>)
    ensures
        match r {
            Some(d) => gunzip_of(data@) == Some(d@),
            None => gunzip_of(data@) is None,
        },
{
    let mut dec = flate2::bufread::GzDecoder::new(&data[..]);
    let mut out = Vec::new();
    match std::io::Read::read_to_end(&mut dec, &mut out) {
        Ok(_) => Some(out),
        Err(_) => None,
    }
}

/// Index just past the last path separator within the first `l` bytes of
/// `p`: the start of the final path component.
pub open spec fn comp_start(p: Seq<u8>, l: int) -> int
    decreases l,
{
    if l <= 0 {
        0
    } else if p[l - 1] == 47u8 {
        l
    } else {
        comp_start(p, l - 1)
    }
}

/// Whether the final extension of the path is the compressed-artifact
/// marker: the final component ends in `.gz` with at least one byte of stem
/// before the dot.
pub open spec fn is_gz(p: Seq<u8>) -> bool {
    let cs = comp_start(p, p.len() as int);
    &&& p.len() >= cs + 4
    &&& p[p.len() - 3] == 46u8
    &&& p[p.len() - 2] == 103u8
    &&& p[p.len() - 1] == 122u8
}

/// Whether a path names a compressed artifact.
pub fn path_is_gz(p: &Vec<u8>) -> (r: bool)
    ensures
        r == is_gz(p@),
{
    let n = p.len();
    let mut cs: usize = 0;
    let mut i: usize = 0;
    while i < n
        invariant
            i <= n,
            n == p@.len(),
            cs as int == comp_start(p@, i as int),
        decreases n - i,
    {
        if p[i] == 47u8 {
            cs = i + 1;
        }
        i = i + 1;
    }
    n >= 4 && cs <= n - 4 && p[n - 3] == 46u8 && p[n - 2] == 103u8 && p[n - 1] == 122u8
}

/// How stored artifact bytes relate to the content written at a path: for a
/// compressed artifact the stored bytes decompress to the content, otherwise
/// they are the content.
pub open spec fn stores_content(p: Seq<u8>, stored: Seq<u8>, content: Seq<u8>) -> bool {
    if is_gz(p) {
        gunzip_of(stored) == Some(content)
    } else {
        stored == content
    }
}

/// The content that stored artifact bytes decode to under a path, if any.
pub open spec fn decode_of(p: Seq<u8>, stored: Seq<u8>) -> Option<Seq<u8>> {
    if is_gz(p) {
        gunzip_of(stored)
    } else {
        Some(stored)
    }
}

/// Encode content for storage at a path: compressed when the path names a
/// compressed artifact, raw otherwise.
pub fn encode_artifact(p: &Vec<u8>, content: &Vec<u8>) -> (r: Vec<u8>)
    ensures
        stores_content(p@, r@, content@),
        decode_of(p@, r@) == Some(content@),
{
    if path_is_gz(p) {
        gz_compress(content)
    } else {
        let r = slice_bytes(content, 0, content.len());
        proof {
            assert(content@.subrange(0, content@.len() as int) =~= content@);
        }
        r
    }
}

/// Decode stored artifact bytes under a path: decompressed when the path
/// names a compressed artifact, raw otherwise.
pub fn decode_artifact(p: &Vec<u8>, stored: &Vec<u8>) -> (r: Option<Vec<u8>>)
    ensures
        match r {
            Some(d) => decode_of(p@, stored@) == Some(d@),
            None => decode_of(p@, stored@) is None,
        },
{
    if path_is_gz(p) {
        gz_decompress(stored)
    } else {
        let r = slice_bytes(stored, 0, stored.len());
        proof {
            assert(stored@.subrange(0, stored@.len() as int) =~= stored@);
        }
        Some(r)
    }
}

} // verus!
