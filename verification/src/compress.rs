//! Transparent decompression of the input bytes.
//!
//! The decompression algorithms themselves are outside collaborators (the
//! flate2, bzip2 and xz2 crates); the library models each as a function from
//! the compressed bytes to the decoded bytes it yields before the first
//! corruption, together with whether the whole input decoded cleanly.  Lines
//! read from that prefix before a mid-stream corruption stay emitted.

use crate::errors::ScanError;
use vstd::prelude::*;

verus! {

/// How the raw bytes of the input are encoded before any line is read.
#[derive(Clone, Copy, Debug, PartialEq, Eq, Structural)]
pub enum Compression {
    Plain,
    Bzip2,
    Gzip,
    Xz,
}

/// What the gzip bytes `b` decode to: the bytes yielded before the first
/// corruption, and whether the whole input decoded cleanly.  Relied upon by
/// [`gunzip`].
pub uninterp spec fn gunzip_of(b: Seq<u8>) -> (Seq<u8>, bool);

/// What the bzip2 bytes `b` decode to: the bytes yielded before the first
/// corruption, and whether the whole input decoded cleanly.  Relied upon by
/// [`bunzip`].
pub uninterp spec fn bunzip_of(b: Seq<u8>) -> (Seq<u8>, bool);

/// What the xz bytes `b` decode to: the bytes yielded before the first
/// corruption, and whether the whole input decoded cleanly.  Relied upon by
/// [`unxz`].
pub uninterp spec fn unxz_of(b: Seq<u8>) -> (Seq<u8>, bool);

/// Relies on flate2's read-side GzDecoder: inflating a byte buffer yields
/// bytes that depend on the buffer alone; on malformed input it fails after
/// yielding the bytes it could decode.
#[verifier::external_body]
fn gunzip(b: &Vec<u8>) -> (r: (Vec<u8>, Option<ScanError>))
    ensures
        r.0@ == gunzip_of(b@).0,
        r.1 is None <==> gunzip_of(b@).1,
        r.1 matches Some(e) ==> e == ScanError::Decode,
{
    let mut out = Vec::new();
    let mut d = flate2::read::GzDecoder::new(&b[..]);
    match std::io::Read::read_to_end(&mut d, &mut out) {
        Ok(_) => (out, None),
        Err(_) => (out, Some(ScanError::Decode)),
    }
}

/// Relies on bzip2's read-side BzDecoder: decoding a byte buffer yields
/// bytes that depend on the buffer alone; on malformed input it fails after
/// yielding the bytes it could decode.
#[verifier::external_body]
fn bunzip(b: &Vec<u8>) -> (r: (Vec<u8>, Option<ScanError>))
    ensures
        r.0@ == bunzip_of(b@).0,
        r.1 is None <==> bunzip_of(b@).1,
        r.1 matches Some(e) ==> e == ScanError::Decode,
{
    let mut out = Vec::new();
    let mut d = bzip2::read::BzDecoder::new(&b[..]);
    match std::io::Read::read_to_end(&mut d, &mut out) {
        Ok(_) => (out, None),
        Err(_) => (out, Some(ScanError::Decode)),
    }
}

/// Relies on xz2's read-side XzDecoder: decoding a byte buffer yields bytes
/// that depend on the buffer alone; on malformed input it fails after
/// yielding the bytes it could decode.
#[verifier::external_body]
fn unxz(b: &Vec<u8>) -> (r: (Vec<u8>, Option<ScanError>))
    ensures
        r.0@ == unxz_of(b@).0,
        r.1 is None <==> unxz_of(b@).1,
        r.1 matches Some(e) ==> e == ScanError::Decode,
{
    let mut out = Vec::new();
    let mut d = xz2::read::XzDecoder::new(&b[..]);
    match std::io::Read::read_to_end(&mut d, &mut out) {
        Ok(_) => (out, None),
        Err(_) => (out, Some(ScanError::Decode)),
    }
}

/// What the input bytes hold once the selected decompression is undone: the
/// decoded bytes yielded before any corruption, and whether decoding was
/// clean to the end.  Plain bytes pass through unchanged.
pub open spec fn decoded_spec(c: Compression, b: Seq<u8>) -> (Seq<u8>, bool) {
    match c {
        Compression::Plain => (b, true),
        Compression::Gzip => gunzip_of(b),
        Compression::Bzip2 => bunzip_of(b),
        Compression::Xz => unxz_of(b),
    }
}

/// Undo the selected compression: plain bytes pass through unchanged, the
/// other kinds are decoded by the matching decompressor.  On malformed input
/// the bytes decoded before the corruption come back beside the error.
pub fn decode(c: &Compression, data: Vec<u8>) -> (r: (Vec<u8>, Option<ScanError>))
    ensures
        r.0@ == decoded_spec(*c, data@).0,
        r.1 is None <==> decoded_spec(*c, data@).1,
        r.1 matches Some(e) ==> e == ScanError::Decode,
{
    match c {
        Compression::Plain => (data, None),
        Compression::Gzip => gunzip(&data),
        Compression::Bzip2 => bunzip(&data),
        Compression::Xz => unxz(&data),
    }
}

} // verus!
