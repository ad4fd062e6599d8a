//! Compression, digests and hexadecimal text, as the `lz4`, `ring` and `hex`
//! crates compute them.
//!
//! Nothing in this file is proved: each function hands its arguments to an
//! outside crate, and its contract says what that crate is taken to return.

use vstd::prelude::*;

verus! {

/// `std::io::Error`, carried from the codec to where its text is taken.
#[verifier::external_type_specification]
#[verifier::external_body]
pub struct ExIoError(std::io::Error);

/// The LZ4 frame that the `lz4` crate's encoder writes for `content` at
/// compression level `level`.
pub uninterp spec fn lz4_frame(level: u32, content: Seq<u8>) -> Seq<u8>;

/// The content that the `lz4` crate's decoder reads out of `stored`, where it
/// reads the stream to its end without an error.
pub uninterp spec fn lz4_content(stored: Seq<u8>) -> Option<Seq<u8>>;

/// The SHA-256 digest of `data`, as the `ring` crate computes it.
pub uninterp spec fn sha256(data: Seq<u8>) -> Seq<u8>;

/// The number of bytes from which on `ring` refuses to compute a digest: the
/// length in bits would no longer fit 64 bits.
pub open spec fn digest_input_limit() -> int {
    0x2000_0000_0000_0000
}

/// The character that stands for a value below 16 in lowercase hexadecimal.
pub open spec fn hex_digit(value: int) -> char {
    seq!['0', '1', '2', '3', '4', '5', '6', '7', '8', '9', 'a', 'b', 'c', 'd', 'e', 'f'][value]
}

/// `data` in lowercase hexadecimal: two characters for each byte, the high
/// half of the byte first.
pub open spec fn hex_text(data: Seq<u8>) -> Seq<char> {
    Seq::new(
        2 * data.len(),
        |i: int|
            if i % 2 == 0 {
                hex_digit(data[i / 2] as int / 16)
            } else {
                hex_digit(data[i / 2] as int % 16)
            },
    )
}

/// Compresses `content` into one LZ4 frame with `lz4::EncoderBuilder` at the
/// given level, writing through `lz4::Encoder` into memory.
///
/// Taken on trust: a frame that the encoder finished is the frame that these
/// arguments always give, and the decoder of the same crate reads `content`
/// back out of it. Nothing is claimed of when the encoder fails.
#[verifier::external_body]
pub(crate) fn lz4_compress(content: &[u8], level: u32) -> (outcome: Result<Vec<u8>, std::io::Error>)
    ensures
        outcome matches Ok(stored) ==> stored@ == lz4_frame(level, content@),
        outcome matches Ok(stored) ==> lz4_content(stored@) == Some(content@),
{
    let mut stored: Vec<u8> = Vec::new();
    let mut encoder = lz4::EncoderBuilder::new().level(level).build(&mut stored)?;
    std::io::copy(&mut &content[..], &mut encoder)?;
    let (_, finished) = encoder.finish();
    finished?;
    Ok(stored)
}

/// Decompresses an LZ4 frame with `lz4::Decoder`, reading it to its end.
///
/// Taken on trust: whether the decoder reads the stream to its end, and what
/// it then returns, depends on the stored bytes alone. A decoder that fails
/// for want of memory is set aside, as memory that runs out is everywhere.
#[verifier::external_body]
pub(crate) fn lz4_decompress(stored: &[u8]) -> (outcome: Result<Vec<u8>, std::io::Error>)
    ensures
        outcome matches Ok(content) ==> lz4_content(stored@) == Some(content@),
        outcome is Err ==> lz4_content(stored@) is None,
{
    let mut decoder = lz4::Decoder::new(stored)?;
    let mut content: Vec<u8> = Vec::new();
    std::io::copy(&mut decoder, &mut content)?;
    Ok(content)
}

/// The text of an I/O error (`to_string` of `std::io::Error`). Nothing is
/// claimed of the text.
#[verifier::external_body]
pub(crate) fn io_error_text(error: &std::io::Error) -> (text: String) {
    error.to_string()
}

/// The SHA-256 digest of `data`, computed by `ring::digest::digest`.
///
/// Taken on trust: the digest depends on the data alone. `ring` panics on
/// data whose length in bits does not fit 64 bits, so such data is left out.
#[verifier::external_body]
pub(crate) fn sha256_digest(data: &[u8]) -> (digest: Vec<u8>)
    requires
        data@.len() < digest_input_limit(),
    ensures
        digest@ == sha256(data@),
{
    ring::digest::digest(&ring::digest::SHA256, data).as_ref().to_vec()
}

/// `data` in lowercase hexadecimal, written by `hex::encode`.
///
/// Taken on trust: each byte becomes two lowercase hexadecimal digits, the
/// high half first, as the crate documents.
#[verifier::external_body]
pub(crate) fn hex_encode(data: &[u8]) -> (text: String)
    ensures
        text@ == hex_text(data@),
{
    hex::encode(data)
}

} // verus!
