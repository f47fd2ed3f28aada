//! The token codec: canonical serialization of an `ImageSpec` to a URL-safe
//! token and the exact inverse, with the round-trip and alphabet laws.

use vstd::prelude::*;
use crate::pb::{ImageSpec, Spec};
use crate::wire::{enc_image_spec, decode_wire, encode_wire, decode_wire_bytes, lemma_wire_round_trip};
use crate::b64::{enc_b64, dec_b64, is_b64_char, b64_encode, b64_decode, lemma_dec_enc_b64, lemma_enc_b64_charset};

verus! {

/// Why a token failed to decode.
#[derive(Clone, Copy, Debug, PartialEq, Eq, Structural)]
pub enum CodecError {
    /// The token text is not valid unpadded URL-safe base64.
    InvalidBase64,
    /// The decoded bytes do not parse as a well-formed pipeline.
    MalformedWireBytes,
}

/// The token of a pipeline: the base64 text of its canonical wire bytes.
pub open spec fn spec_encode(specs: Seq<Spec>) -> Seq<char> {
    enc_b64(enc_image_spec(specs))
}

/// What decoding yields on any token text, error cases included.
pub open spec fn spec_decode(token: Seq<char>) -> Result<Seq<Spec>, CodecError> {
    match dec_b64(token) {
        None => Err(CodecError::InvalidBase64),
        Some(bytes) => match decode_wire(bytes) {
            None => Err(CodecError::MalformedWireBytes),
            Some(specs) => Ok(specs),
        },
    }
}

/// Serializes a pipeline into its canonical, deterministic token.
pub fn encode(img: &ImageSpec) -> (r: String)
    ensures
        r@ == spec_encode(img.specs@),
{
    let bytes = encode_wire(img);
    b64_encode(&bytes)
}

/// Decodes a token back into the pipeline it carries, or says exactly why it
/// cannot be decoded.
pub fn decode(token: &str) -> (r: Result<ImageSpec, CodecError>)
    ensures
        match r {
            Ok(m) => spec_decode(token@) == Ok::<Seq<Spec>, CodecError>(m.specs@),
            Err(e) => spec_decode(token@) == Err::<Seq<Spec>, CodecError>(e),
        },
{
    match b64_decode(token) {
        None => Err(CodecError::InvalidBase64),
        Some(bytes) => match decode_wire_bytes(&bytes) {
            None => Err(CodecError::MalformedWireBytes),
            Some(m) => Ok(m),
        },
    }
}

/// Round trip: decoding the token of any constructible pipeline yields
/// exactly that pipeline, byte for byte.
pub proof fn lemma_codec_round_trip(specs: Seq<Spec>)
    ensures
        spec_decode(spec_encode(specs)) == Ok::<Seq<Spec>, CodecError>(specs),
{
    lemma_dec_enc_b64(enc_image_spec(specs));
    lemma_wire_round_trip(specs);
}

/// Token alphabet: a token holds only URL-safe base64 characters, and in
/// particular never `+`, `/` or `=`.
pub proof fn lemma_token_charset(specs: Seq<Spec>)
    ensures
        forall|i: int|
            0 <= i < spec_encode(specs).len() ==> is_b64_char(#[trigger] spec_encode(specs)[i])
                && spec_encode(specs)[i] != '+' && spec_encode(specs)[i] != '/' && spec_encode(
                specs,
            )[i] != '=',
{
    lemma_enc_b64_charset(enc_image_spec(specs));
}

} // verus!
