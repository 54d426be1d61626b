//! The base64 rendering of byte data, through the outside encoder.

use vstd::prelude::*;
use base64::Engine;

verus! {

/// The standard base64 rendering, with padding, of a byte sequence. The
/// alphabet and chunking are the encoder's; the result depends on the
/// bytes alone.
pub uninterp spec fn base64_of(data: Seq<u8>) -> Seq<char>;

/// Relies on `base64::engine::Engine::encode` with the standard engine:
/// the output is a function of the input bytes alone, four characters for
/// every started group of three bytes, and empty input encodes to the
/// empty string.
#[verifier::external_body]
pub fn base64_encode(data: &Vec<u8>) -> (r: String)
    requires
        data@.len() <= usize::MAX / 4,
    ensures
        r@ == base64_of(data@),
        r@.len() == 4 * ((data@.len() + 2) / 3),
{
    base64::engine::general_purpose::STANDARD.encode(data)
}

} // verus!
