use vstd::prelude::*;

verus! {

/// The text the standard base64 alphabet (with padding) assigns to a byte
/// sequence. The encoding is a pure function of the bytes alone.
pub uninterp spec fn base64_of(bytes: Seq<u8>) -> Seq<char>;

/// Relies on base64's `Engine::encode` with the `STANDARD` engine: the
/// result depends only on the input bytes, and a padded encoding is four
/// characters for every started three-byte group. The length bound keeps
/// the engine's output-size computation from overflowing.
#[verifier::external_body]
pub(crate) fn base64_encode(bytes: &Vec<u8>) -> (r: String)
    requires
        4 * bytes@.len() <= usize::MAX,
    ensures
        r@ == base64_of(bytes@),
        r@.len() == 4 * ((bytes@.len() + 2) / 3),
{
    base64::Engine::encode(&base64::engine::general_purpose::STANDARD, bytes.as_slice())
}

} // verus!
