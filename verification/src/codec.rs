use vstd::prelude::*;

verus! {

/// What `base64::engine::general_purpose::STANDARD.decode` gives for the UTF-8 encoding of
/// `text`: the decoded bytes, or `None` where the engine reports an error.
pub uninterp spec fn standard_base64_decode(text: Seq<char>) -> Option<Seq<u8>>;

/// Calls `Engine::decode` of the `base64` crate with its `STANDARD` engine (standard alphabet,
/// padding required) on the bytes of `text`. The contract claims only that the outcome is
/// `standard_base64_decode` of the text; the decoding itself is the crate's.
#[verifier::external_body]
pub(crate) fn decode_base64(text: &String) -> (decoded: Option<Vec<u8>>)
    ensures
        match decoded {
            Some(bytes) => standard_base64_decode(text@) == Some(bytes@),
            None => standard_base64_decode(text@) is None,
        },
{
    base64::Engine::decode(&base64::engine::general_purpose::STANDARD, text).ok()
}

} // verus!
