//! Decoding raw on-chain name bytes into text.

use vstd::prelude::*;

verus! {

/// Relies on `String::from_utf8`: it returns the decoded text exactly when
/// the bytes are valid UTF-8, and an error otherwise.
#[verifier::external_body]
pub(crate) fn utf8_to_string(bytes: &Vec<u8>) -> (r: Option<String>)
    ensures
        match r {
            Some(s) => vstd::utf8::valid_utf8(bytes@) && s@ == vstd::utf8::decode_utf8(bytes@),
            None => !vstd::utf8::valid_utf8(bytes@),
        },
{
    String::from_utf8(bytes.clone()).ok()
}

} // verus!
