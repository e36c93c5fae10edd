//! Rendering an output's raw address bytes as text through the chain's
//! address codec.

use vstd::prelude::*;

verus! {

/// The rendered text form of the address encoded by `bytes`, when those
/// bytes decode as a chain address at all; it depends on the bytes alone.
pub uninterp spec fn address_text(bytes: Seq<u8>) -> Option<Seq<char>>;

/// Relies on `pallas::ledger::addresses::Address::from_bytes` and the
/// `Display` form of the decoded address: both depend on the bytes alone,
/// decoding rejects malformed bytes with an error rather than a panic, and
/// rendering cannot fail once decoding succeeded.
#[verifier::external_body]
pub(crate) fn render_address(bytes: &Vec<u8>) -> (r: Option<String>)
    ensures
        match r {
            Some(s) => address_text(bytes@) == Some(s@),
            None => address_text(bytes@) is None,
        },
{
    let addr = pallas::ledger::addresses::Address::from_bytes(bytes).ok()?;
    Some(addr.to_string())
}

} // verus!
