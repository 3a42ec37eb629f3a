//! Account identifier validation. Accounts are bech32 texts (a
//! human-readable part, the `1` separator, data, and a checksum); the engine
//! accepts a recipient only if it is well-formed.

use vstd::prelude::*;

verus! {

/// Whether a text is a well-formed bech32 account identifier; a function of
/// the characters alone.
pub uninterp spec fn valid_bech32(s: Seq<char>) -> bool;

/// Relies on `bech32::decode`: it succeeds exactly on well-formed bech32
/// texts (valid charset, no mixed case, separator present, checksum
/// correct), and its outcome depends on the text alone.
#[verifier::external_body]
pub fn validate_address(s: &str) -> (r: bool)
    ensures
        r == valid_bech32(s@),
{
    bech32::decode(s).is_ok()
}

} // verus!
