use vstd::prelude::*;
use vstd::utf8::*;
use vstd::string::StringSliceAdditionalSpecFns;

verus! {

/// Checks `bytes` with `simdutf8::basic::from_utf8`. The crate returns the
/// same bytes as a `str` exactly when they are valid UTF-8; the contract
/// claims that, with vstd's definition of valid UTF-8.
#[verifier::external_body]
pub(crate) fn check_utf8(bytes: &[u8]) -> (r: Option<&str>)
    ensures
        r is Some <==> valid_utf8(bytes@),
        r matches Some(s) ==> s.spec_bytes() == bytes@,
{
    simdutf8::basic::from_utf8(bytes).ok()
}

} // verus!
