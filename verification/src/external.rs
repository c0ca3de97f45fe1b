use vstd::prelude::*;

verus! {

/// Whether `semver::Version::parse` accepts the text (SemVer 2.0 syntax,
/// numeric fields within `u64`, no leading zeros).
pub uninterp spec fn semver_accepts(text: Seq<char>) -> bool;

/// Trusted: calls `semver::Version::parse` and reports whether it returned
/// `Ok`. The contract claims only that the answer is a function of the text.
#[verifier::external_body]
pub(crate) fn semver_parses(text: &str) -> (ok: bool)
    ensures
        ok == semver_accepts(text@),
{
    semver::Version::parse(text).is_ok()
}

/// A hexadecimal digit as `hex` accepts it: `0-9`, `a-f`, `A-F`.
pub open spec fn is_hex_digit(c: char) -> bool {
    ('0' <= c && c <= '9') || ('a' <= c && c <= 'f') || ('A' <= c && c <= 'F')
}

/// Text that `hex::decode` decodes: an even number of hexadecimal digits.
pub open spec fn is_hex_text(s: Seq<char>) -> bool {
    &&& s.len() % 2 == 0
    &&& forall|i: int| 0 <= i < s.len() ==> #[trigger] is_hex_digit(s[i])
}

/// Trusted: calls `hex::decode` on the UTF-8 bytes of the text and reports
/// whether it returned `Ok`. The source rejects an odd byte count and any byte
/// outside `0-9a-fA-F`; a character outside ASCII encodes to bytes outside that
/// set, so the bytes pass exactly when the characters are an even number of
/// hexadecimal digits.
#[verifier::external_body]
pub(crate) fn hex_decodes(text: &str) -> (ok: bool)
    ensures
        ok == is_hex_text(text@),
{
    hex::decode(text).is_ok()
}

} // verus!
