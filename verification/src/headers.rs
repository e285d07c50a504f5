//! The audit-log-reason header the action provider expects.
//!
//! The provider's audit-log header carries the reason text URL-encoded; the
//! encoding itself comes from the percent-encoding crate.

use vstd::prelude::*;

verus! {

/// The percent-encoding of a reason text under the non-alphanumeric set:
/// every byte of the text's UTF-8 form that is not an ASCII alphanumeric is
/// written as a percent sign and two hexadecimal digits.
pub uninterp spec fn percent_encoded(s: Seq<char>) -> Seq<char>;

/// Relies on percent_encoding::utf8_percent_encode with NON_ALPHANUMERIC: it
/// encodes exactly the non-alphanumeric bytes of the UTF-8 form of its input,
/// and its result depends on the input characters alone.
#[verifier::external_body]
fn percent_encode_reason(reason: &str) -> (r: String)
    ensures
        r@ == percent_encoded(reason@),
        reason@.len() == 0 ==> r@.len() == 0,
{
    percent_encoding::utf8_percent_encode(reason, percent_encoding::NON_ALPHANUMERIC).to_string()
}

/// The header that attaches a reason to a moderation call: its name and its
/// URL-encoded value.
pub fn reason_into_header(reason: &str) -> (r: (String, String))
    ensures
        r.0@ == "X-Audit-Log-Reason"@,
        r.1@ == percent_encoded(reason@),
{
    let name = String::from_str("X-Audit-Log-Reason");
    let value = percent_encode_reason(reason);
    (name, value)
}

} // verus!
