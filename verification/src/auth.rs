//! Derivation of the HTTP Basic-auth header from the artifact's secret
//! token. The API accepts exactly `Basic base64("riot:" + token)`, with the
//! fixed user name `riot`.
use vstd::prelude::*;

verus! {

/// Longest secret token the derivation accepts; keeps every string built
/// here far below any platform length limit.
pub const MAX_TOKEN_LEN: usize = 0x0100_0000;

/// What `base64ct::Base64::encode_string` returns for the UTF-8 bytes of a
/// given character sequence: standard Base64 with `=` padding, a fixed
/// function of the input alone.
pub uninterp spec fn base64_of(s: Seq<char>) -> Seq<char>;

/// Relies on base64ct's `Base64::encode_string` (standard alphabet, padded):
/// the result is determined by the input bytes alone, and an empty input
/// encodes to the empty string. `encode_string` panics only when the input
/// is longer than a quarter of the address space, which the length bound
/// rules out.
#[verifier::external_body]
fn b64_encode(s: &str) -> (r: String)
    requires
        s@.len() < 0x1000_0000,
    ensures
        r@ == base64_of(s@),
        s@.len() == 0 ==> r@.len() == 0,
{
    <base64ct::Base64 as base64ct::Encoding>::encode_string(s.as_bytes())
}

/// The authorization header owed for a secret token.
pub open spec fn auth_header_spec(token: Seq<char>) -> Seq<char> {
    "Basic "@ + base64_of("riot:"@ + token)
}

/// Builds the `Authorization` value for `token`:
/// `Basic base64("riot:" + token)`.
pub fn auth_header(token: &str) -> (r: String)
    requires
        token@.len() <= MAX_TOKEN_LEN,
    ensures
        r@ == auth_header_spec(token@),
{
    let mut user_pass = String::from_str("riot:");
    user_pass.append(token);
    proof {
        reveal_strlit("riot:");
    }
    let encoded = b64_encode(user_pass.as_str());
    let mut r = String::from_str("Basic ");
    r.append(encoded.as_str());
    r
}

} // verus!
