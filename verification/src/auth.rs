use vstd::prelude::*;
use vstd::string::*;

use base64::Engine;

use crate::text::concat2;
use crate::text::concat3;

verus! {

/// What the standard base64 alphabet encodes a string's bytes to; a
/// function of the input alone.
pub uninterp spec fn base64_of(s: Seq<char>) -> Seq<char>;

/// Relies on base64's standard-alphabet engine (the padded form): the
/// encoding is a pure function of the input bytes, and an empty input
/// encodes to the empty string.
#[verifier::external_body]
fn base64_encode(s: &str) -> (r: String)
    ensures
        r@ == base64_of(s@),
        s@.len() == 0 ==> r@.len() == 0,
{
    base64::engine::general_purpose::STANDARD.encode(s.as_bytes())
}

/// The Authorization header for a client-credentials token request: the
/// client id and secret joined by a colon and base64-encoded, behind the
/// Basic scheme marker. The marker keeps its trailing blank, so two
/// blanks separate it from the encoding.
pub fn basic_auth_header(client_id: &str, client_secret: &str) -> (r: String)
    ensures
        r@ == "Basic  "@ + base64_of(client_id@ + ":"@ + client_secret@),
{
    let combined = concat3(client_id, ":", client_secret);
    let encoded = base64_encode(combined.as_str());
    concat2("Basic  ", encoded.as_str())
}

} // verus!
