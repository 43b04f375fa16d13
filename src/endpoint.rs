use crate::reply::{Reply, STATUS_BAD_REQUEST, STATUS_FORBIDDEN, STATUS_OK};
use crate::signature::{
    opt_bytes, opt_chars, rejection_text, verdict, verify, SharedSecret, Verification,
};
use vstd::prelude::*;
use vstd::string::*;
use vstd::utf8::encode_utf8;

verus! {

/// Whether one of the three webhook headers is absent.
pub open spec fn headers_missing(
    id: Option<&str>,
    timestamp: Option<&str>,
    signature: Option<&str>,
) -> bool {
    id is None || timestamp is None || signature is None
}

/// Answers an inbound webhook: `400` with no body when a header is absent,
/// without checking anything; else `200` with the body as received when it
/// verifies, and `403` with the reason when it does not.
pub fn handle_webhook(
    secret: &SharedSecret,
    id: Option<&str>,
    timestamp: Option<&str>,
    signature: Option<&str>,
    body: &str,
    now: i64,
    tolerance: i64,
) -> (r: Reply)
    ensures
        r.location is None,
        headers_missing(id, timestamp, signature) ==> r.status == STATUS_BAD_REQUEST
            && r.body@.len() == 0,
        !headers_missing(id, timestamp, signature) ==> match verdict(
            secret@,
            opt_bytes(id),
            opt_chars(timestamp),
            opt_bytes(signature),
            body.spec_bytes(),
            now,
            tolerance,
        ) {
            Verification::Valid => r.status == STATUS_OK && r.body@ == body.spec_bytes(),
            Verification::Invalid(why) => r.status == STATUS_FORBIDDEN && r.body@ == encode_utf8(
                rejection_text(why),
            ),
        },
{
    if id.is_none() || timestamp.is_none() || signature.is_none() {
        return Reply::with_body(STATUS_BAD_REQUEST, Vec::new());
    }
    match verify(secret, id, timestamp, signature, body, now, tolerance) {
        Verification::Valid => Reply::with_body(STATUS_OK, body.as_bytes_vec()),
        Verification::Invalid(why) => Reply::with_body(
            STATUS_FORBIDDEN,
            why.message().as_bytes_vec(),
        ),
    }
}

} // verus!
