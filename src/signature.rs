use crate::text::{parse_i64, parsed_i64, signed_decimal};
use base64::Engine;
use standardwebhooks::Webhook;
use vstd::prelude::*;
use vstd::string::*;

verus! {

#[verifier::external_type_specification]
#[verifier::external_body]
pub struct ExWebhookError(standardwebhooks::WebhookError);

#[verifier::external_type_specification]
#[verifier::external_body]
pub struct ExDecodeError(base64::DecodeError);

/// An ASCII whitespace byte (space, tab, line feed, form feed, carriage
/// return): what separates the tokens of a signature header.
pub open spec fn is_separator(b: u8) -> bool {
    b == 32 || b == 9 || b == 10 || b == 12 || b == 13
}

fn separator(b: u8) -> (r: bool)
    ensures
        r == is_separator(b),
{
    b == 32 || b == 9 || b == 10 || b == 12 || b == 13
}

/// `t` stands in `h` at `p` as one whole whitespace-delimited token.
pub open spec fn token_at(h: Seq<u8>, t: Seq<u8>, p: int) -> bool {
    &&& 0 <= p
    &&& p + t.len() <= h.len()
    &&& h.subrange(p, p + t.len()) == t
    &&& (p == 0 || is_separator(h[p - 1]))
    &&& (p + t.len() == h.len() || is_separator(h[p + t.len()]))
    &&& forall|k: int| 0 <= k < t.len() ==> !is_separator(t[k])
}

/// Splitting `h` at ASCII whitespace yields a token equal to `t`.
pub open spec fn has_token(h: Seq<u8>, t: Seq<u8>) -> bool {
    exists|p: int| token_at(h, t, p)
}

proof fn lemma_fold_step(acc: u8, a: u8, b: u8)
    ensures
        ((acc | (a ^ b)) == 0u8) <==> (acc == 0u8 && a == b),
{
    assert(((acc | (a ^ b)) == 0u8) <==> (acc == 0u8 && a == b)) by (bit_vector);
}

/// Compares `h[from..to]` with `t`. When the lengths agree every byte pair is
/// visited, whatever the first difference, so the time taken does not depend
/// on how long a prefix matches.
fn segment_equals(h: &[u8], from: usize, to: usize, t: &[u8]) -> (r: bool)
    requires
        from <= to <= h@.len(),
    ensures
        r == (h@.subrange(from as int, to as int) == t@),
{
    if to - from != t.len() {
        assert(h@.subrange(from as int, to as int).len() != t@.len());
        return false;
    }
    let mut acc: u8 = 0;
    let mut k: usize = 0;
    while k < t.len()
        invariant
            from <= to <= h@.len(),
            to - from == t@.len(),
            k <= t@.len(),
            (acc == 0) <==> (forall|j: int| 0 <= j < k ==> h@[from + j] == t@[j]),
        decreases t@.len() - k,
    {
        proof {
            lemma_fold_step(acc, h@[from + k as int], t@[k as int]);
        }
        acc = acc | (h[from + k] ^ t[k]);
        k += 1;
    }
    proof {
        let seg = h@.subrange(from as int, to as int);
        if acc == 0 {
            assert(seg =~= t@);
        } else if seg == t@ {
            assert forall|j: int| 0 <= j < t@.len() implies h@[from + j] == t@[j] by {
                assert(seg[j] == h@[from + j]);
            }
        }
    }
    acc == 0
}

/// A segment `[start, end)` of `h` that holds no separator and is bounded by
/// separators or the ends of `h` is a token equal to `t` exactly when it equals
/// `t`; no token starts strictly inside it.
proof fn lemma_segment(h: Seq<u8>, t: Seq<u8>, start: int, end: int)
    requires
        0 <= start <= end <= h.len(),
        start == 0 || is_separator(h[start - 1]),
        forall|k: int| start <= k < end ==> !is_separator(h[k]),
        end == h.len() || is_separator(h[end]),
    ensures
        token_at(h, t, start) <==> h.subrange(start, end) == t,
        forall|p: int| start < p <= end ==> !token_at(h, t, p),
{
    let e2 = start + t.len();
    if token_at(h, t, start) {
        if e2 < end {
            assert(!is_separator(h[e2]));
        } else if e2 > end {
            assert(h.subrange(start, e2)[end - start] == h[end]);
        }
        assert(h.subrange(start, end) =~= t);
    }
    if h.subrange(start, end) == t {
        assert forall|k: int| 0 <= k < t.len() implies !is_separator(t[k]) by {
            assert(h.subrange(start, end)[k] == h[start + k]);
        }
    }
    assert forall|p: int| start < p <= end implies !token_at(h, t, p) by {
        assert(!is_separator(h[p - 1]));
    }
}

/// Whether some whitespace-delimited token of `h` equals `t`. Every token is
/// compared, also after a match.
fn contains_token(h: &[u8], t: &[u8]) -> (r: bool)
    ensures
        r == has_token(h@, t@),
{
    let mut found = false;
    let mut start: usize = 0;
    let mut i: usize = 0;
    while i < h.len()
        invariant
            start <= i <= h@.len(),
            start == 0 || is_separator(h@[start - 1]),
            forall|k: int| start <= k < i ==> !is_separator(h@[k]),
            found == exists|p: int| 0 <= p < start && token_at(h@, t@, p),
        decreases h@.len() - i,
    {
        if separator(h[i]) {
            let eq = segment_equals(h, start, i, t);
            proof {
                lemma_segment(h@, t@, start as int, i as int);
                assert((found || eq) == exists|p: int| 0 <= p < i + 1 && token_at(h@, t@, p));
            }
            found = found || eq;
            start = i + 1;
        }
        i += 1;
    }
    let eq = segment_equals(h, start, h.len(), t);
    proof {
        lemma_segment(h@, t@, start as int, h@.len() as int);
        assert forall|p: int| token_at(h@, t@, p) implies 0 <= p < start || p == start || (start < p <= h@.len()) by {}
    }
    found || eq
}

/// The standard base64 text (with padding) of the HMAC-SHA256 of `content`
/// under `key`.
pub uninterp spec fn hmac_base64(key: Seq<u8>, content: Seq<u8>) -> Seq<u8>;

/// The bytes that standard base64 decoding gives for `text`, if it is valid.
pub uninterp spec fn base64_decoded(text: Seq<char>) -> Option<Seq<u8>>;

/// A byte of the standard base64 alphabet, padding included.
pub open spec fn is_base64_byte(b: u8) -> bool {
    (65 <= b <= 90) || (97 <= b <= 122) || (48 <= b <= 57) || b == 43 || b == 47 || b == 61
}

pub open spec fn base64_text(s: Seq<u8>) -> bool {
    forall|k: int| 0 <= k < s.len() ==> is_base64_byte(#[trigger] s[k])
}

/// The content that is signed: `id`, a dot, the timestamp in decimal, a dot,
/// then the body.
pub open spec fn signed_content(id: Seq<u8>, timestamp: i64, body: Seq<u8>) -> Seq<u8> {
    id + seq![46u8] + signed_decimal(timestamp as int) + seq![46u8] + body
}

/// The signature token of the `v1` scheme for a message: `v1,` then the MAC.
pub open spec fn signature_for(key: Seq<u8>, id: Seq<u8>, timestamp: i64, body: Seq<u8>) -> Seq<
    u8,
> {
    versioned(hmac_base64(key, signed_content(id, timestamp, body)))
}

/// A MAC in the `v1` scheme's token form: `v1,` then the MAC.
pub open spec fn versioned(mac: Seq<u8>) -> Seq<u8> {
    seq![118u8, 49u8, 44u8] + mac
}

/// `sig` is the signature that the holder of `key` gives the message: the `v1`
/// token, whose MAC is base64 text.
pub open spec fn well_signed(
    key: Seq<u8>,
    id: Seq<u8>,
    timestamp: i64,
    body: Seq<u8>,
    sig: Seq<u8>,
) -> bool {
    &&& sig == signature_for(key, id, timestamp, body)
    &&& base64_text(hmac_base64(key, signed_content(id, timestamp, body)))
}

type SignResult = Result<Vec<u8>, standardwebhooks::WebhookError>;

/// Relies on `standardwebhooks::Webhook::sign` (keyed by `Webhook::from_bytes`,
/// which only stores the key): it formats `{id}.{timestamp}.{body}`, takes its
/// HMAC-SHA256 under the key, encodes it with standard base64 and returns
/// `v1,` followed by that text. It fails only on a body that is not UTF-8.
#[verifier::external_body]
fn sign_message(key: &Vec<u8>, id: &str, timestamp: i64, body: &str) -> (r: SignResult)
    ensures
        r is Ok && r->Ok_0@ == versioned(hmac_base64(key@, signed_content(id.spec_bytes(), timestamp, body.spec_bytes()))),
        r is Ok && base64_text(r->Ok_0@.subrange(3, r->Ok_0@.len() as int)),
{
    match Webhook::from_bytes(key.clone()) {
        Ok(w) => w.sign(id, timestamp, body.as_bytes()).map(|s| s.into_bytes()),
        Err(e) => Err(e),
    }
}

/// Relies on `base64::engine::general_purpose::STANDARD.decode`: the bytes
/// that standard base64 text (with padding) stands for, or an error when the
/// text is not valid base64.
#[verifier::external_body]
fn decode_base64(text: &str) -> (r: Result<Vec<u8>, base64::DecodeError>)
    ensures
        r matches Ok(v) ==> base64_decoded(text@) == Some(v@),
        r is Err ==> base64_decoded(text@) is None,
{
    base64::engine::general_purpose::STANDARD.decode(text)
}

/// The prefix that marks an encoded webhook secret.
pub open spec fn secret_prefix() -> Seq<char> {
    seq!['w', 'h', 's', 'e', 'c', '_']
}

/// The base64 part of an encoded secret: the text after the prefix, or all of it.
pub open spec fn unprefixed(s: Seq<char>) -> Seq<char> {
    if s.len() >= 6 && s.subrange(0, 6) == secret_prefix() {
        s.subrange(6, s.len() as int)
    } else {
        s
    }
}

/// Why a configured secret cannot be used.
#[derive(Clone, Copy, Debug, PartialEq, Eq, Structural)]
pub enum SecretError {
    /// The text after the optional `whsec_` prefix is not standard base64.
    InvalidEncoding,
}

/// The key shared with the sender, as raw bytes.
pub struct SharedSecret {
    key: Vec<u8>,
}

impl View for SharedSecret {
    type V = Seq<u8>;

    closed spec fn view(&self) -> Seq<u8> {
        self.key@
    }
}

impl SharedSecret {
    /// Decodes a configured secret: an optional `whsec_` prefix, then base64.
    pub fn decode(encoded: &str) -> (r: Result<SharedSecret, SecretError>)
        ensures
            match r {
                Ok(s) => base64_decoded(unprefixed(encoded@)) == Some(s@),
                Err(e) => e == SecretError::InvalidEncoding && base64_decoded(
                    unprefixed(encoded@),
                ) is None,
            },
    {
        let n = encoded.unicode_len();
        let mut prefixed = n >= 6;
        let mut k: usize = 0;
        while k < 6 && prefixed
            invariant
                n == encoded@.len(),
                k <= 6,
                prefixed ==> n >= 6 && forall|j: int| 0 <= j < k ==> encoded@[j] == secret_prefix()[j],
                !prefixed ==> !(n >= 6 && encoded@.subrange(0, 6) == secret_prefix()),
            decreases 6 - k,
        {
            let c = encoded.get_char(k);
            let want = if k == 0 {
                'w'
            } else if k == 1 {
                'h'
            } else if k == 2 {
                's'
            } else if k == 3 {
                'e'
            } else if k == 4 {
                'c'
            } else {
                '_'
            };
            if c != want {
                assert(encoded@.subrange(0, 6)[k as int] == c);
                prefixed = false;
            }
            k += 1;
        }
        let rest = if prefixed {
            assert(encoded@.subrange(0, 6) =~= secret_prefix());
            encoded.substring_char(6, n)
        } else {
            encoded
        };
        match decode_base64(rest) {
            Ok(key) => Ok(SharedSecret { key }),
            Err(_) => Err(SecretError::InvalidEncoding),
        }
    }

    /// A secret made of the given raw key bytes.
    pub fn from_key(key: Vec<u8>) -> (r: SharedSecret)
        ensures
            r@ == key@,
    {
        SharedSecret { key }
    }

    /// The `v1` signature token for a message, as the sender computes it.
    pub fn sign(&self, id: &str, timestamp: i64, body: &str) -> (r: Vec<u8>)
        ensures
            well_signed(self@, id.spec_bytes(), timestamp, body.spec_bytes(), r@),
    {
        match sign_message(&self.key, id, timestamp, body) {
            Ok(v) => {
                proof {
                    let mac = hmac_base64(self@, signed_content(id.spec_bytes(), timestamp, body.spec_bytes()));
                    assert(v@.subrange(3, v@.len() as int) =~= mac);
                }
                v
            },
            Err(_) => Vec::new(),
        }
    }
}

/// Why a webhook was not accepted.
#[derive(Clone, Copy, Debug, PartialEq, Eq, Structural)]
pub enum Rejection {
    /// The id, timestamp or signature header is absent.
    MissingFields,
    /// The timestamp header is not an integer.
    InvalidTimestamp,
    /// The timestamp is further from the current time than the tolerance.
    StaleTimestamp,
    /// No supplied `v1` signature matches the computed one.
    SignatureMismatch,
}

/// The outcome of checking a webhook.
#[derive(Clone, Copy, Debug, PartialEq, Eq, Structural)]
pub enum Verification {
    Valid,
    Invalid(Rejection),
}

/// The text that a rejection is reported with.
pub open spec fn rejection_text(r: Rejection) -> Seq<char> {
    match r {
        Rejection::MissingFields => "missing webhook headers"@,
        Rejection::InvalidTimestamp => "failed to parse timestamp"@,
        Rejection::StaleTimestamp => "signature timestamp outside tolerance"@,
        Rejection::SignatureMismatch => "signature invalid"@,
    }
}

impl Rejection {
    pub fn message(&self) -> (r: &'static str)
        ensures
            r@ == rejection_text(*self),
    {
        match self {
            Rejection::MissingFields => "missing webhook headers",
            Rejection::InvalidTimestamp => "failed to parse timestamp",
            Rejection::StaleTimestamp => "signature timestamp outside tolerance",
            Rejection::SignatureMismatch => "signature invalid",
        }
    }
}

pub open spec fn opt_bytes(o: Option<&str>) -> Option<Seq<u8>> {
    match o {
        Some(s) => Some(s.spec_bytes()),
        None => None,
    }
}

pub open spec fn opt_chars(o: Option<&str>) -> Option<Seq<char>> {
    match o {
        Some(s) => Some(s@),
        None => None,
    }
}

/// `timestamp` lies more than `tolerance` seconds from `now`, in either direction.
pub open spec fn outside_tolerance(now: i64, timestamp: i64, tolerance: i64) -> bool {
    now - timestamp > tolerance || timestamp - now > tolerance
}

/// The verdict on a webhook: headers first, then the timestamp, then the
/// signatures. It is `Valid` when some token of the signature header is the
/// `v1` signature of `id`, the timestamp and `body` under `key`.
pub open spec fn verdict(
    key: Seq<u8>,
    id: Option<Seq<u8>>,
    timestamp: Option<Seq<char>>,
    signature: Option<Seq<u8>>,
    body: Seq<u8>,
    now: i64,
    tolerance: i64,
) -> Verification {
    if id is None || timestamp is None || signature is None {
        Verification::Invalid(Rejection::MissingFields)
    } else {
        match parsed_i64(timestamp->Some_0) {
            None => Verification::Invalid(Rejection::InvalidTimestamp),
            Some(t) => if outside_tolerance(now, t, tolerance) {
                Verification::Invalid(Rejection::StaleTimestamp)
            } else if has_token(signature->Some_0, signature_for(key, id->Some_0, t, body)) {
                Verification::Valid
            } else {
                Verification::Invalid(Rejection::SignatureMismatch)
            },
        }
    }
}

/// The tolerance for timestamps that a sender's clock is allowed.
pub const DEFAULT_TOLERANCE_SECONDS: i64 = 300;

/// Checks a webhook against the shared secret at time `now` (seconds since
/// the epoch).
pub fn verify(
    secret: &SharedSecret,
    id: Option<&str>,
    timestamp: Option<&str>,
    signature: Option<&str>,
    body: &str,
    now: i64,
    tolerance: i64,
) -> (r: Verification)
    ensures
        r == verdict(
            secret@,
            opt_bytes(id),
            opt_chars(timestamp),
            opt_bytes(signature),
            body.spec_bytes(),
            now,
            tolerance,
        ),
{
    if id.is_none() || timestamp.is_none() || signature.is_none() {
        return Verification::Invalid(Rejection::MissingFields);
    }
    let id = id.unwrap();
    let signature = signature.unwrap();
    let t = match parse_i64(timestamp.unwrap()) {
        Some(t) => t,
        None => {
            return Verification::Invalid(Rejection::InvalidTimestamp);
        },
    };
    let d: i128 = now as i128 - t as i128;
    if d > tolerance as i128 || -d > tolerance as i128 {
        return Verification::Invalid(Rejection::StaleTimestamp);
    }
    let expected = secret.sign(id, t, body);
    if contains_token(signature.as_bytes(), expected.as_slice()) {
        Verification::Valid
    } else {
        Verification::Invalid(Rejection::SignatureMismatch)
    }
}

/// A header holding the correct signature as one of its whitespace-separated
/// tokens, beside any others, is accepted while the timestamp is within
/// tolerance.
pub proof fn lemma_matching_token_accepted(
    key: Seq<u8>,
    id: Seq<u8>,
    timestamp: Seq<char>,
    body: Seq<u8>,
    sig: Seq<u8>,
    before: Seq<u8>,
    after: Seq<u8>,
    now: i64,
    tolerance: i64,
)
    requires
        parsed_i64(timestamp) is Some,
        !outside_tolerance(now, parsed_i64(timestamp)->Some_0, tolerance),
        well_signed(key, id, parsed_i64(timestamp)->Some_0, body, sig),
        before.len() == 0 || is_separator(before.last()),
        after.len() == 0 || is_separator(after[0]),
    ensures
        verdict(key, Some(id), Some(timestamp), Some(before + sig + after), body, now, tolerance)
            == Verification::Valid,
{
    let t = parsed_i64(timestamp)->Some_0;
    let mac = hmac_base64(key, signed_content(id, t, body));
    let h = before + sig + after;
    let p = before.len() as int;
    assert(h.subrange(p, p + sig.len()) =~= sig);
    assert forall|k: int| 0 <= k < sig.len() implies !is_separator(sig[k]) by {
        if k >= 3 {
            assert(sig[k] == mac[k - 3]);
            assert(is_base64_byte(mac[k - 3]));
        }
    }
    if p > 0 {
        assert(h[p - 1] == before.last());
    }
    if p + sig.len() < h.len() {
        assert(h[p + sig.len()] == after[0]);
    }
    assert(token_at(h, signature_for(key, id, t, body), p));
}

/// A message signed with the shared secret is accepted while its timestamp
/// is within tolerance.
pub proof fn lemma_signed_message_accepted(
    key: Seq<u8>,
    id: Seq<u8>,
    timestamp: Seq<char>,
    body: Seq<u8>,
    sig: Seq<u8>,
    now: i64,
    tolerance: i64,
)
    requires
        parsed_i64(timestamp) is Some,
        !outside_tolerance(now, parsed_i64(timestamp)->Some_0, tolerance),
        well_signed(key, id, parsed_i64(timestamp)->Some_0, body, sig),
    ensures
        verdict(key, Some(id), Some(timestamp), Some(sig), body, now, tolerance)
            == Verification::Valid,
{
    lemma_matching_token_accepted(key, id, timestamp, body, sig, seq![], seq![], now, tolerance);
    assert(seq![] + sig + seq![] =~= sig);
}

/// Changing any bytes of a correct signature header, keeping its length (a
/// flipped bit, say), makes it a mismatch.
pub proof fn lemma_altered_signature_rejected(
    key: Seq<u8>,
    id: Seq<u8>,
    timestamp: Seq<char>,
    body: Seq<u8>,
    sig: Seq<u8>,
    altered: Seq<u8>,
    now: i64,
    tolerance: i64,
)
    requires
        parsed_i64(timestamp) is Some,
        !outside_tolerance(now, parsed_i64(timestamp)->Some_0, tolerance),
        well_signed(key, id, parsed_i64(timestamp)->Some_0, body, sig),
        altered.len() == sig.len(),
        altered != sig,
    ensures
        verdict(key, Some(id), Some(timestamp), Some(altered), body, now, tolerance)
            == Verification::Invalid(Rejection::SignatureMismatch),
{
    if has_token(altered, sig) {
        let p = choose|p: int| token_at(altered, sig, p);
        assert(p == 0);
        assert(altered =~= altered.subrange(0, sig.len() as int));
    }
}

/// A timestamp outside the tolerance is rejected as stale whatever the
/// signature.
pub proof fn lemma_stale_rejected(
    key: Seq<u8>,
    id: Seq<u8>,
    timestamp: Seq<char>,
    body: Seq<u8>,
    sig: Seq<u8>,
    now: i64,
    tolerance: i64,
)
    requires
        parsed_i64(timestamp) is Some,
        outside_tolerance(now, parsed_i64(timestamp)->Some_0, tolerance),
    ensures
        verdict(key, Some(id), Some(timestamp), Some(sig), body, now, tolerance)
            == Verification::Invalid(Rejection::StaleTimestamp),
{
}

} // verus!
