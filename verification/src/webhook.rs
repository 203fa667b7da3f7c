//! Webhooks of the payment provider: whether a delivery is signed with the
//! shared secret, and what it announces.

use vstd::prelude::*;
use hmac::Mac;
use vstd::string::StringSliceAdditionalSpecFns;
use crate::billing::{variant_tier, variant_to_tier};
use crate::text::str_eq;

verus! {

/// The HMAC-SHA256 code of `body` under `key`, as `hmac::Hmac<sha2::Sha256>`
/// computes it.
pub uninterp spec fn hmac_sha256_of(key: Seq<u8>, body: Seq<u8>) -> Seq<u8>;

/// Computes the HMAC-SHA256 code of `body` under `key` with the `hmac` and
/// `sha2` crates.
///
/// Trusted: a code comes back for every key, whatever its length, and it
/// depends on the key and the body alone; it is the value that
/// [`hmac_sha256_of`] names.
#[verifier::external_body]
pub(crate) fn hmac_sha256(key: &[u8], body: &[u8]) -> (r: Option<Vec<u8>>)
    ensures
        r is Some,
        r->0@ == hmac_sha256_of(key@, body@),
{
    match hmac::Hmac::<sha2::Sha256>::new_from_slice(key) {
        Ok(mut mac) => {
            mac.update(body);
            Some(mac.finalize().into_bytes().to_vec())
        },
        Err(_) => None,
    }
}

/// The lower-case hexadecimal digit for a value below sixteen.
pub open spec fn hex_digit(n: u8) -> char {
    if n < 10 {
        (('0' as u8) + n) as char
    } else {
        (('a' as u8) + (n - 10) as u8) as char
    }
}

/// `bytes` written in lower-case hexadecimal digits, two for each byte.
pub open spec fn hex_of(bytes: Seq<u8>) -> Seq<char>
    decreases bytes.len(),
{
    if bytes.len() == 0 {
        Seq::empty()
    } else {
        hex_of(bytes.drop_last()) + seq![
            hex_digit(bytes.last() / 16),
            hex_digit(bytes.last() % 16),
        ]
    }
}

/// Writes bytes in hexadecimal with `hex::encode`.
///
/// Trusted: each byte gives two lower-case digits, the high half first.
#[verifier::external_body]
pub(crate) fn hex_encode(bytes: &Vec<u8>) -> (r: String)
    ensures
        r@ == hex_of(bytes@),
{
    hex::encode(bytes)
}

/// The signature that a delivery of `body` must carry under `secret`.
pub open spec fn expected_signature(secret: Seq<u8>, body: Seq<u8>) -> Seq<char> {
    hex_of(hmac_sha256_of(secret, body))
}

/// Whether a delivery with the signature `signature` is accepted when the
/// signature that is due is `expected`. Without a secret nothing is
/// accepted.
pub fn signature_accepted(secret_is_set: bool, expected: &str, signature: &str) -> (r: bool)
    ensures
        r == (secret_is_set && expected@ == signature@),
{
    secret_is_set && str_eq(expected, signature)
}

/// Whether `signature` is the hexadecimal HMAC-SHA256 code of `body` under
/// `secret`. With an empty secret every delivery is turned down.
pub fn verify_signature(secret: &str, body: &[u8], signature: &str) -> (r: bool)
    ensures
        r == (secret@.len() > 0 && signature@ == expected_signature(secret.spec_bytes(), body@)),
{
    if secret.is_empty() {
        return false;
    }
    match hmac_sha256(secret.as_bytes(), body) {
        Some(code) => {
            let expected = hex_encode(&code);
            signature_accepted(true, expected.as_str(), signature)
        },
        None => false,
    }
}

/// What a delivery announces.
#[derive(Clone, Copy, Debug, PartialEq, Eq, Structural)]
pub enum WebhookEvent {
    SubscriptionCreated,
    SubscriptionUpdated,
    PaymentSucceeded,
    PaymentFailed,
    /// The subscription was cancelled or has run out.
    SubscriptionEnded,
    /// Anything else; it is acknowledged and passed over.
    Unhandled,
}

/// The event that an event name stands for.
pub open spec fn event_named(name: Seq<char>) -> WebhookEvent {
    if name == "subscription_created"@ {
        WebhookEvent::SubscriptionCreated
    } else if name == "subscription_updated"@ {
        WebhookEvent::SubscriptionUpdated
    } else if name == "subscription_payment_success"@ {
        WebhookEvent::PaymentSucceeded
    } else if name == "subscription_payment_failed"@ {
        WebhookEvent::PaymentFailed
    } else if name == "subscription_cancelled"@ || name == "subscription_expired"@ {
        WebhookEvent::SubscriptionEnded
    } else {
        WebhookEvent::Unhandled
    }
}

/// Reads the name of an event.
pub fn webhook_event(name: &str) -> (event: WebhookEvent)
    ensures
        event == event_named(name@),
{
    if str_eq(name, "subscription_created") {
        WebhookEvent::SubscriptionCreated
    } else if str_eq(name, "subscription_updated") {
        WebhookEvent::SubscriptionUpdated
    } else if str_eq(name, "subscription_payment_success") {
        WebhookEvent::PaymentSucceeded
    } else if str_eq(name, "subscription_payment_failed") {
        WebhookEvent::PaymentFailed
    } else if str_eq(name, "subscription_cancelled") || str_eq(name, "subscription_expired") {
        WebhookEvent::SubscriptionEnded
    } else {
        WebhookEvent::Unhandled
    }
}

/// The plan that a subscription to `variant_id` buys: the plan of the
/// variant, and `pro` where the delivery names no variant.
pub fn subscribed_tier(variant_id: Option<i64>) -> (tier: &'static str)
    ensures
        tier@ == match variant_id {
            Some(id) => variant_tier(id),
            None => "pro"@,
        },
{
    match variant_id {
        Some(id) => variant_to_tier(id),
        None => "pro",
    }
}

} // verus!
