use archivemind::media::{range_len, resolve_range};
use archivemind::webhook::{
    signature_accepted, subscribed_tier, verify_signature, webhook_event, WebhookEvent,
};

const BODY: &[u8] = b"what do ya want for nothing?";
const SIGNATURE: &str = "5bdcc146bf60754e6a042426089575c75a003f089d2739839dec58b964ec3843";

#[test]
fn signed_delivery_is_accepted() {
    assert!(verify_signature("Jefe", BODY, SIGNATURE));
}

#[test]
fn wrong_signatures_are_turned_down() {
    assert!(!verify_signature("Jefe", BODY, ""));
    assert!(!verify_signature("Jefe", BODY, "what do ya want for nothing?"));
    assert!(!verify_signature("Jefe", BODY, &SIGNATURE.to_uppercase()));
    assert!(!verify_signature("Jefe", BODY, &SIGNATURE[..63]));
    assert!(!verify_signature("Jefe", b"what do ya want for nothing", SIGNATURE));
    assert!(!verify_signature("jefe", BODY, SIGNATURE));
}

#[test]
fn nothing_is_accepted_without_a_secret() {
    assert!(!verify_signature("", BODY, SIGNATURE));
    assert!(!verify_signature("", b"", ""));
    assert!(!verify_signature(
        "",
        b"",
        "b613679a0814d9ec772f95d778c35fc5ff1697c493715653c6c712144292c5ad"
    ));
}

#[test]
fn long_keys_and_empty_bodies() {
    let key = "k".repeat(200);
    let body = b"{\"meta\":{\"event_name\":\"subscription_created\"}}";
    let mut found = 0;
    for candidate in [SIGNATURE, "00", ""] {
        if verify_signature(&key, body, candidate) {
            found += 1;
        }
    }
    assert_eq!(found, 0);
    assert!(verify_signature(
        "key",
        b"The quick brown fox jumps over the lazy dog",
        "f7bc83f430538424b13298e6aa6fb143ef4d59a14946175997479dbc2d1a3cd8"
    ));
}

#[test]
fn comparison_of_signatures() {
    assert!(signature_accepted(true, "abc", "abc"));
    assert!(!signature_accepted(true, "abc", "abd"));
    assert!(!signature_accepted(true, "abc", "ABC"));
    assert!(!signature_accepted(false, "abc", "abc"));
    assert!(!signature_accepted(false, "", ""));
    assert!(signature_accepted(true, "", ""));
}

#[test]
fn event_names() {
    assert_eq!(webhook_event("subscription_created"), WebhookEvent::SubscriptionCreated);
    assert_eq!(webhook_event("subscription_updated"), WebhookEvent::SubscriptionUpdated);
    assert_eq!(webhook_event("subscription_payment_success"), WebhookEvent::PaymentSucceeded);
    assert_eq!(webhook_event("subscription_payment_failed"), WebhookEvent::PaymentFailed);
    assert_eq!(webhook_event("subscription_cancelled"), WebhookEvent::SubscriptionEnded);
    assert_eq!(webhook_event("subscription_expired"), WebhookEvent::SubscriptionEnded);
    assert_eq!(webhook_event("order_created"), WebhookEvent::Unhandled);
    assert_eq!(webhook_event(""), WebhookEvent::Unhandled);
    assert_eq!(webhook_event("Subscription_Created"), WebhookEvent::Unhandled);
}

#[test]
fn plan_of_a_subscription() {
    assert_eq!(subscribed_tier(Some(1)), "pro");
    assert_eq!(subscribed_tier(Some(2)), "team");
    assert_eq!(subscribed_tier(Some(7)), "free");
    assert_eq!(subscribed_tier(None), "pro");
}

#[test]
fn ranges_of_a_file() {
    assert_eq!(resolve_range(Some(0), None, 100), Some((0, 99)));
    assert_eq!(resolve_range(None, None, 100), Some((0, 99)));
    assert_eq!(resolve_range(Some(10), Some(19), 100), Some((10, 19)));
    assert_eq!(resolve_range(Some(10), Some(500), 100), Some((10, 99)));
    assert_eq!(resolve_range(Some(99), None, 100), Some((99, 99)));
    assert_eq!(resolve_range(Some(100), None, 100), None);
    assert_eq!(resolve_range(Some(20), Some(10), 100), None);
    assert_eq!(resolve_range(Some(0), Some(0), 100), Some((0, 0)));
    assert_eq!(resolve_range(Some(0), None, 0), None);
    assert_eq!(resolve_range(None, Some(5), 0), None);
    assert_eq!(resolve_range(Some(0), None, 1), Some((0, 0)));
    assert_eq!(resolve_range(Some(u64::MAX), Some(u64::MAX), u64::MAX), None);
    assert_eq!(range_len(10, 19), 10);
    assert_eq!(range_len(0, 0), 1);
}
