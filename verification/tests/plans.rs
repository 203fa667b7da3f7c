use archivemind::billing::{tier_to_variant, variant_to_tier};
use archivemind::config::{resolve_provider, Config, Provider};
use archivemind::plan::{effective_tier, token_expiry, PlanLimits, PlanTier};

fn config(anthropic: &str, perplexity: &str) -> Config {
    Config {
        database_url: "postgres://localhost/notes".to_string(),
        jwt_secret: "secret".to_string(),
        jwt_expiry_hours: 72,
        cors_origin: "http://localhost:5173".to_string(),
        port: 8080,
        mapbox_monthly_cap: 50000,
        lemonsqueezy_webhook_secret: String::new(),
        lemonsqueezy_api_key: String::new(),
        perplexity_api_key: perplexity.to_string(),
        anthropic_api_key: anthropic.to_string(),
    }
}

#[test]
fn tier_names() {
    assert_eq!(PlanTier::from_str("pro"), PlanTier::Pro);
    assert_eq!(PlanTier::from_str("team"), PlanTier::Team);
    assert_eq!(PlanTier::from_str("free"), PlanTier::Free);
    assert_eq!(PlanTier::from_str(""), PlanTier::Free);
    assert_eq!(PlanTier::from_str("Pro"), PlanTier::Free);
    assert_eq!(PlanTier::from_str("enterprise"), PlanTier::Free);
    for tier in [PlanTier::Free, PlanTier::Pro, PlanTier::Team] {
        assert_eq!(PlanTier::from_str(tier.name()), tier);
    }
    assert_eq!(PlanTier::Team.name(), "team");
}

#[test]
fn limits_of_the_free_plan() {
    assert_eq!(
        PlanLimits::for_tier(PlanTier::Free),
        PlanLimits {
            tier: PlanTier::Free,
            map_loads: 50,
            storage_bytes: 104_857_600,
            notes: 50,
            entities: 25,
            media_uploads: 20,
            ai_requests: 0,
            workspaces: 1,
            team_members: 1,
            price_cents: 0,
        }
    );
}

#[test]
fn limits_of_the_paid_plans() {
    let pro = PlanLimits::for_tier(PlanTier::Pro);
    assert_eq!(pro.tier, PlanTier::Pro);
    assert_eq!(pro.map_loads, 2_000);
    assert_eq!(pro.storage_bytes, 5 * 1024 * 1024 * 1024);
    assert_eq!(pro.notes, -1);
    assert_eq!(pro.entities, -1);
    assert_eq!(pro.media_uploads, 500);
    assert_eq!(pro.ai_requests, 100);
    assert_eq!(pro.workspaces, 1);
    assert_eq!(pro.team_members, 1);
    assert_eq!(pro.price_cents, 900);
    let team = PlanLimits::for_tier(PlanTier::Team);
    assert_eq!(team.tier, PlanTier::Team);
    assert_eq!(team.map_loads, 10_000);
    assert_eq!(team.storage_bytes, 26_843_545_600);
    assert_eq!(team.notes, -1);
    assert_eq!(team.entities, -1);
    assert_eq!(team.media_uploads, 2_000);
    assert_eq!(team.ai_requests, 500);
    assert_eq!(team.workspaces, 5);
    assert_eq!(team.team_members, 10);
    assert_eq!(team.price_cents, 2900);
}

#[test]
fn only_notes_and_entities_can_be_unlimited() {
    let free = PlanLimits::for_tier(PlanTier::Free);
    let pro = PlanLimits::for_tier(PlanTier::Pro);
    for resource in ["notes", "entities", "map_loads", "storage_bytes", "media_uploads", "ai_requests", ""] {
        assert!(!free.is_unlimited(resource));
    }
    assert!(pro.is_unlimited("notes"));
    assert!(pro.is_unlimited("entities"));
    assert!(!pro.is_unlimited("map_loads"));
    assert!(!pro.is_unlimited("storage_bytes"));
    assert!(!pro.is_unlimited("workspaces"));
    let odd = PlanLimits { media_uploads: -1, ..free };
    assert!(!odd.is_unlimited("media_uploads"));
}

#[test]
fn limit_of_each_resource() {
    let free = PlanLimits::for_tier(PlanTier::Free);
    assert_eq!(free.limit_for("map_loads"), 50);
    assert_eq!(free.limit_for("storage_bytes"), 104_857_600);
    assert_eq!(free.limit_for("notes"), 50);
    assert_eq!(free.limit_for("entities"), 25);
    assert_eq!(free.limit_for("media_uploads"), 20);
    assert_eq!(free.limit_for("ai_requests"), 0);
    assert_eq!(free.limit_for("workspaces"), 0);
    assert_eq!(free.limit_for("team_members"), 0);
    assert_eq!(free.limit_for(""), 0);
    let team = PlanLimits::for_tier(PlanTier::Team);
    assert_eq!(team.limit_for("notes"), -1);
    assert_eq!(team.limit_for("storage_bytes"), 26_843_545_600);
    assert_eq!(team.limit_for("ai_requests"), 500);
}

#[test]
fn when_a_use_is_allowed() {
    let free = PlanLimits::for_tier(PlanTier::Free);
    let pro = PlanLimits::for_tier(PlanTier::Pro);
    assert!(free.allows("notes", 0));
    assert!(free.allows("notes", 49));
    assert!(!free.allows("notes", 50));
    assert!(!free.allows("notes", 51));
    assert!(free.allows("entities", 24));
    assert!(!free.allows("entities", 25));
    assert!(pro.allows("notes", i64::MAX));
    assert!(pro.allows("entities", 1_000_000));
    assert!(pro.allows("media_uploads", 499));
    assert!(!pro.allows("media_uploads", 500));
    assert!(!free.allows("ai_requests", 0));
    assert!(!free.allows("ai_requests", -5));
    assert!(pro.allows("ai_requests", 99));
    assert!(!pro.allows("ai_requests", 100));
    assert!(!free.allows("unknown", 0));
    assert!(free.allows("unknown", -1));
    assert!(free.refuses_assistant("ai_requests"));
    assert!(!pro.refuses_assistant("ai_requests"));
    assert!(!free.refuses_assistant("notes"));
    assert!(!free.refuses_assistant("unknown"));
}

#[test]
fn variants_and_tiers() {
    assert_eq!(variant_to_tier(1), "pro");
    assert_eq!(variant_to_tier(2), "team");
    assert_eq!(variant_to_tier(0), "free");
    assert_eq!(variant_to_tier(3), "free");
    assert_eq!(variant_to_tier(-1), "free");
    assert_eq!(variant_to_tier(i64::MAX), "free");
    assert_eq!(tier_to_variant("pro"), Some(1));
    assert_eq!(tier_to_variant("team"), Some(2));
    assert_eq!(tier_to_variant("free"), None);
    assert_eq!(tier_to_variant(""), None);
    assert_eq!(tier_to_variant("PRO"), None);
    for tier in ["pro", "team"] {
        assert_eq!(variant_to_tier(tier_to_variant(tier).unwrap()), tier);
    }
}

#[test]
fn provider_follows_the_keys() {
    assert_eq!(resolve_provider(&config("key-a", "key-p")), (Provider::Anthropic, "key-a"));
    assert_eq!(resolve_provider(&config("key-a", "")), (Provider::Anthropic, "key-a"));
    assert_eq!(resolve_provider(&config("", "key-p")), (Provider::Perplexity, "key-p"));
    assert_eq!(resolve_provider(&config("", "")), (Provider::Unconfigured, ""));
}

#[test]
fn plan_during_and_after_a_grace_period() {
    assert_eq!(effective_tier("pro", None, None, 100), (PlanTier::Pro, false));
    assert_eq!(effective_tier("team", Some("pro"), None, 100), (PlanTier::Team, false));
    assert_eq!(effective_tier("unknown", None, None, 100), (PlanTier::Free, false));
    assert_eq!(effective_tier("free", Some("team"), Some(101), 100), (PlanTier::Team, false));
    assert_eq!(effective_tier("free", Some("pro"), Some(i64::MAX), 100), (PlanTier::Pro, false));
    assert_eq!(effective_tier("pro", None, Some(101), 100), (PlanTier::Free, false));
    assert_eq!(effective_tier("pro", Some("team"), Some(100), 100), (PlanTier::Free, true));
    assert_eq!(effective_tier("pro", Some("team"), Some(99), 100), (PlanTier::Free, true));
    assert_eq!(effective_tier("team", None, Some(i64::MIN), 0), (PlanTier::Free, true));
}

#[test]
fn token_lifetimes() {
    assert_eq!(token_expiry(1_700_000_000, 72), Some(1_700_000_000 + 259_200));
    assert_eq!(token_expiry(0, 0), Some(0));
    assert_eq!(token_expiry(10, -1), Some(10 - 3600));
    assert_eq!(token_expiry(i64::MAX, 1), None);
    assert_eq!(token_expiry(i64::MAX, 0), Some(i64::MAX));
    assert_eq!(token_expiry(0, i64::MAX), None);
    assert_eq!(token_expiry(0, i64::MAX / 3600), Some(i64::MAX / 3600 * 3600));
    assert_eq!(token_expiry(-200, i64::MAX / 3600 + 1), None);
    assert_eq!(token_expiry(i64::MIN, -1), None);
}
