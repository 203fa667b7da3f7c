//! How subscription plans map to the variants of the payment provider.

use vstd::prelude::*;
use crate::text::str_eq;

verus! {

/// The plan name that a variant of the payment provider stands for.
pub open spec fn variant_tier(variant_id: i64) -> Seq<char> {
    if variant_id == 1 {
        "pro"@
    } else if variant_id == 2 {
        "team"@
    } else {
        "free"@
    }
}

/// The variant of the payment provider that sells the plan named `tier`, if
/// the plan is sold at all.
pub open spec fn tier_variant(tier: Seq<char>) -> Option<i64> {
    if tier == "pro"@ {
        Some(1i64)
    } else if tier == "team"@ {
        Some(2i64)
    } else {
        None
    }
}

/// The plan name for a variant: `pro` for variant 1, `team` for variant 2,
/// and `free` for any other.
pub fn variant_to_tier(variant_id: i64) -> (tier: &'static str)
    ensures
        tier@ == variant_tier(variant_id),
{
    if variant_id == 1 {
        "pro"
    } else if variant_id == 2 {
        "team"
    } else {
        "free"
    }
}

/// The variant for a plan name: 1 for `pro`, 2 for `team`, and none for any
/// other name.
pub fn tier_to_variant(tier: &str) -> (variant: Option<i64>)
    ensures
        variant == tier_variant(tier@),
{
    if str_eq(tier, "pro") {
        Some(1)
    } else if str_eq(tier, "team") {
        Some(2)
    } else {
        None
    }
}

} // verus!
