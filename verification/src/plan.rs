//! Subscription plans and what each of them allows.

use vstd::prelude::*;
use crate::text::str_eq;

verus! {

/// A subscription plan.
#[derive(Clone, Copy, Debug, PartialEq, Eq, Structural)]
pub enum PlanTier {
    Free,
    Pro,
    Team,
}

/// The plan that a stored plan name stands for. Any name other than `pro`
/// and `team` stands for the free plan.
pub open spec fn tier_named(name: Seq<char>) -> PlanTier {
    if name == "pro"@ {
        PlanTier::Pro
    } else if name == "team"@ {
        PlanTier::Team
    } else {
        PlanTier::Free
    }
}

impl PlanTier {
    /// Reads a plan from its stored name.
    pub fn from_str(s: &str) -> (tier: Self)
        ensures
            tier == tier_named(s@),
    {
        if str_eq(s, "pro") {
            PlanTier::Pro
        } else if str_eq(s, "team") {
            PlanTier::Team
        } else {
            PlanTier::Free
        }
    }

    /// The stored name of the plan.
    pub fn name(self) -> (name: &'static str)
        ensures
            name@ == match self {
                PlanTier::Free => "free"@,
                PlanTier::Pro => "pro"@,
                PlanTier::Team => "team"@,
            },
    {
        match self {
            PlanTier::Free => "free",
            PlanTier::Pro => "pro",
            PlanTier::Team => "team",
        }
    }
}

/// What a plan allows per month or in total. A limit of `-1` on notes or
/// entities means that there is none.
#[derive(Clone, Copy, Debug, PartialEq, Eq, Structural)]
pub struct PlanLimits {
    pub tier: PlanTier,
    pub map_loads: i32,
    pub storage_bytes: i64,
    pub notes: i32,
    pub entities: i32,
    pub media_uploads: i32,
    pub ai_requests: i32,
    pub workspaces: i32,
    pub team_members: i32,
    pub price_cents: i32,
}

/// The limits of each plan.
pub open spec fn limits_of(tier: PlanTier) -> PlanLimits {
    match tier {
        PlanTier::Free => PlanLimits {
            tier,
            map_loads: 50,
            storage_bytes: 104_857_600,
            notes: 50,
            entities: 25,
            media_uploads: 20,
            ai_requests: 0,
            workspaces: 1,
            team_members: 1,
            price_cents: 0,
        },
        PlanTier::Pro => PlanLimits {
            tier,
            map_loads: 2_000,
            storage_bytes: 5_368_709_120,
            notes: -1i32,
            entities: -1i32,
            media_uploads: 500,
            ai_requests: 100,
            workspaces: 1,
            team_members: 1,
            price_cents: 900,
        },
        PlanTier::Team => PlanLimits {
            tier,
            map_loads: 10_000,
            storage_bytes: 26_843_545_600,
            notes: -1i32,
            entities: -1i32,
            media_uploads: 2_000,
            ai_requests: 500,
            workspaces: 5,
            team_members: 10,
            price_cents: 2900,
        },
    }
}

impl PlanLimits {
    /// Whether these limits put no bound on `resource`.
    pub open spec fn unlimited(self, resource: Seq<char>) -> bool {
        if resource == "notes"@ {
            self.notes < 0
        } else if resource == "entities"@ {
            self.entities < 0
        } else {
            false
        }
    }

    /// The bound that these limits put on `resource`; zero for a resource
    /// that they do not know.
    pub open spec fn limit(self, resource: Seq<char>) -> int {
        if resource == "map_loads"@ {
            self.map_loads as int
        } else if resource == "storage_bytes"@ {
            self.storage_bytes as int
        } else if resource == "notes"@ {
            self.notes as int
        } else if resource == "entities"@ {
            self.entities as int
        } else if resource == "media_uploads"@ {
            self.media_uploads as int
        } else if resource == "ai_requests"@ {
            self.ai_requests as int
        } else {
            0
        }
    }

    /// Whether a use of `resource` is refused because the plan does not
    /// include assistant requests at all.
    pub open spec fn assistant_refused(self, resource: Seq<char>) -> bool {
        !self.unlimited(resource) && resource == "ai_requests"@ && self.limit(resource) <= 0
    }

    /// Whether one more use of `resource` is within these limits when
    /// `current` are in use.
    pub open spec fn admits(self, resource: Seq<char>, current: int) -> bool {
        self.unlimited(resource) || (!self.assistant_refused(resource) && current < self.limit(
            resource,
        ))
    }

    /// The limits of `tier`: 100 MB, 5 GB and 25 GB of storage for the free,
    /// the pro and the team plan, and so on.
    pub fn for_tier(tier: PlanTier) -> (limits: Self)
        ensures
            limits == limits_of(tier),
            limits.tier == tier,
    {
        match tier {
            PlanTier::Free => PlanLimits {
                tier,
                map_loads: 50,
                storage_bytes: 100 * 1024 * 1024,
                notes: 50,
                entities: 25,
                media_uploads: 20,
                ai_requests: 0,
                workspaces: 1,
                team_members: 1,
                price_cents: 0,
            },
            PlanTier::Pro => PlanLimits {
                tier,
                map_loads: 2_000,
                storage_bytes: 5 * 1024 * 1024 * 1024,
                notes: -1,
                entities: -1,
                media_uploads: 500,
                ai_requests: 100,
                workspaces: 1,
                team_members: 1,
                price_cents: 900,
            },
            PlanTier::Team => PlanLimits {
                tier,
                map_loads: 10_000,
                storage_bytes: 25 * 1024 * 1024 * 1024,
                notes: -1,
                entities: -1,
                media_uploads: 2_000,
                ai_requests: 500,
                workspaces: 5,
                team_members: 10,
                price_cents: 2900,
            },
        }
    }

    /// Whether `resource` is unlimited: notes and entities are where their
    /// limit is negative, and nothing else ever is.
    pub fn is_unlimited(&self, resource: &str) -> (r: bool)
        ensures
            r == self.unlimited(resource@),
    {
        if str_eq(resource, "notes") {
            self.notes < 0
        } else if str_eq(resource, "entities") {
            self.entities < 0
        } else {
            false
        }
    }

    /// The limit on `resource`, and zero for an unknown resource.
    pub fn limit_for(&self, resource: &str) -> (r: i64)
        ensures
            r == self.limit(resource@),
    {
        if str_eq(resource, "map_loads") {
            self.map_loads as i64
        } else if str_eq(resource, "storage_bytes") {
            self.storage_bytes
        } else if str_eq(resource, "notes") {
            self.notes as i64
        } else if str_eq(resource, "entities") {
            self.entities as i64
        } else if str_eq(resource, "media_uploads") {
            self.media_uploads as i64
        } else if str_eq(resource, "ai_requests") {
            self.ai_requests as i64
        } else {
            0
        }
    }

    /// Whether every use of `resource` is refused because the plan has no
    /// assistant requests. This is decided before anything is counted.
    pub fn refuses_assistant(&self, resource: &str) -> (r: bool)
        ensures
            r == self.assistant_refused(resource@),
    {
        !self.is_unlimited(resource) && self.limit_for(resource) <= 0 && str_eq(
            resource,
            "ai_requests",
        )
    }

    /// Whether one more use of `resource` is allowed when `current` are in
    /// use: always for an unlimited resource, and else while `current` is
    /// below the limit.
    pub fn allows(&self, resource: &str, current: i64) -> (r: bool)
        ensures
            r == self.admits(resource@, current as int),
    {
        if self.is_unlimited(resource) {
            true
        } else if self.refuses_assistant(resource) {
            false
        } else {
            current < self.limit_for(resource)
        }
    }
}

/// The plan that counts for a user, and whether a grace period has run out.
///
/// While a grace period lasts, the plan from before it counts, or the free
/// plan where none is recorded. Once it is over, the free plan counts and the
/// grace period is to be closed. Without a grace period the stored plan
/// counts.
pub open spec fn plan_in_force(
    plan: Seq<char>,
    pre_grace_plan: Option<Seq<char>>,
    grace_period_end: Option<i64>,
    now: i64,
) -> (PlanTier, bool) {
    match grace_period_end {
        Some(end) => if now < end {
            (
                match pre_grace_plan {
                    Some(name) => tier_named(name),
                    None => PlanTier::Free,
                },
                false,
            )
        } else {
            (PlanTier::Free, true)
        },
        None => (tier_named(plan), false),
    }
}

/// The plan that counts for a user at the time `now`, and whether the user's
/// grace period has run out and is to be closed. Times are counted from the
/// same origin in the same unit.
pub fn effective_tier(
    plan: &str,
    pre_grace_plan: Option<&str>,
    grace_period_end: Option<i64>,
    now: i64,
) -> (r: (PlanTier, bool))
    ensures
        r == plan_in_force(
            plan@,
            match pre_grace_plan {
                Some(name) => Some(name@),
                None => None,
            },
            grace_period_end,
            now,
        ),
{
    match grace_period_end {
        Some(end) => {
            if now < end {
                let tier = match pre_grace_plan {
                    Some(name) => PlanTier::from_str(name),
                    None => PlanTier::Free,
                };
                (tier, false)
            } else {
                (PlanTier::Free, true)
            }
        },
        None => (PlanTier::from_str(plan), false),
    }
}

/// The time at which a token issued at `now` runs out, in seconds: `now`
/// and the lifetime in hours, or `None` where the lifetime in seconds or the
/// sum is beyond what an `i64` holds.
pub fn token_expiry(now: i64, expiry_hours: i64) -> (r: Option<i64>)
    ensures
        r == if i64::MIN <= expiry_hours * 3600 <= i64::MAX && i64::MIN <= now + expiry_hours
            * 3600 <= i64::MAX {
            Some((now + expiry_hours * 3600) as i64)
        } else {
            None
        },
{
    match expiry_hours.checked_mul(3600) {
        Some(seconds) => now.checked_add(seconds),
        None => None,
    }
}

} // verus!
