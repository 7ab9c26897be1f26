//! The difficulty rules: which tier the next queued word comes from, the time
//! budget of a tier, and the tier bounds of a race.

use crate::score::Mode;
use vstd::prelude::*;

verus! {

/// The tier bounds within which a race picks its words.
#[derive(Clone, Copy, Debug, PartialEq, Eq, Structural)]
pub struct DifficultyRange {
    pub low: u32,
    pub high: u32,
}

/// What a race was asked for: an optional number of words to type, and the
/// tier bounds.
#[derive(Clone, Copy, Debug, PartialEq, Eq, Structural)]
pub struct Plan {
    pub goal: Option<u32>,
    pub range: DifficultyRange,
}

/// Why a list of race arguments is refused.
#[derive(Clone, Copy, Debug, PartialEq, Eq, Structural)]
pub enum ConfigError {
    /// There are no arguments, or more than three.
    BadCount,
    /// The lower tier bound is above the upper one.
    BadRange,
}

/// The full range, which holds where nothing else was asked for.
pub open spec fn full_range() -> DifficultyRange {
    DifficultyRange { low: 1, high: 4 }
}

/// The plan that race arguments stand for. One argument is the number of
/// words; a second one fixes the tier; a second and a third bound it. Without
/// arguments the race has no goal and the full range.
pub open spec fn plan_of(count: Option<Seq<u32>>) -> Result<Plan, ConfigError> {
    match count {
        None => Ok(Plan { goal: None, range: full_range() }),
        Some(c) => if c.len() == 1 {
            Ok(Plan { goal: Some(c[0]), range: full_range() })
        } else if c.len() == 2 {
            Ok(Plan { goal: Some(c[0]), range: DifficultyRange { low: c[1], high: c[1] } })
        } else if c.len() == 3 {
            if c[1] <= c[2] {
                Ok(Plan { goal: Some(c[0]), range: DifficultyRange { low: c[1], high: c[2] } })
            } else {
                Err(ConfigError::BadRange)
            }
        } else {
            Err(ConfigError::BadCount)
        },
    }
}

/// The view of optional race arguments.
pub open spec fn count_view(count: Option<Vec<u32>>) -> Option<Seq<u32>> {
    match count {
        None => None,
        Some(c) => Some(c@),
    }
}

/// Resolves race arguments into a plan, or says why they are refused.
pub fn resolve_plan(count: &Option<Vec<u32>>) -> (plan: Result<Plan, ConfigError>)
    ensures
        plan == plan_of(count_view(*count)),
        plan matches Ok(p) ==> p.range.low <= p.range.high,
{
    match count {
        None => Ok(Plan { goal: None, range: DifficultyRange { low: 1, high: 4 } }),
        Some(c) => {
            if c.len() == 1 {
                Ok(Plan { goal: Some(c[0]), range: DifficultyRange { low: 1, high: 4 } })
            } else if c.len() == 2 {
                Ok(Plan { goal: Some(c[0]), range: DifficultyRange { low: c[1], high: c[1] } })
            } else if c.len() == 3 {
                if c[1] <= c[2] {
                    Ok(Plan { goal: Some(c[0]), range: DifficultyRange { low: c[1], high: c[2] } })
                } else {
                    Err(ConfigError::BadRange)
                }
            } else {
                Err(ConfigError::BadCount)
            }
        },
    }
}

/// Time Attack's tier after `queued` words were queued: a ramp over the
/// whole session, whatever the words are.
pub open spec fn time_attack_tier(queued: nat) -> u32 {
    if queued <= 20 {
        1
    } else if queued <= 40 {
        2
    } else if queued <= 60 {
        3
    } else {
        4
    }
}

/// Endless mode's tier after a word of `len` characters.
pub open spec fn endless_tier(len: nat) -> u32 {
    (len % 4 + 1) as u32
}

/// A race's tier after a word of `len` characters, within `range`.
pub open spec fn race_tier(len: nat, range: DifficultyRange) -> u32
    recommends
        range.low <= range.high,
{
    (len % ((range.high - range.low + 1) as nat) + range.low) as u32
}

/// The tier of the word to queue next: `len` is the length of the word just
/// consumed, `queued` the number of words queued so far.
pub open spec fn next_tier(mode: Mode, len: nat, queued: nat, range: DifficultyRange) -> u32 {
    match mode {
        Mode::TimeAttack => time_attack_tier(queued),
        Mode::Endless => endless_tier(len),
        Mode::Race => race_tier(len, range),
    }
}

/// The seconds that Time Attack allows for a word while `tier` is current.
pub open spec fn budget_secs(tier: u32) -> nat {
    if tier == 1 {
        10
    } else if tier == 2 {
        8
    } else if tier == 3 {
        6
    } else {
        5
    }
}

/// Time Attack's tier is one of 1 to 4 and never falls as more words are
/// queued.
pub proof fn lemma_time_attack_tier_monotone(q1: nat, q2: nat)
    requires
        q1 <= q2,
    ensures
        1 <= time_attack_tier(q1) <= time_attack_tier(q2) <= 4,
{
}

/// A race's tier lies within its bounds, whatever the word's length.
pub proof fn lemma_race_tier_in_range(len: nat, range: DifficultyRange)
    requires
        range.low <= range.high,
    ensures
        range.low <= race_tier(len, range) <= range.high,
{
    let span = (range.high - range.low + 1) as nat;
    assert(0 <= len % span < span) by (nonlinear_arith)
        requires
            span > 0,
    ;
}

/// Endless mode's tier is one of 1 to 4.
pub proof fn lemma_endless_tier_in_range(len: nat)
    ensures
        1 <= endless_tier(len) <= 4,
{
}

/// Computes the tier of the word to queue next.
pub fn next_difficulty(mode: Mode, len: usize, queued: u32, range: DifficultyRange) -> (tier: u32)
    requires
        mode is Race ==> range.low <= range.high,
    ensures
        tier == next_tier(mode, len as nat, queued as nat, range),
        mode is Race ==> range.low <= tier <= range.high,
        !(mode is Race) ==> 1 <= tier <= 4,
{
    match mode {
        Mode::TimeAttack => {
            if queued <= 20 {
                1
            } else if queued <= 40 {
                2
            } else if queued <= 60 {
                3
            } else {
                4
            }
        },
        Mode::Endless => (len % 4) as u32 + 1,
        Mode::Race => {
            proof {
                lemma_race_tier_in_range(len as nat, range);
            }
            let span: u64 = (range.high - range.low) as u64 + 1;
            let rest: u64 = (len as u64) % span;
            (rest + range.low as u64) as u32
        },
    }
}

/// Computes the seconds that Time Attack allows while `tier` is current.
pub fn time_budget(tier: u32) -> (secs: u32)
    ensures
        secs == budget_secs(tier),
{
    if tier == 1 {
        10
    } else if tier == 2 {
        8
    } else if tier == 3 {
        6
    } else {
        5
    }
}

} // verus!
