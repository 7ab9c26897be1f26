//! Play modes, session modifiers and the score a finished session yields.

use vstd::prelude::*;

verus! {

/// The three play modes.
#[derive(Clone, Copy, Debug, PartialEq, Eq, Structural)]
pub enum Mode {
    TimeAttack,
    Endless,
    Race,
}

/// Read-only switches of one session.
#[derive(Clone, Copy, Debug, PartialEq, Eq, Structural)]
pub struct Modifiers {
    /// Advance past a mistyped word instead of asking for it again.
    pub skip_err: bool,
    /// Keep nine words queued and show the next eight.
    pub multiple: bool,
    /// Reserved for character-by-character evaluation; the engine ignores it.
    pub classic: bool,
    /// Time Attack only: every correct word adds a second to the budget.
    pub accumulate: bool,
}

/// What a finished session reports. `time` is in milliseconds.
#[derive(Clone, Copy, Debug, PartialEq, Eq, Structural)]
pub struct Score {
    pub correct: u32,
    pub errors: u32,
    pub time: Option<u64>,
    pub wpm: Option<u32>,
}

impl Score {
    /// The empty score: all counters zero, no time, no rate.
    pub open spec fn empty() -> Score {
        Score { correct: 0, errors: 0, time: None, wpm: None }
    }

    /// The empty score, which stands for "no session was completed".
    pub fn default() -> (s: Score)
        ensures
            s == Score::empty(),
    {
        Score { correct: 0, errors: 0, time: None, wpm: None }
    }

    /// Whether this is the empty score.
    pub fn is_empty(&self) -> (b: bool)
        ensures
            b == (*self == Score::empty()),
    {
        self.correct == 0 && self.errors == 0 && self.time.is_none() && self.wpm.is_none()
    }
}

/// Whole seconds nearest to `ms` milliseconds, halves rounded up.
pub open spec fn rounded_secs(ms: nat) -> nat {
    (ms + 500) / 1000
}

/// Words per minute for `chars` typed characters in `ms` milliseconds,
/// counting five characters to the word.
pub open spec fn wpm_of(chars: nat, ms: nat) -> nat
    recommends
        rounded_secs(ms) > 0,
{
    12 * chars / rounded_secs(ms)
}

/// Whether the rate is defined and fits its field.
pub open spec fn wpm_defined(chars: nat, ms: nat) -> bool {
    rounded_secs(ms) > 0 && 12 * chars <= u32::MAX
}

/// The rate for `chars_typed` characters typed in `time_total`
/// milliseconds. To be called where the time rounds to a second at least and
/// twelve times the characters fit the result.
pub fn calculate_wpm(chars_typed: usize, time_total: u64) -> (wpm: u32)
    requires
        wpm_defined(chars_typed as nat, time_total as nat),
    ensures
        wpm == wpm_of(chars_typed as nat, time_total as nat),
{
    let up: u64 = if time_total % 1000 >= 500 {
        1
    } else {
        0
    };
    let secs: u64 = time_total / 1000 + up;
    let scaled: u64 = 12 * (chars_typed as u64);
    (scaled / secs) as u32
}

} // verus!
