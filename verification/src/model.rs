//! The session state machine in mathematical terms: the states, the steps
//! between them, and what holds of every session.

use crate::difficulty::{
    budget_secs, full_range, next_tier, plan_of, ConfigError, DifficultyRange, Plan,
};
use crate::input::Outcome;
use crate::score::{wpm_of, Mode, Modifiers, Score};
use crate::words::bank_tier;
use vstd::prelude::*;

verus! {

/// Where a session stands.
#[derive(Clone, Copy, Debug, PartialEq, Eq, Structural)]
pub enum Phase {
    /// The queue is still being filled to its depth.
    Seeding,
    /// The next target has to be taken from the queue.
    Fetch,
    /// A line of input for the current target is awaited.
    Prompt,
    /// Time Attack: a word was typed after its budget had run out.
    TimedOut,
    /// Race: the goal was reached.
    Finished,
    /// The player left.
    Quit,
    /// A tier had no word to offer.
    Exhausted,
}

/// The state of a session as contracts see it.
pub struct SessionView {
    pub mode: Mode,
    pub options: Modifiers,
    /// Race: the number of words to type, if one was asked for.
    pub goal: Option<u32>,
    pub range: DifficultyRange,
    /// The words waiting behind the current target, next one first.
    pub queue: Seq<Seq<char>>,
    /// The target being typed, once one was fetched.
    pub current: Seq<char>,
    pub correct: u32,
    pub errors: u32,
    /// Time Attack: characters of the words typed correctly.
    pub chars: usize,
    /// Time Attack: words queued since the session began.
    pub queued: u32,
    /// Time Attack: milliseconds allowed for the current target.
    pub budget_ms: u64,
    /// Time Attack: milliseconds the last correct word took.
    pub last_ms: u64,
    /// Time Attack: milliseconds all correct words took together.
    pub total_ms: u64,
    pub phase: Phase,
}

/// The plan a session of `mode` runs under: only a race reads `count`.
pub open spec fn session_plan(mode: Mode, count: Option<Seq<u32>>) -> Result<Plan, ConfigError> {
    if mode is Race {
        plan_of(count)
    } else {
        Ok(Plan { goal: None, range: full_range() })
    }
}

/// The tier of the first word queued: a race begins at its lower bound, the
/// other modes at tier 1.
pub open spec fn first_tier(mode: Mode, range: DifficultyRange) -> u32 {
    if mode is Race {
        range.low
    } else {
        1
    }
}

/// The tier that seeds position `i` of a queue: the first tier for the
/// first word and throughout Time Attack, else the tier that follows from
/// the word queued just before.
pub open spec fn seed_tier_at(
    mode: Mode,
    range: DifficultyRange,
    queue: Seq<Seq<char>>,
    i: int,
) -> u32 {
    if mode is TimeAttack || i <= 0 {
        first_tier(mode, range)
    } else {
        next_tier(mode, queue[i - 1].len(), 0, range)
    }
}

/// Whether every word of `queue` is one that its seeding tier offers.
pub open spec fn seeded_from(
    bank: Map<u32, Vec<String>>,
    mode: Mode,
    range: DifficultyRange,
    queue: Seq<Seq<char>>,
) -> bool {
    forall|i: int|
        0 <= i < queue.len() ==> bank_tier(bank, seed_tier_at(mode, range, queue, i)).contains(
            #[trigger] queue[i],
        )
}

/// Whether seeding may draw from `tier`: from the first tier alone where
/// one word is queued and throughout Time Attack, else from every tier that
/// the mode's rule can give.
pub open spec fn seeding_reaches(
    mode: Mode,
    multiple: bool,
    range: DifficultyRange,
    tier: u32,
) -> bool {
    if mode is TimeAttack || !multiple {
        tier == first_tier(mode, range)
    } else if mode is Race {
        range.low <= tier <= range.high
    } else {
        1 <= tier <= 4
    }
}

impl SessionView {
    /// The state before any word is queued.
    pub open spec fn fresh(mode: Mode, options: Modifiers, plan: Plan) -> SessionView {
        SessionView {
            mode,
            options,
            goal: if mode is Race {
                plan.goal
            } else {
                None
            },
            range: if mode is Race {
                plan.range
            } else {
                full_range()
            },
            queue: Seq::empty(),
            current: Seq::empty(),
            correct: 0,
            errors: 0,
            chars: 0,
            queued: 0,
            budget_ms: 0,
            last_ms: 0,
            total_ms: 0,
            phase: Phase::Seeding,
        }
    }

    /// The number of words kept queued: nine where the next words are
    /// shown, else one.
    pub open spec fn depth(self) -> nat {
        if self.options.multiple {
            9
        } else {
            1
        }
    }

    /// What holds of every state a session can be in.
    pub open spec fn wf(self) -> bool {
        &&& self.range.low <= self.range.high
        &&& !(self.mode is Race) ==> self.goal is None && self.range == full_range()
        &&& if self.phase is Seeding {
            self.queue.len() < self.depth()
        } else {
            self.queue.len() == self.depth()
        }
        &&& self.current.len() <= usize::MAX
        &&& forall|i: int|
            0 <= i < self.queue.len() ==> (#[trigger] self.queue[i]).len() <= usize::MAX
        &&& self.phase is Seeding ==> self.correct == 0 && self.errors == 0
        &&& self.phase is TimedOut ==> self.mode is TimeAttack
        &&& self.phase is Finished ==> self.mode is Race && self.goal == Some(self.correct)
        &&& self.mode is Race && self.goal is Some && self.goal->0 > 0 && self.phase !is Finished
            ==> self.correct < self.goal->0
    }

    /// Whether the session is over.
    pub open spec fn ended(self) -> bool {
        self.phase is TimedOut || self.phase is Finished || self.phase is Quit
            || self.phase is Exhausted
    }

    /// Whether one more queued word can be counted.
    pub open spec fn room_to_queue(self) -> bool {
        self.mode is TimeAttack ==> self.queued < u32::MAX
    }

    /// Whether the counters can take whatever a line judged after
    /// `elapsed_ms` milliseconds amounts to.
    pub open spec fn room_to_apply(self, elapsed_ms: u64) -> bool {
        &&& self.correct < u32::MAX
        &&& self.errors < u32::MAX
        &&& self.mode is TimeAttack ==> self.chars + self.current.len() <= usize::MAX
            && self.total_ms + elapsed_ms <= u64::MAX
    }

    /// The tier that the next seeding word comes from.
    pub open spec fn seed_tier(self) -> u32 {
        seed_tier_at(self.mode, self.range, self.queue, self.queue.len() as int)
    }

    /// The state after `word` was queued during seeding.
    pub open spec fn enqueued(self, word: Seq<char>) -> SessionView {
        SessionView {
            queue: self.queue.push(word),
            queued: if self.mode is TimeAttack {
                (self.queued + 1) as u32
            } else {
                self.queued
            },
            phase: if self.queue.len() + 1 == self.depth() {
                Phase::Fetch
            } else {
                Phase::Seeding
            },
            ..self
        }
    }

    /// The tier that the replacement for the next target comes from.
    pub open spec fn fetch_tier(self) -> u32 {
        next_tier(self.mode, self.queue[0].len(), self.queued as nat, self.range)
    }

    /// Time Attack's bonus seconds: one for every correct word where the
    /// budget accumulates.
    pub open spec fn bonus_secs(self) -> nat {
        if self.options.accumulate {
            self.correct as nat
        } else {
            0
        }
    }

    /// The state after the front of the queue became the target and `word`
    /// took the free place at the back.
    pub open spec fn advanced(self, word: Seq<char>) -> SessionView {
        SessionView {
            current: self.queue[0],
            queue: self.queue.drop_first().push(word),
            queued: if self.mode is TimeAttack {
                (self.queued + 1) as u32
            } else {
                self.queued
            },
            budget_ms: if self.mode is TimeAttack {
                (1000 * (budget_secs(self.fetch_tier()) + self.bonus_secs())) as u64
            } else {
                self.budget_ms
            },
            phase: Phase::Prompt,
            ..self
        }
    }

    /// The state after a tier had no word to offer.
    pub open spec fn exhausted(self) -> SessionView {
        SessionView { phase: Phase::Exhausted, ..self }
    }

    /// Whether a mistyped word is passed over.
    pub open spec fn skips_errors(self) -> bool {
        self.options.skip_err && !(self.mode is TimeAttack)
    }

    /// The state after the target was typed correctly, `elapsed_ms`
    /// milliseconds after it was shown.
    pub open spec fn credited(self, elapsed_ms: u64) -> SessionView {
        let correct = (self.correct + 1) as u32;
        match self.mode {
            Mode::TimeAttack => SessionView {
                correct,
                chars: (self.chars + self.current.len()) as usize,
                last_ms: elapsed_ms,
                total_ms: (self.total_ms + elapsed_ms) as u64,
                phase: if elapsed_ms >= self.budget_ms {
                    Phase::TimedOut
                } else {
                    Phase::Fetch
                },
                ..self
            },
            Mode::Endless => SessionView { correct, phase: Phase::Fetch, ..self },
            Mode::Race => SessionView {
                correct,
                phase: if self.goal == Some(correct) {
                    Phase::Finished
                } else {
                    Phase::Fetch
                },
                ..self
            },
        }
    }

    /// The state after a line that amounts to `outcome` was judged.
    pub open spec fn applied(self, outcome: Outcome, elapsed_ms: u64) -> SessionView {
        match outcome {
            Outcome::Quit => SessionView { phase: Phase::Quit, ..self },
            Outcome::Empty => self,
            Outcome::Mismatch => SessionView {
                errors: (self.errors + 1) as u32,
                phase: if self.skips_errors() {
                    Phase::Fetch
                } else {
                    Phase::Prompt
                },
                ..self
            },
            Outcome::Match => self.credited(elapsed_ms),
        }
    }

    /// The words on display: the target, and the next eight queued words
    /// where the next words are shown.
    pub open spec fn shown(self) -> Seq<Seq<char>> {
        if self.options.multiple {
            seq![self.current] + self.queue.take(8)
        } else {
            seq![self.current]
        }
    }

    /// Whether Time Attack's rate has to be computed for the score.
    pub open spec fn needs_rate(self) -> bool {
        self.mode is TimeAttack && self.correct > 0 && !(self.phase is Seeding)
            && !(self.phase is Exhausted)
    }

    /// The score of a session that ends in this state, `elapsed_ms`
    /// milliseconds after it began. A session that ran out of words has
    /// none. Time Attack and Endless have none without a correct word; a race
    /// with a goal has none unless the goal was met.
    pub open spec fn score(self, elapsed_ms: u64) -> Option<Score> {
        if self.phase is Seeding || self.phase is Exhausted {
            None
        } else {
            match self.mode {
                Mode::TimeAttack => if self.correct == 0 {
                    None
                } else {
                    Some(
                        Score {
                            correct: self.correct,
                            errors: self.errors,
                            time: None,
                            wpm: Some(wpm_of(self.chars as nat, self.total_ms as nat) as u32),
                        },
                    )
                },
                Mode::Endless => if self.correct == 0 {
                    None
                } else {
                    Some(
                        Score {
                            correct: self.correct,
                            errors: self.errors,
                            time: None,
                            wpm: None,
                        },
                    )
                },
                Mode::Race => if self.goal is Some && self.goal != Some(self.correct) {
                    None
                } else {
                    Some(
                        Score {
                            correct: self.correct,
                            errors: self.errors,
                            time: Some(elapsed_ms),
                            wpm: None,
                        },
                    )
                },
            }
        }
    }
}

/// Every step leads from a state that a session can be in to another such
/// state.
pub proof fn lemma_steps_keep_wf(
    s: SessionView,
    word: Seq<char>,
    outcome: Outcome,
    elapsed_ms: u64,
)
    requires
        s.wf(),
        word.len() <= usize::MAX,
    ensures
        s.phase is Seeding ==> s.enqueued(word).wf(),
        s.phase is Fetch ==> s.advanced(word).wf() && s.exhausted().wf(),
        s.phase is Prompt && s.correct < u32::MAX ==> s.applied(outcome, elapsed_ms).wf(),
{
}

/// Time Attack and Endless report nothing for a session without a correct
/// word, however it ended.
pub proof fn lemma_no_correct_word_no_score(s: SessionView, elapsed_ms: u64)
    requires
        s.mode is TimeAttack || s.mode is Endless,
        s.correct == 0,
    ensures
        s.score(elapsed_ms) is None,
{
}

/// A race with a goal that was not cut short by an empty tier is scored
/// exactly when the goal is met, and the score then carries the goal as its
/// count of correct words and the elapsed time.
pub proof fn lemma_race_scored_iff_goal_met(s: SessionView, goal: u32, elapsed_ms: u64)
    requires
        s.mode is Race,
        s.goal == Some(goal),
        !(s.phase is Seeding),
        !(s.phase is Exhausted),
    ensures
        s.score(elapsed_ms) is Some <==> s.correct == goal,
        s.score(elapsed_ms) matches Some(score) ==> score.correct == goal && score.time == Some(
            elapsed_ms,
        ) && score.wpm is None,
{
}

/// A race with a goal above zero stops on the line that meets the goal, and
/// not before: judging a line leaves the count of correct words below the
/// goal unless the session is finished by it.
pub proof fn lemma_race_stops_at_goal(s: SessionView, outcome: Outcome, elapsed_ms: u64)
    requires
        s.wf(),
        s.phase is Prompt,
        s.mode is Race,
        s.goal is Some,
        s.goal->0 > 0,
        s.correct < u32::MAX,
    ensures
        s.applied(outcome, elapsed_ms).phase is Finished <==> s.applied(
            outcome,
            elapsed_ms,
        ).correct == s.goal->0,
        s.applied(outcome, elapsed_ms).phase is Finished ==> outcome is Match,
        s.applied(outcome, elapsed_ms).wf(),
{
}

/// A player who leaves a race before its goal is met gets no score.
pub proof fn lemma_race_abort_no_score(s: SessionView, elapsed_ms: u64, later_ms: u64)
    requires
        s.wf(),
        s.phase is Prompt,
        s.mode is Race,
        s.goal is Some,
        s.goal->0 > 0,
    ensures
        s.applied(Outcome::Quit, elapsed_ms).score(later_ms) is None,
{
}

/// A score carries what its mode measures and nothing else: Time Attack a
/// rate and no time, a race a time and no rate, Endless neither.
pub proof fn lemma_score_payload(s: SessionView, elapsed_ms: u64)
    ensures
        s.score(elapsed_ms) matches Some(score) ==> {
            &&& score.correct == s.correct
            &&& score.errors == s.errors
            &&& score.wpm is Some <==> s.mode is TimeAttack
            &&& score.time is Some <==> s.mode is Race
        },
{
}

/// No score is ever the empty score: what a session reports differs from
/// the value that stands for "nothing to report".
pub proof fn lemma_score_never_empty(s: SessionView, elapsed_ms: u64)
    ensures
        s.score(elapsed_ms) != Some(Score::empty()),
{
}

} // verus!
