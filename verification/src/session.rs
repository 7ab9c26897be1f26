//! The session state machine shared by the three play modes.
//!
//! A session is seeded with queued words, then alternates between fetching
//! the next target from the queue and judging input lines for it, until the
//! player leaves, the clock runs out, the race is won or a tier has no word
//! to offer. Whoever drives the session shows the words, reads the lines and
//! measures the time; every decision is taken here.

use crate::difficulty::{
    count_view, next_difficulty, resolve_plan, time_budget, ConfigError, DifficultyRange, Plan,
};
use crate::input::{evaluate, outcome_of, Outcome};
use crate::model::{seeded_from, seeding_reaches, seed_tier_at, session_plan, Phase, SessionView};
use crate::score::{calculate_wpm, wpm_defined, Mode, Modifiers, Score};
use crate::words::{bank_tier, draw, Word};
use std::collections::HashMap;
use std::collections::VecDeque;
use vstd::prelude::*;

verus! {

/// Everything one play-through is configured with.
pub struct Game {
    pub mode: Mode,
    pub word_sets: HashMap<u32, Vec<String>>,
    pub options: Modifiers,
    /// The race arguments: the number of words, then up to two tier bounds.
    pub count: Option<Vec<u32>>,
}

/// Why no session could be started.
#[derive(Clone, Copy, Debug, PartialEq, Eq, Structural)]
pub enum StartError {
    /// The race arguments are refused.
    Config(ConfigError),
    /// The given tier has no word to seed the queue with.
    EmptyTier(u32),
}

/// A running session. Its state is read through the view and the getters.
#[derive(Debug)]
pub struct Session {
    mode: Mode,
    options: Modifiers,
    goal: Option<u32>,
    range: DifficultyRange,
    queue: VecDeque<Word>,
    current: Word,
    correct: u32,
    errors: u32,
    chars: usize,
    queued: u32,
    budget_ms: u64,
    last_ms: u64,
    total_ms: u64,
    phase: Phase,
}

impl View for Session {
    type V = SessionView;

    closed spec fn view(&self) -> SessionView {
        SessionView {
            mode: self.mode,
            options: self.options,
            goal: self.goal,
            range: self.range,
            queue: self.queue.deep_view(),
            current: self.current@,
            correct: self.correct,
            errors: self.errors,
            chars: self.chars,
            queued: self.queued,
            budget_ms: self.budget_ms,
            last_ms: self.last_ms,
            total_ms: self.total_ms,
            phase: self.phase,
        }
    }
}

impl Session {
    /// A session of `mode` with nothing queued yet. Only a race takes its
    /// goal and range from `plan`, whose lower bound must then not be above
    /// the upper one.
    pub fn new(mode: Mode, options: Modifiers, plan: Plan) -> (s: Session)
        requires
            mode is Race ==> plan.range.low <= plan.range.high,
        ensures
            s@ == SessionView::fresh(mode, options, plan),
            s@.wf(),
    {
        let race = match mode {
            Mode::Race => true,
            _ => false,
        };
        let s = Session {
            mode,
            options,
            goal: if race {
                plan.goal
            } else {
                None
            },
            range: if race {
                plan.range
            } else {
                DifficultyRange { low: 1, high: 4 }
            },
            queue: VecDeque::new(),
            current: Word::new(String::new()),
            correct: 0,
            errors: 0,
            chars: 0,
            queued: 0,
            budget_ms: 0,
            last_ms: 0,
            total_ms: 0,
            phase: Phase::Seeding,
        };
        assert(s.queue.deep_view() =~= Seq::<Seq<char>>::empty());
        s
    }

    /// Where the session stands.
    pub fn phase(&self) -> (phase: Phase)
        ensures
            phase == self@.phase,
    {
        self.phase
    }

    /// Whether the session is over.
    pub fn is_over(&self) -> (over: bool)
        ensures
            over == self@.ended(),
    {
        match self.phase {
            Phase::Seeding => false,
            Phase::Fetch => false,
            Phase::Prompt => false,
            _ => true,
        }
    }

    /// The mode played.
    pub fn mode(&self) -> (mode: Mode)
        ensures
            mode == self@.mode,
    {
        self.mode
    }

    /// The words typed correctly so far.
    pub fn correct(&self) -> (n: u32)
        ensures
            n == self@.correct,
    {
        self.correct
    }

    /// The lines that were not the target so far.
    pub fn errors(&self) -> (n: u32)
        ensures
            n == self@.errors,
    {
        self.errors
    }

    /// The target being typed.
    pub fn target(&self) -> (word: &str)
        ensures
            word@ == self@.current,
    {
        self.current.as_str()
    }

    /// Time Attack: the milliseconds allowed for the current target.
    pub fn budget_ms(&self) -> (ms: u64)
        ensures
            ms == self@.budget_ms,
    {
        self.budget_ms
    }

    /// Time Attack: the milliseconds the last correct word took.
    pub fn last_ms(&self) -> (ms: u64)
        ensures
            ms == self@.last_ms,
    {
        self.last_ms
    }

    /// The tier that the next seeding word comes from.
    pub fn seed_tier(&self) -> (tier: u32)
        requires
            self@.wf(),
        ensures
            tier == self@.seed_tier(),
            self@.phase is Seeding ==> seeding_reaches(
                self@.mode,
                self@.options.multiple,
                self@.range,
                tier,
            ),
    {
        let n = self.queue.len();
        match self.mode {
            Mode::TimeAttack => 1,
            Mode::Endless => {
                if n == 0 {
                    1
                } else {
                    next_difficulty(self.mode, self.queue[n - 1].len(), 0, self.range)
                }
            },
            Mode::Race => {
                if n == 0 {
                    self.range.low
                } else {
                    next_difficulty(self.mode, self.queue[n - 1].len(), 0, self.range)
                }
            },
        }
    }

    /// Queues `word`. To be called while the session is being seeded.
    pub fn enqueue(&mut self, word: String)
        requires
            old(self)@.phase is Seeding,
            old(self)@.wf(),
            old(self)@.room_to_queue(),
        ensures
            final(self)@ == old(self)@.enqueued(word@),
            final(self)@.wf(),
    {
        let ghost before = self.queue.deep_view();
        self.queue.push_back(Word::new(word));
        assert(self.queue.deep_view() =~= before.push(word@));
        match self.mode {
            Mode::TimeAttack => {
                self.queued = self.queued + 1;
            },
            _ => {},
        }
        let depth: usize = if self.options.multiple {
            9
        } else {
            1
        };
        if self.queue.len() == depth {
            self.phase = Phase::Fetch;
        }
    }

    /// Starts a session for `game`: resolves the plan and seeds the queue
    /// with words drawn at random. The session is ready to fetch its first
    /// target. Seeding fails on the first tier that has no word to offer, and
    /// cannot fail where every tier within its reach offers one.
    pub fn start(game: &Game) -> (started: Result<Session, StartError>)
        ensures
            match started {
                Ok(s) => {
                    &&& session_plan(game.mode, count_view(game.count)) matches Ok(plan)
                    &&& s@ == SessionView {
                        queue: s@.queue,
                        queued: s@.queued,
                        phase: Phase::Fetch,
                        ..SessionView::fresh(game.mode, game.options, plan)
                    }
                    &&& s@.queued == if game.mode is TimeAttack {
                        s@.depth()
                    } else {
                        0
                    }
                    &&& s@.wf()
                    &&& seeded_from(game.word_sets@, s@.mode, s@.range, s@.queue)
                },
                Err(StartError::Config(e)) => session_plan(game.mode, count_view(game.count))
                    == Err::<Plan, ConfigError>(e),
                Err(StartError::EmptyTier(tier)) => {
                    &&& session_plan(game.mode, count_view(game.count)) matches Ok(plan)
                    &&& seeding_reaches(game.mode, game.options.multiple, plan.range, tier)
                    &&& bank_tier(game.word_sets@, tier).len() == 0
                },
            },
            session_plan(game.mode, count_view(game.count)) matches Ok(plan) && (forall|tier: u32|
                seeding_reaches(game.mode, game.options.multiple, plan.range, tier) ==> bank_tier(
                    game.word_sets@,
                    tier,
                ).len() > 0) ==> started is Ok,
    {
        let plan = match game.mode {
            Mode::Race => match resolve_plan(&game.count) {
                Ok(plan) => plan,
                Err(e) => {
                    return Err(StartError::Config(e));
                },
            },
            _ => Plan { goal: None, range: DifficultyRange { low: 1, high: 4 } },
        };
        let mut s = Session::new(game.mode, game.options, plan);
        let ghost fresh = s@;
        while s.phase == Phase::Seeding
            invariant
                s@ == (SessionView {
                    queue: s@.queue,
                    queued: s@.queued,
                    phase: s@.phase,
                    ..fresh
                }),
                fresh == SessionView::fresh(game.mode, game.options, plan),
                session_plan(game.mode, count_view(game.count)) == Ok::<Plan, ConfigError>(plan),
                s@.wf(),
                s@.queued == if game.mode is TimeAttack {
                    s@.queue.len()
                } else {
                    0
                },
                s@.phase is Seeding || s@.phase is Fetch,
                seeded_from(game.word_sets@, s@.mode, s@.range, s@.queue),
            decreases s@.depth() - s@.queue.len(),
        {
            let tier = s.seed_tier();
            match draw(&game.word_sets, tier) {
                None => {
                    assert(seeding_reaches(game.mode, game.options.multiple, plan.range, tier));
                    return Err(StartError::EmptyTier(tier));
                },
                Some(word) => {
                    let ghost before = s@.queue;
                    s.enqueue(word);
                    assert forall|i: int| 0 <= i < s@.queue.len() implies bank_tier(
                        game.word_sets@,
                        seed_tier_at(s@.mode, s@.range, s@.queue, i),
                    ).contains(#[trigger] s@.queue[i]) by {
                        if i < before.len() {
                            assert(s@.queue[i] == before[i]);
                            assert(seed_tier_at(s@.mode, s@.range, s@.queue, i) == seed_tier_at(
                                s@.mode,
                                s@.range,
                                before,
                                i,
                            ));
                        }
                    }
                },
            }
        }
        Ok(s)
    }

    /// The tier that the replacement for the next target comes from.
    pub fn fetch_tier(&self) -> (tier: u32)
        requires
            self@.phase is Fetch,
            self@.wf(),
        ensures
            tier == self@.fetch_tier(),
    {
        next_difficulty(self.mode, self.queue[0].len(), self.queued, self.range)
    }

    /// Whether one more queued word can be counted.
    pub fn has_room_to_queue(&self) -> (room: bool)
        ensures
            room == self@.room_to_queue(),
    {
        match self.mode {
            Mode::TimeAttack => self.queued < u32::MAX,
            _ => true,
        }
    }

    /// Makes the front of the queue the target and queues `word` in its
    /// place. Time Attack sets the target's budget: the seconds of the
    /// current tier, and one more for every correct word where the budget
    /// accumulates. To be called in phase `Fetch`, with room to queue.
    pub fn advance_with(&mut self, word: String)
        requires
            old(self)@.phase is Fetch,
            old(self)@.wf(),
            old(self)@.room_to_queue(),
        ensures
            final(self)@ == old(self)@.advanced(word@),
            final(self)@.wf(),
    {
        let tier = self.fetch_tier();
        let ghost before = self.queue.deep_view();
        match self.queue.pop_front() {
            Some(front) => {
                self.current = front;
            },
            None => {},
        }
        assert(self.queue.deep_view() =~= before.drop_first());
        self.queue.push_back(Word::new(word));
        assert(self.queue.deep_view() =~= before.drop_first().push(word@));
        match self.mode {
            Mode::TimeAttack => {
                let bonus: u64 = if self.options.accumulate {
                    self.correct as u64
                } else {
                    0
                };
                self.budget_ms = 1000 * (time_budget(tier) as u64 + bonus);
                self.queued = self.queued + 1;
            },
            _ => {},
        }
        self.phase = Phase::Prompt;
    }

    /// Fetches the next target and draws its replacement at random from the
    /// tier that the difficulty rule gives. Where that tier has no word to
    /// offer, the session is over and `false` is returned. To be called in
    /// phase `Fetch`, with room to queue.
    pub fn advance(&mut self, bank: &HashMap<u32, Vec<String>>) -> (ok: bool)
        requires
            old(self)@.phase is Fetch,
            old(self)@.wf(),
            old(self)@.room_to_queue(),
        ensures
            ok <==> bank_tier(bank@, old(self)@.fetch_tier()).len() > 0,
            !ok ==> final(self)@ == old(self)@.exhausted(),
            ok ==> bank_tier(bank@, old(self)@.fetch_tier()).contains(final(self)@.queue.last())
                && final(self)@ == old(self)@.advanced(final(self)@.queue.last()),
            final(self)@.wf(),
    {
        let tier = self.fetch_tier();
        match draw(bank, tier) {
            None => {
                self.phase = Phase::Exhausted;
                false
            },
            Some(word) => {
                self.advance_with(word);
                true
            },
        }
    }

    /// Whether the counters can take whatever a line judged after
    /// `elapsed_ms` milliseconds amounts to.
    pub fn has_room_to_apply(&self, elapsed_ms: u64) -> (room: bool)
        ensures
            room == self@.room_to_apply(elapsed_ms),
    {
        if self.correct == u32::MAX || self.errors == u32::MAX {
            return false;
        }
        match self.mode {
            Mode::TimeAttack => {
                self.current.len() <= usize::MAX - self.chars && elapsed_ms <= u64::MAX
                    - self.total_ms
            },
            _ => true,
        }
    }

    /// Takes in what a line of input amounted to, `elapsed_ms` milliseconds
    /// after the target was shown. To be called in phase `Prompt`, with room
    /// to apply.
    pub fn apply(&mut self, outcome: Outcome, elapsed_ms: u64)
        requires
            old(self)@.phase is Prompt,
            old(self)@.wf(),
            old(self)@.room_to_apply(elapsed_ms),
        ensures
            final(self)@ == old(self)@.applied(outcome, elapsed_ms),
            final(self)@.wf(),
    {
        match outcome {
            Outcome::Quit => {
                self.phase = Phase::Quit;
            },
            Outcome::Empty => {},
            Outcome::Mismatch => {
                self.errors = self.errors + 1;
                let skip = match self.mode {
                    Mode::TimeAttack => false,
                    _ => self.options.skip_err,
                };
                if skip {
                    self.phase = Phase::Fetch;
                }
            },
            Outcome::Match => {
                self.correct = self.correct + 1;
                match self.mode {
                    Mode::TimeAttack => {
                        self.chars = self.chars + self.current.len();
                        self.last_ms = elapsed_ms;
                        self.total_ms = self.total_ms + elapsed_ms;
                        if elapsed_ms >= self.budget_ms {
                            self.phase = Phase::TimedOut;
                        } else {
                            self.phase = Phase::Fetch;
                        }
                    },
                    Mode::Endless => {
                        self.phase = Phase::Fetch;
                    },
                    Mode::Race => {
                        let done = match self.goal {
                            Some(goal) => goal == self.correct,
                            None => false,
                        };
                        if done {
                            self.phase = Phase::Finished;
                        } else {
                            self.phase = Phase::Fetch;
                        }
                    },
                }
            },
        }
    }

    /// Judges one line of input for the current target and takes the
    /// outcome in. `eof` says that the input ended; `elapsed_ms` is the time
    /// since the target was shown. To be called in phase `Prompt`, with room
    /// to apply.
    pub fn submit(&mut self, eof: bool, line: &str, elapsed_ms: u64) -> (outcome: Outcome)
        requires
            old(self)@.phase is Prompt,
            old(self)@.wf(),
            old(self)@.room_to_apply(elapsed_ms),
        ensures
            outcome == outcome_of(eof, line@, old(self)@.current),
            final(self)@ == old(self)@.applied(outcome, elapsed_ms),
            final(self)@.wf(),
    {
        let outcome = evaluate(eof, line, self.current.as_str());
        self.apply(outcome, elapsed_ms);
        outcome
    }

    /// The words to display, the target first. To be called once the
    /// session is seeded.
    pub fn visible_words(&self) -> (words: Vec<String>)
        requires
            self@.wf(),
            !(self@.phase is Seeding),
        ensures
            words.deep_view() == self@.shown(),
    {
        let mut words: Vec<String> = Vec::new();
        words.push(self.current.text());
        assert(words.deep_view() =~= seq![self@.current]);
        if self.options.multiple {
            let mut i: usize = 0;
            while i < 8
                invariant
                    i <= 8,
                    self.queue.len() == 9,
                    words.deep_view() == seq![self@.current] + self@.queue.take(i as int),
                decreases 8 - i,
            {
                let ghost before = words.deep_view();
                let word = self.queue[i].text();
                words.push(word);
                assert(words.deep_view() =~= before.push(word@));
                assert(self@.queue.take(i + 1) =~= self@.queue.take(i as int).push(word@));
                i += 1;
            }
        }
        words
    }

    /// Whether the score can be computed: Time Attack's rate needs a total
    /// time that does not round to zero seconds, and a character count that
    /// fits.
    pub fn can_finish(&self) -> (able: bool)
        ensures
            able == (self@.needs_rate() ==> wpm_defined(self@.chars as nat, self@.total_ms as nat)),
    {
        let counted = match self.phase {
            Phase::Seeding => false,
            Phase::Exhausted => false,
            _ => self.correct > 0,
        };
        match self.mode {
            Mode::TimeAttack => !counted || (self.total_ms >= 500 && self.chars <= 357913941),
            _ => true,
        }
    }

    /// The score of the session as it stands, `elapsed_ms` milliseconds
    /// after it began; a race reports that time. To be called where
    /// `can_finish` holds.
    pub fn finish(&self, elapsed_ms: u64) -> (score: Option<Score>)
        requires
            self@.needs_rate() ==> wpm_defined(self@.chars as nat, self@.total_ms as nat),
        ensures
            score == self@.score(elapsed_ms),
    {
        match self.phase {
            Phase::Seeding => {
                return None;
            },
            Phase::Exhausted => {
                return None;
            },
            _ => {},
        }
        match self.mode {
            Mode::TimeAttack => {
                if self.correct == 0 {
                    None
                } else {
                    Some(
                        Score {
                            correct: self.correct,
                            errors: self.errors,
                            time: None,
                            wpm: Some(calculate_wpm(self.chars, self.total_ms)),
                        },
                    )
                }
            },
            Mode::Endless => {
                if self.correct == 0 {
                    None
                } else {
                    Some(
                        Score {
                            correct: self.correct,
                            errors: self.errors,
                            time: None,
                            wpm: None,
                        },
                    )
                }
            },
            Mode::Race => {
                let missed = match self.goal {
                    Some(goal) => goal != self.correct,
                    None => false,
                };
                if missed {
                    None
                } else {
                    Some(
                        Score {
                            correct: self.correct,
                            errors: self.errors,
                            time: Some(elapsed_ms),
                            wpm: None,
                        },
                    )
                }
            },
        }
    }
}

} // verus!
