//! The session engine of a terminal typing trainer: word tiers, the
//! difficulty rules of the three play modes, input evaluation, the per-mode
//! scoring state machine and the score log line.

pub mod difficulty;
pub mod input;
pub mod model;
pub mod random;
pub mod report;
pub mod score;
pub mod session;
pub mod words;

pub use difficulty::{
    next_difficulty, resolve_plan, time_budget, ConfigError, DifficultyRange, Plan,
};
pub use input::{evaluate, Outcome};
pub use model::Phase;
pub use report::{decimal_text, log_line, name_of, score_line};
pub use score::{calculate_wpm, Mode, Modifiers, Score};
pub use session::{Game, Session, StartError};
pub use words::{draw, parse_to_sets, tier_for, Word};
