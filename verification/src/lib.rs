//! Trivia engine for statistical sports questions.
//!
//! The crate builds a catalog of question templates, resolves free-form
//! question codes (optionally suffixed with a team abbreviation), generates
//! natural-language prompts with matching query strings, and runs the
//! scoring side of an interactive guessing round: point values weighted
//! inversely by difficulty, bidirectional substring matching of guesses,
//! and a three-strike state machine.

pub mod board;
pub mod catalog;
pub mod generate;
pub mod random;
pub mod score;
pub mod teams;
pub mod text;

pub use board::{
    is_reveal_command, match_guess, prepare_guess, GuessOutcome, RoundState, TriviaBoard,
    TriviaResult,
};
pub use catalog::{
    build_registry, choose_random_question, parse_query, Catalog, CatalogEntry, ParsedRequest,
    QuestionKind, QuestionMeta,
};
pub use generate::{generate_sql_for_kind, render_question};
pub use random::{random_team, random_year, random_year_range};
pub use score::{calculate_point_values, parse_stat};
pub use teams::{team_list, END_YEAR, START_YEAR};
