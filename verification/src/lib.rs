//! Verified core of a code-breaking deduction game.
//!
//! A hidden code of symbols is generated from a validated rule set; the
//! player submits guesses of the same length and receives, after each one,
//! the number of exact matches and the number of misplaced symbols, counted
//! with multiset-intersection semantics. The game state machine tracks the
//! turn history, the remaining attempts under an attempt-limited policy, and
//! the win/loss outcome.

pub mod feedback;
pub mod game;
pub mod options;
pub mod rules;
pub mod ui;
