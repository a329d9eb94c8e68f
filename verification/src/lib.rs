//! Selection state machine and move validation for a 40-card terminal
//! solitaire: three number suits, three dragon colors, one flower card.
//!
//! The card engine (board storage, stacking legality, dragon collection,
//! auto-completion) is consumed through an abstract capability trait, so
//! the keystroke-driven selection protocol is verified against the
//! engine's contract alone; a deterministic engine implementation is
//! provided and verified against the same contract.

pub mod card;
pub mod engine;
pub mod index;
pub mod laws;
pub mod machine;
pub mod standard;
