//! A single-table Texas Hold'em simulation core: a five-card hand
//! evaluator with deterministic tie-break kickers, and a per-hand
//! betting state machine that drives seat rotation, blinds, street
//! transitions and pot settlement.

pub mod card;
pub mod deck;
pub mod game;
pub mod gamestate;
pub mod hand;
pub mod hand_rankings;
pub mod player;
pub mod table;
pub mod test_utils;
