//! Game state for "Some of These People Are Lying": players register,
//! each one collects topics (titles of pages they have read), and a round
//! draws one topic from a player other than the guesser.

pub mod integrations;
pub mod player_map;
mod random;
pub mod sotpal;
pub mod utils;
