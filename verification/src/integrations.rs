pub mod telegram;

use vstd::prelude::*;

verus! {

/// The front ends of the game.
#[derive(Debug, Clone, Copy, PartialEq, Eq)]
pub enum Integration {
    /// The Telegram bot.
    Telegram,
    /// The menu on the terminal.
    Terminal,
}

/// The front end that the program runs: the Telegram bot (the terminal menu
/// is the other front end, chosen when building).
pub fn run_integration() -> (r: Integration)
    ensures
        r == Integration::Telegram,
{
    Integration::Telegram
}

} // verus!
