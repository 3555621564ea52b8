# sotpal

Game logic for "Some of These People Are Lying", with its proofs in Verus.

- `src/sotpal.rs`, `src/sotpal/player.rs`: the game (players in joining
  order, their topics and points, and the current round) and the players.
- `src/player_map.rs`: the insertion-ordered map of `indexmap` that holds the
  players, with the contracts that the game relies on.
- `src/integrations/telegram.rs` and `src/integrations/telegram/utils/`: the
  Telegram bot as a state machine: each incoming message or pressed button
  changes the bot's state and queues the texts to send; the texts and
  buttons themselves are in `replies` and `keyboards`.
- `src/utils.rs`: the error type, decimal notation and the reading of `i32`.
- `app/`: the program: it reads the token files, talks to Telegram through
  `telegram-bot`, and runs the terminal menu.
