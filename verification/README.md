# tetris

The game logic of a networked falling-block puzzle game and of the web site
that runs its lobbies, as a library whose behaviour is stated in contracts
and proved with Verus.

## Layout

- `src/` — the verified library
  - `data.rs`, `turns.rs`: cells, pieces, turning and moving them
  - `board.rs`, `lines.rs`: collisions, the lockdown timer, clearing full rows
  - `bag.rs`, `rng.rs`: the deterministic and the shuffled piece bags, and
    the seeded generator with its record of draws
  - `game.rs`: player input, gravity, locking, spawning and the hold window
  - `score.rs`: points, levels and garbage rows sent to opponents
  - `config.rs`, `protocol.rs`: game configuration and messages
  - `owners.rs`, `session.rs`: per-client bookkeeping and the server's round
  - `view.rs`: what the player's window shows
  - `lobby.rs`, `lobby_flow.rs`: the game-port pool and the lobby rules
  - `account.rs`, `leaderboard.rs`, `records.rs`, `text.rs`: accounts, the
    leaderboard and its formatting, database rows
  - `seed.rs`: the demo accounts and games of an empty database
- `tests/` — tests of the library
- `app/` — the command-line program that reads a JSON configuration
