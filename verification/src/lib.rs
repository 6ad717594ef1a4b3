//! Game logic of a networked falling-block puzzle game: pieces, the board,
//! scoring, garbage, piece bags, per-client bookkeeping, and the lobby and
//! leaderboard rules of the accompanying web server.
pub mod data;
pub mod board;
pub mod protocol;
pub mod game;
pub mod lines;
pub mod rng;
pub mod bag;
pub mod config;
pub mod score;
pub mod owners;
pub mod lobby;
pub mod text;
pub mod records;
pub mod account;
pub mod leaderboard;
pub mod lobby_flow;
pub mod session;
pub mod view;
pub mod turns;
pub mod seed;
