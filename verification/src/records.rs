//! Rows of the web server's database and the forms and queries it reads.
use vstd::prelude::*;

verus! {

/// A lobby waiting for or currently running a game.
#[derive(Debug)]
pub struct Lobby {
    pub id: i64,
    pub host_user_id: i64,
    pub max_players: i64,
    pub port: i64,
    /// OS PID of the spawned game server process, if any.
    pub pid: Option<i64>,
    pub status: String,
    pub created_at: String,
    pub last_activity: String,
}

/// Lobby entry for the lobby list view (includes member count and host name).
#[derive(Debug)]
pub struct LobbyEntry {
    pub id: i64,
    pub host_username: String,
    pub max_players: i64,
    pub port: i64,
    pub status: String,
    pub created_at: String,
    pub member_count: i64,
}

/// A lobby member (user id + username) for the detail view.
#[derive(Debug)]
pub struct LobbyMember {
    pub id: i64,
    pub username: String,
}

/// A registered user.
#[derive(Debug)]
pub struct User {
    pub id: i64,
    pub username: String,
    pub password_hash: String,
    pub created_at: String,
    pub last_seen_at: Option<String>,
}

/// A game record.
#[derive(Debug)]
pub struct Game {
    pub id: i64,
    pub played_at: String,
}

/// A user's participation in a game.
#[derive(Debug)]
pub struct GameParticipant {
    pub id: i64,
    pub game_id: i64,
    pub user_id: i64,
    pub verdict: String,
}

/// A game entry for display on a user's profile page.
#[derive(Debug)]
pub struct GameEntry {
    pub game_id: i64,
    pub played_at: String,
    pub verdict: String,
    pub opponent_username: Option<String>,
}

/// Career-long aggregate stats for one user.  Times are kept in
/// microseconds; the win percentage follows from the three counts.
#[derive(Debug, Clone, Copy, PartialEq, Eq, Structural)]
pub struct CareerStats {
    pub wins: i64,
    pub losses: i64,
    pub draws: i64,
    pub highest_score: i64,
    /// Quickest time the user knocked out an opponent
    /// (= min eliminated_at among opponents in games the user won).
    pub fastest_elim_us: Option<u64>,
    pub total_play_us: u64,
}

/// Credentials submitted at login.
#[derive(Debug)]
pub struct Credentials {
    pub username: String,
    pub password: String,
    pub next: Option<String>,
}

/// Query string for the login page: a username to prefill.
#[derive(Debug)]
pub struct LoginQuery {
    pub username: Option<String>,
}

/// The signup form.
#[derive(Debug)]
pub struct SignupForm {
    pub username: String,
    pub password: String,
    pub confirm_password: String,
}

/// Query string for the leaderboard: the column to sort by.
#[derive(Debug)]
pub struct UsersQuery {
    pub sort: Option<String>,
}

/// Form for creating a new lobby.
#[derive(Debug)]
pub struct CreateLobbyForm {
    pub max_players: i64,
}

} // verus!
