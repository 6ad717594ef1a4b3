//! The decisions behind the lobby pages: who may create or join a lobby,
//! what a departure does to it, and what the status poller is told.
use vstd::prelude::*;
use std::collections::HashMap;
use crate::lobby::{allocate_port, spec_allocate, KilledInfo};
use crate::records::{Lobby, LobbyMember};
use crate::text::{append_decimal_i64, decimal, str_equal};

verus! {

broadcast use vstd::std_specs::hash::group_hash_axioms;

/// Smallest number of players a lobby can be made for.
pub const MIN_LOBBY_SIZE: i64 = 1;

/// Largest number of players a lobby can be made for.
pub const MAX_LOBBY_SIZE: i64 = 3;

/// Whether a lobby is being created or joined.
#[derive(Clone, Copy, Debug, PartialEq, Eq, Structural)]
pub enum LobbyAction {
    Create,
    Join,
}

/// Why a lobby request was refused.
#[derive(Clone, Copy, Debug, PartialEq, Eq, Structural)]
pub enum LobbyRefusal {
    /// The user is still in the lobby `id`; `running` once its game started
    AlreadyInLobby { id: i64, running: bool },
    /// The requested size is not between the two limits
    BadSize,
    /// The lobby no longer takes new players
    NotAccepting,
    /// The lobby has all the members it allows
    Full,
    /// Every game-server port is in use
    NoFreePort,
}

/// The lobby's game has started.
pub open spec fn is_running(status: Seq<char>) -> bool {
    status == "running"@
}

/// The lobby still waits for players.
pub open spec fn is_waiting(status: Seq<char>) -> bool {
    status == "waiting"@
}

/// The refusal owed to a user whose current lobby is `current`.
pub open spec fn busy_refusal(current: Option<Lobby>) -> Option<LobbyRefusal> {
    match current {
        Some(l) => Some(LobbyRefusal::AlreadyInLobby { id: l.id, running: is_running(l.status@) }),
        None => None,
    }
}

fn busy(current: &Option<Lobby>) -> (r: Option<LobbyRefusal>)
    ensures
        r == busy_refusal(*current),
{
    match current {
        Some(l) => Some(LobbyRefusal::AlreadyInLobby { id: l.id, running: str_equal(l.status.as_str(), "running") }),
        None => None,
    }
}

/// Why creating a lobby of `max_players` is refused, checked in the order
/// the page checks: a lobby the user is still in, then the size.
pub open spec fn create_refusal(current: Option<Lobby>, max_players: i64) -> Option<LobbyRefusal> {
    if busy_refusal(current) is Some {
        busy_refusal(current)
    } else if !(MIN_LOBBY_SIZE <= max_players <= MAX_LOBBY_SIZE) {
        Some(LobbyRefusal::BadSize)
    } else {
        None
    }
}

/// Decide a request to create a lobby of `max_players`, taking a game port
/// from `pool` when it is granted.  A refused request leaves the pool alone.
pub fn claim_lobby_port(pool: &mut HashMap<u16, bool>, current: &Option<Lobby>, max_players: i64) -> (r: Result<u16, LobbyRefusal>)
    ensures
        create_refusal(*current, max_players) matches Some(e) ==> r == Err::<u16, LobbyRefusal>(e) && final(pool)@ == old(pool)@,
        create_refusal(*current, max_players) is None ==> {
            &&& final(pool)@ == spec_allocate(old(pool)@).1
            &&& match spec_allocate(old(pool)@).0 {
                Some(p) => r == Ok::<u16, LobbyRefusal>(p),
                None => r == Err::<u16, LobbyRefusal>(LobbyRefusal::NoFreePort),
            }
        },
{
    if let Some(e) = busy(current) {
        return Err(e);
    }
    if !(MIN_LOBBY_SIZE <= max_players && max_players <= MAX_LOBBY_SIZE) {
        return Err(LobbyRefusal::BadSize);
    }
    match allocate_port(pool) {
        Some(p) => Ok(p),
        None => Err(LobbyRefusal::NoFreePort),
    }
}

/// Why joining `lobby`, which has `member_count` members, is refused.
pub open spec fn join_refusal(current: Option<Lobby>, lobby: Lobby, member_count: i64) -> Option<LobbyRefusal> {
    if busy_refusal(current) is Some {
        busy_refusal(current)
    } else if !is_waiting(lobby.status@) {
        Some(LobbyRefusal::NotAccepting)
    } else if member_count >= lobby.max_players {
        Some(LobbyRefusal::Full)
    } else {
        None
    }
}

/// Decide a request to join `lobby`, which has `member_count` members.
pub fn check_join(current: &Option<Lobby>, lobby: &Lobby, member_count: i64) -> (r: Option<LobbyRefusal>)
    ensures
        r == join_refusal(*current, *lobby, member_count),
{
    if let Some(e) = busy(current) {
        return Some(e);
    }
    if !str_equal(lobby.status.as_str(), "waiting") {
        return Some(LobbyRefusal::NotAccepting);
    }
    if member_count >= lobby.max_players {
        return Some(LobbyRefusal::Full);
    }
    None
}

/// A lobby with `member_count` members out of `max_players` starts its game.
pub fn lobby_filled(member_count: i64, max_players: i64) -> (r: bool)
    ensures
        r == (member_count >= max_players),
{
    member_count >= max_players
}

/// The lobby page offers no more seats.
pub fn is_full(member_count: usize, max_players: i64) -> (r: bool)
    ensures
        r == (member_count >= max_players),
{
    if max_players < 0 {
        true
    } else {
        member_count as u64 >= max_players as u64
    }
}

/// Some member has the user id `uid`.
pub open spec fn has_member(members: Seq<LobbyMember>, uid: i64) -> bool {
    exists|i: int| 0 <= i < members.len() && #[trigger] members[i].id == uid
}

/// The viewer, if logged in, is among the lobby's members.
pub fn user_in_lobby(members: &Vec<LobbyMember>, viewer: Option<i64>) -> (r: bool)
    ensures
        r == match viewer {
            Some(uid) => has_member(members@, uid),
            None => false,
        },
{
    let uid = match viewer {
        Some(u) => u,
        None => return false,
    };
    let mut i: usize = 0;
    while i < members.len()
        invariant
            i <= members@.len(),
            viewer == Some(uid),
            forall|j: int| 0 <= j < i ==> #[trigger] members@[j].id != uid,
        decreases members@.len() - i,
    {
        if members[i].id == uid {
            assert(members@[i as int].id == uid);
            return true;
        }
        i = i + 1;
    }
    false
}

/// What follows when a user leaves a lobby.
#[derive(Debug)]
pub struct LeaveOutcome {
    /// The departure counts as a lost game for the user
    pub forfeit: bool,
    /// The lobby is torn down, and why
    pub teardown: Option<String>,
}

/// Why the lobby is torn down when `user_id` leaves it and `remaining`
/// members stay: the host leaving ends it, and so does the last member.
pub open spec fn teardown_reason(lobby: Lobby, user_id: i64, remaining: i64) -> Option<Seq<char>> {
    if lobby.host_user_id == user_id {
        Some("host left the lobby"@)
    } else if remaining == 0 {
        Some("all players left"@)
    } else {
        None
    }
}

/// Decide what a departure does.  `was_member` is whether the user was a
/// member before leaving; `remaining` counts the members afterwards.
pub fn leave_outcome(lobby: &Lobby, user_id: i64, was_member: bool, remaining: i64) -> (r: LeaveOutcome)
    ensures
        r.forfeit == (is_running(lobby.status@) && was_member),
        r.teardown is Some == teardown_reason(*lobby, user_id, remaining) is Some,
        r.teardown matches Some(t) ==> t@ == teardown_reason(*lobby, user_id, remaining).unwrap(),
{
    let forfeit = was_member && str_equal(lobby.status.as_str(), "running");
    let teardown = if lobby.host_user_id == user_id {
        Some("host left the lobby".to_string())
    } else if remaining == 0 {
        Some("all players left".to_string())
    } else {
        None
    };
    LeaveOutcome { forfeit, teardown }
}

/// What the status poller is told about a lobby: whether it lives, and
/// why it was destroyed when that is known.
pub fn lobby_status(exists: bool, killed: &Option<KilledInfo>) -> (r: (bool, Option<String>))
    ensures
        r.0 == (exists && killed is None),
        r.1 is Some == killed is Some,
        r.1 matches Some(s) ==> s@ == killed.unwrap().reason@,
{
    match killed {
        Some(k) => (false, Some(k.reason.clone())),
        None => (exists, None),
    }
}

/// The game configuration file a lobby of `max_players` starts from.
pub open spec fn config_file_name(max_players: i64) -> Seq<char> {
    if max_players == 2 {
        "config-2.json"@
    } else if max_players == 3 {
        "config-3.json"@
    } else {
        "config.json"@
    }
}

/// Pick the game configuration file for a lobby of `max_players`.
pub fn config_file_for(max_players: i64) -> (r: &'static str)
    ensures
        r@ == config_file_name(max_players),
{
    if max_players == 2 {
        "config-2.json"
    } else if max_players == 3 {
        "config-3.json"
    } else {
        "config.json"
    }
}

/// The message shown for a refusal.
pub open spec fn refusal_text(e: LobbyRefusal, action: LobbyAction) -> Seq<char> {
    let verb = match action {
        LobbyAction::Create => "creating"@,
        LobbyAction::Join => "joining"@,
    };
    match e {
        LobbyRefusal::AlreadyInLobby { id, running } => if running {
            "You are already in lobby #"@ + decimal(id as int)
                + " (game in progress). Leave it (counts as a forfeit) before "@ + verb
                + " another."@
        } else {
            "You are already in lobby #"@ + decimal(id as int) + ". Leave it before "@ + verb
                + " another."@
        },
        LobbyRefusal::BadSize => "Lobby size must be 1\u{2013}3."@,
        LobbyRefusal::NotAccepting => "That lobby is no longer accepting new players."@,
        LobbyRefusal::Full => "That lobby is full."@,
        LobbyRefusal::NoFreePort => "Server is at capacity (no free ports). Try again later."@,
    }
}

/// Word the refusal for the lobby page.
pub fn refusal_message(e: LobbyRefusal, action: LobbyAction) -> (r: String)
    ensures
        r@ == refusal_text(e, action),
{
    let verb: &str = match action {
        LobbyAction::Create => "creating",
        LobbyAction::Join => "joining",
    };
    match e {
        LobbyRefusal::AlreadyInLobby { id, running } => {
            let mut s = String::new();
            s.append("You are already in lobby #");
            append_decimal_i64(&mut s, id);
            if running {
                s.append(" (game in progress). Leave it (counts as a forfeit) before ");
            } else {
                s.append(". Leave it before ");
            }
            s.append(verb);
            s.append(" another.");
            s
        },
        LobbyRefusal::BadSize => "Lobby size must be 1\u{2013}3.".to_string(),
        LobbyRefusal::NotAccepting => "That lobby is no longer accepting new players.".to_string(),
        LobbyRefusal::Full => "That lobby is full.".to_string(),
        LobbyRefusal::NoFreePort => "Server is at capacity (no free ports). Try again later.".to_string(),
    }
}

/// A user who is in a lobby, waiting or running, can neither create nor
/// join another one until they leave it, whatever else the request says.
pub proof fn law_one_lobby_at_a_time(current: Lobby, max_players: i64, other: Lobby, member_count: i64)
    ensures
        create_refusal(Some(current), max_players) == Some(
            LobbyRefusal::AlreadyInLobby { id: current.id, running: is_running(current.status@) },
        ),
        join_refusal(Some(current), other, member_count) == Some(
            LobbyRefusal::AlreadyInLobby { id: current.id, running: is_running(current.status@) },
        ),
{
}

/// A user in no lobby may create one for one, two or three players: the
/// size is refused exactly when it lies outside 1 to 3, and every size in
/// that range goes on to the port allocation.
pub proof fn law_lobby_size(max_players: i64)
    ensures
        create_refusal(None, max_players) == Some(LobbyRefusal::BadSize) <==> !(1 <= max_players
            <= 3),
        create_refusal(None, max_players) is None <==> 1 <= max_players <= 3,
        create_refusal(None, 1) is None && create_refusal(None, 2) is None && create_refusal(None, 3) is None,
{
}

/// A lobby ends when its host leaves it or when its last member leaves;
/// another member leaving while others stay keeps it open.
pub proof fn law_teardown_on_host_or_last(lobby: Lobby, user_id: i64, remaining: i64)
    ensures
        teardown_reason(lobby, lobby.host_user_id, remaining) is Some,
        teardown_reason(lobby, user_id, 0) is Some,
        user_id != lobby.host_user_id && remaining != 0 ==> teardown_reason(lobby, user_id, remaining)
            is None,
{
}

/// Without a current lobby, a join is refused exactly when the lobby no
/// longer waits for players or is already full.
pub proof fn law_join_free_user(lobby: Lobby, member_count: i64)
    ensures
        join_refusal(None, lobby, member_count) is None <==> is_waiting(lobby.status@)
            && member_count < lobby.max_players,
{
}

} // verus!
