use std::collections::HashMap;

use tetris::account::{
    authenticate, check_signup, hash_password, login, login_link, login_prefill, login_target,
    prepare_signup, signup_error_message, taken_name_notice, SignupError,
};
use tetris::leaderboard::{format_duration, sort_column, sort_entries, sort_key_from, SortKey};
use tetris::lobby::{
    allocate_port, lookup_killed, mark_lobby_killed, new_port_pool, prune_killed, release_port,
    KilledInfo, BASE_GAME_PORT, MAX_GAME_PORT,
};
use tetris::lobby_flow::{
    claim_lobby_port, check_join, config_file_for, is_full, leave_outcome, lobby_filled,
    lobby_status, refusal_message, user_in_lobby, LobbyAction, LobbyRefusal,
};
use tetris::records::{
    CareerStats, Credentials, LoginQuery, Lobby, LobbyMember, SignupForm, User, UsersQuery,
};
use tetris::seed::{demo_seed, DemoVerdict};
use tetris::text::decimal_string;

fn full_pool() -> HashMap<u16, bool> {
    let mut map = HashMap::new();
    for p in BASE_GAME_PORT..=MAX_GAME_PORT {
        map.insert(p, false);
    }
    map
}

#[test]
fn test_port_pool_allocates_lowest_first() {
    let mut pool = full_pool();

    assert_eq!(allocate_port(&mut pool), Some(1338));
    assert_eq!(allocate_port(&mut pool), Some(1339));
    assert_eq!(allocate_port(&mut pool), Some(1340));

    release_port(&mut pool, 1339);
    assert_eq!(allocate_port(&mut pool), Some(1339));
    assert_eq!(allocate_port(&mut pool), Some(1341));
}

#[test]
fn test_port_pool_exhaustion_returns_none() {
    let mut pool = full_pool();

    for _ in 0..100 {
        assert!(allocate_port(&mut pool).is_some());
    }
    assert_eq!(allocate_port(&mut pool), None);

    release_port(&mut pool, 1400);
    assert_eq!(allocate_port(&mut pool), Some(1400));
    assert_eq!(allocate_port(&mut pool), None);
}

#[test]
fn test_release_port_outside_pool_is_noop() {
    let mut pool = HashMap::new();
    pool.insert(1338u16, true);

    release_port(&mut pool, 9999);
    assert_eq!(pool.get(&1338), Some(&true));
    assert!(!pool.contains_key(&9999));
}

#[test]
fn new_pool_has_every_port_free() {
    let pool = new_port_pool();
    assert_eq!(pool, full_pool());
    assert_eq!(pool.len(), 100);
}

#[test]
fn test_prune_killed_drops_old_entries() {
    let now_ms: u64 = 10_000_000;
    let mut map = HashMap::new();
    map.insert(1i64, KilledInfo { reason: "old".into(), killed_at_ms: now_ms - 600_000 });
    map.insert(2i64, KilledInfo { reason: "fresh".into(), killed_at_ms: now_ms });
    prune_killed(&mut map, now_ms);

    assert!(!map.contains_key(&1), "10-min-old entry should be pruned");
    assert!(map.contains_key(&2), "fresh entry should survive");
}

#[test]
fn prune_keeps_entries_younger_than_five_minutes() {
    let mut map = HashMap::new();
    map.insert(7i64, KilledInfo { reason: "edge".into(), killed_at_ms: 1_000 });
    prune_killed(&mut map, 1_000 + 299_999);
    assert!(map.contains_key(&7));
    prune_killed(&mut map, 1_000 + 300_000);
    assert!(!map.contains_key(&7));
}

#[test]
fn mark_and_lookup_killed() {
    let mut map = HashMap::new();
    assert!(lookup_killed(&map, 5).is_none());
    mark_lobby_killed(&mut map, 5, "host left the lobby", 42);
    let info = lookup_killed(&map, 5).unwrap();
    assert_eq!(info.reason, "host left the lobby");
    assert_eq!(info.killed_at_ms, 42);
    mark_lobby_killed(&mut map, 5, "all players left", 43);
    assert_eq!(lookup_killed(&map, 5).unwrap().reason, "all players left");
    assert_eq!(map.len(), 1);
}

fn lobby(id: i64, host: i64, max_players: i64, status: &str) -> Lobby {
    Lobby {
        id,
        host_user_id: host,
        max_players,
        port: 1338,
        pid: None,
        status: status.to_string(),
        created_at: String::new(),
        last_activity: String::new(),
    }
}

#[test]
fn create_lobby_checks_in_order() {
    let mut pool = full_pool();
    let busy = Some(lobby(12, 1, 2, "running"));
    assert_eq!(
        claim_lobby_port(&mut pool, &busy, 2),
        Err(LobbyRefusal::AlreadyInLobby { id: 12, running: true })
    );
    assert_eq!(pool, full_pool());
    assert_eq!(claim_lobby_port(&mut pool, &None, 0), Err(LobbyRefusal::BadSize));
    assert_eq!(claim_lobby_port(&mut pool, &None, 4), Err(LobbyRefusal::BadSize));
    assert_eq!(pool, full_pool());
    assert_eq!(claim_lobby_port(&mut pool, &None, 3), Ok(1338));
    assert_eq!(pool.get(&1338), Some(&true));

    let mut empty: HashMap<u16, bool> = HashMap::new();
    assert_eq!(claim_lobby_port(&mut empty, &None, 1), Err(LobbyRefusal::NoFreePort));
}

#[test]
fn join_lobby_checks_in_order() {
    let target = lobby(3, 9, 2, "waiting");
    let waiting = Some(lobby(8, 1, 3, "waiting"));
    assert_eq!(
        check_join(&waiting, &target, 0),
        Some(LobbyRefusal::AlreadyInLobby { id: 8, running: false })
    );
    assert_eq!(check_join(&None, &lobby(3, 9, 2, "running"), 0), Some(LobbyRefusal::NotAccepting));
    assert_eq!(check_join(&None, &target, 2), Some(LobbyRefusal::Full));
    assert_eq!(check_join(&None, &target, 1), None);
}

#[test]
fn test_lobby_full_marks_running() {
    assert!(!lobby_filled(1, 2));
    assert!(lobby_filled(2, 2));
    assert!(is_full(2, 2));
    assert!(!is_full(1, 2));
}

#[test]
fn test_non_host_leave_keeps_lobby_alive() {
    let l = lobby(4, 1, 2, "waiting");
    let guest_leaves = leave_outcome(&l, 2, true, 1);
    assert!(!guest_leaves.forfeit);
    assert!(guest_leaves.teardown.is_none());

    let host_leaves = leave_outcome(&l, 1, true, 1);
    assert_eq!(host_leaves.teardown.as_deref(), Some("host left the lobby"));

    let last_leaves = leave_outcome(&l, 2, true, 0);
    assert_eq!(last_leaves.teardown.as_deref(), Some("all players left"));
}

#[test]
fn test_user_can_join_after_forfeit_leave() {
    let running = lobby(4, 1, 2, "running");
    assert!(leave_outcome(&running, 2, true, 1).forfeit);
    assert!(!leave_outcome(&running, 2, false, 1).forfeit);
    // Once out of the lobby, the user may join another waiting one.
    assert_eq!(check_join(&None, &lobby(5, 3, 2, "waiting"), 1), None);
}

#[test]
fn test_lobby_status_alive_for_active_lobby() {
    assert_eq!(lobby_status(true, &None), (true, None));
    assert_eq!(lobby_status(false, &None), (false, None));
}

#[test]
fn test_lobby_status_reports_killed_with_reason() {
    let killed = Some(KilledInfo { reason: "inactivity (test)".to_string(), killed_at_ms: 0 });
    assert_eq!(lobby_status(true, &killed), (false, Some("inactivity (test)".to_string())));
    assert_eq!(lobby_status(false, &killed), (false, Some("inactivity (test)".to_string())));
}

#[test]
fn members_and_config_files() {
    let members = vec![
        LobbyMember { id: 1, username: "a".into() },
        LobbyMember { id: 2, username: "b".into() },
    ];
    assert!(user_in_lobby(&members, Some(2)));
    assert!(!user_in_lobby(&members, Some(3)));
    assert!(!user_in_lobby(&members, None));
    assert_eq!(config_file_for(2), "config-2.json");
    assert_eq!(config_file_for(3), "config-3.json");
    assert_eq!(config_file_for(1), "config.json");
}

#[test]
fn refusal_messages() {
    assert_eq!(
        refusal_message(LobbyRefusal::AlreadyInLobby { id: 12, running: true }, LobbyAction::Create),
        "You are already in lobby #12 (game in progress). Leave it (counts as a forfeit) before creating another."
    );
    assert_eq!(
        refusal_message(LobbyRefusal::AlreadyInLobby { id: 7, running: false }, LobbyAction::Join),
        "You are already in lobby #7. Leave it before joining another."
    );
    assert_eq!(refusal_message(LobbyRefusal::BadSize, LobbyAction::Create), "Lobby size must be 1\u{2013}3.");
    assert_eq!(
        refusal_message(LobbyRefusal::NotAccepting, LobbyAction::Join),
        "That lobby is no longer accepting new players."
    );
    assert_eq!(refusal_message(LobbyRefusal::Full, LobbyAction::Join), "That lobby is full.");
    assert_eq!(
        refusal_message(LobbyRefusal::NoFreePort, LobbyAction::Create),
        "Server is at capacity (no free ports). Try again later."
    );
}

#[test]
fn decimal_strings() {
    assert_eq!(decimal_string(0), "0");
    assert_eq!(decimal_string(1337), "1337");
    assert_eq!(decimal_string(-45), "-45");
    assert_eq!(decimal_string(i64::MIN), i64::MIN.to_string());
    assert_eq!(decimal_string(i64::MAX), i64::MAX.to_string());
}

fn form(username: &str, password: &str, confirm: &str) -> SignupForm {
    SignupForm {
        username: username.to_string(),
        password: password.to_string(),
        confirm_password: confirm.to_string(),
    }
}

#[test]
fn signup_checks() {
    assert_eq!(check_signup(&form("   ", "secret1", "secret1")), Err(SignupError::EmptyUsername));
    assert_eq!(check_signup(&form("bob", "secret1", "secret2")), Err(SignupError::PasswordMismatch));
    assert_eq!(check_signup(&form("bob", "abc", "abc")), Err(SignupError::PasswordTooShort));
    assert_eq!(check_signup(&form("  bob \t", "secret", "secret")), Ok("bob".to_string()));
    assert_eq!(check_signup(&form("\u{3000}bo b\u{A0}\n", "secret", "secret")), Ok("bo b".to_string()));
    assert_eq!(check_signup(&form("\u{200B}bob", "secret", "secret")), Ok("\u{200B}bob".to_string()));
    assert_eq!(check_signup(&form("\u{2028}", "secret", "secret")), Err(SignupError::EmptyUsername));
    // Six bytes, fewer characters: long enough.
    assert_eq!(check_signup(&form("eve", "\u{e9}\u{e9}\u{e9}", "\u{e9}\u{e9}\u{e9}")), Ok("eve".to_string()));
}

fn user(id: i64, name: &str, hash: &str) -> User {
    User {
        id,
        username: name.to_string(),
        password_hash: hash.to_string(),
        created_at: String::new(),
        last_seen_at: None,
    }
}

#[test]
fn test_create_user_and_authenticate() {
    let account = prepare_signup(&form("testuser", "mypassword", "mypassword")).unwrap();
    assert_eq!(account.username, "testuser");
    assert_ne!(account.password_hash, "mypassword");
    let stored = user(1, "testuser", &account.password_hash);
    let got = authenticate(Some(stored), "mypassword").unwrap();
    assert_eq!(got.username, "testuser");
    assert_eq!(got.id, 1);
}

#[test]
fn test_wrong_password_fails_auth() {
    let hash = hash_password("correctpassword");
    assert!(authenticate(Some(user(1, "authuser", &hash)), "wrongpassword").is_none());
    assert!(authenticate(None, "correctpassword").is_none());
}

fn stats(wins: i64, losses: i64, highest: i64, elim: Option<u64>, play: u64) -> CareerStats {
    CareerStats {
        wins,
        losses,
        draws: 0,
        highest_score: highest,
        fastest_elim_us: elim,
        total_play_us: play,
    }
}

fn names(entries: &[(User, CareerStats)]) -> Vec<String> {
    entries.iter().map(|(u, _)| u.username.clone()).collect()
}

#[test]
fn test_users_page_sort_by_wins_works() {
    let mut entries = vec![
        (user(1, "fewwins", ""), stats(1, 5, 0, None, 0)),
        (user(2, "manywins", ""), stats(3, 0, 0, None, 0)),
    ];
    sort_entries(&mut entries, "wins");
    assert_eq!(names(&entries), vec!["manywins", "fewwins"]);
}

#[test]
fn test_users_page_sort_by_fastest_elim_ascending() {
    let mut entries = vec![
        (user(1, "never", ""), stats(0, 1, 0, None, 0)),
        (user(2, "slowko", ""), stats(1, 0, 0, Some(30_000_000), 0)),
        (user(3, "fastko", ""), stats(1, 0, 0, Some(2_000_000), 0)),
    ];
    sort_entries(&mut entries, "fastest_elim");
    assert_eq!(names(&entries), vec!["fastko", "slowko", "never"]);
}

#[test]
fn sort_by_username_ignores_case_and_keeps_ties() {
    let mut entries = vec![
        (user(1, "bob", ""), stats(0, 0, 0, None, 0)),
        (user(2, "Alice", ""), stats(0, 0, 0, None, 0)),
        (user(3, "BOB", ""), stats(0, 0, 0, None, 0)),
        (user(4, "carol", ""), stats(0, 0, 0, None, 0)),
    ];
    sort_entries(&mut entries, "username");
    assert_eq!(names(&entries), vec!["Alice", "bob", "BOB", "carol"]);
}

#[test]
fn sort_by_win_pct_and_others() {
    let mut entries = vec![
        (user(1, "half", ""), stats(1, 1, 10, None, 5)),
        (user(2, "none", ""), stats(0, 0, 30, None, 50)),
        (user(3, "most", ""), stats(3, 1, 20, None, 1)),
    ];
    sort_entries(&mut entries, "win_pct");
    assert_eq!(names(&entries), vec!["most", "half", "none"]);
    sort_entries(&mut entries, "highest_score");
    assert_eq!(names(&entries), vec!["none", "most", "half"]);
    sort_entries(&mut entries, "total_play");
    assert_eq!(names(&entries), vec!["none", "half", "most"]);
    sort_entries(&mut entries, "losses");
    assert_eq!(names(&entries), vec!["half", "most", "none"]);
    sort_entries(&mut entries, "no such column");
    assert_eq!(names(&entries), vec!["most", "half", "none"]);
}

#[test]
fn sort_keys() {
    assert_eq!(sort_key_from("username"), SortKey::Username);
    assert_eq!(sort_key_from("fastest_elim"), SortKey::FastestElim);
    assert_eq!(sort_key_from("WINS"), SortKey::Wins);
    assert_eq!(sort_key_from(""), SortKey::Wins);
}

#[test]
fn durations() {
    assert_eq!(format_duration(0), "\u{2014}");
    assert_eq!(format_duration(500_000), "0s");
    assert_eq!(format_duration(59_999_999), "59s");
    assert_eq!(format_duration(60_000_000), "1m 0s");
    assert_eq!(format_duration(3_725_000_000), "1h 2m 5s");
    assert_eq!(format_duration(3_600_000_000), "1h 0m 0s");
}

#[test]
fn test_login_page_prefills_username_from_query() {
    assert_eq!(login_prefill(&LoginQuery { username: Some("alice".to_string()) }), "alice");
    assert_eq!(login_prefill(&LoginQuery { username: None }), "");
}

#[test]
fn login_goes_to_next_page() {
    let creds = |next: Option<&str>| Credentials {
        username: "u".to_string(),
        password: "p".to_string(),
        next: next.map(|s| s.to_string()),
    };
    assert_eq!(login_target(&creds(Some("/lobbies/3"))), "/lobbies/3");
    assert_eq!(login_target(&creds(None)), "/users");
}

#[test]
fn leaderboard_column_from_query() {
    assert_eq!(sort_column(&UsersQuery { sort: None }), SortKey::Wins);
    assert_eq!(sort_column(&UsersQuery { sort: Some("total_play".to_string()) }), SortKey::TotalPlay);
    assert_eq!(sort_column(&UsersQuery { sort: Some("bogus".to_string()) }), SortKey::Wins);
}

#[test]
fn signup_error_messages() {
    assert_eq!(signup_error_message(SignupError::EmptyUsername), "Username cannot be empty.");
    assert_eq!(signup_error_message(SignupError::PasswordMismatch), "Passwords do not match.");
    assert_eq!(
        signup_error_message(SignupError::PasswordTooShort),
        "Password must be at least 6 characters."
    );
}

#[test]
fn test_signup_duplicate_username_shows_login_link() {
    let html = taken_name_notice("dupname");
    assert!(html.contains("already exists"), "expected 'already exists' in body: {html}");
    assert!(html.contains("/login?username=dupname"), "expected /login?username=dupname link in body");
    assert!(html.contains("<strong>dupname</strong>"), "expected username highlighted with <strong>");
    assert_eq!(login_link("dupname"), "/login?username=dupname");
}

#[test]
fn demo_data_only_for_an_empty_database() {
    assert!(demo_seed(3).is_none());
    let plan = demo_seed(0).unwrap();
    let names: Vec<&str> = plan.users.iter().map(|u| u.username.as_str()).collect();
    assert_eq!(names, vec!["alice", "bob", "carol", "dave", "eve"]);
    let alice = User {
        id: 1,
        username: "alice".to_string(),
        password_hash: plan.users[0].password_hash.clone(),
        created_at: String::new(),
        last_seen_at: None,
    };
    assert!(authenticate(Some(alice), "password123").is_some());
    assert_eq!(plan.games.len(), 8);
    assert_eq!(plan.games[3].first_verdict, DemoVerdict::Draw);
    assert_eq!(plan.games[2].second_verdict.text(), "Won");
}

#[test]
fn refused_logins_look_alike() {
    let hash = hash_password("correctpassword");
    let creds = |password: &str| Credentials {
        username: "authuser".to_string(),
        password: password.to_string(),
        next: Some("/lobbies".to_string()),
    };
    let unknown = login(None, &creds("correctpassword")).unwrap_err();
    let wrong = login(Some(user(1, "authuser", &hash)), &creds("wrongpassword")).unwrap_err();
    assert_eq!(unknown, "Invalid username or password.");
    assert_eq!(unknown, wrong);
    let (u, next) = login(Some(user(1, "authuser", &hash)), &creds("correctpassword")).unwrap();
    assert_eq!(u.id, 1);
    assert_eq!(next, "/lobbies");
}
