//! The game server's round of play: when it starts and stops, which
//! clients are dropped, who won, and what is written down afterwards.
//! Clients are known by their numeric id.
use vstd::prelude::*;
use std::collections::HashMap;
use crate::protocol::{GameOverMessage, Input, Inputs};

verus! {

broadcast use vstd::std_specs::hash::group_hash_axioms;

/// A client that sent nothing for longer than this is dropped, in
/// microseconds.
pub const DISCONNECT_INTERVAL_US: u64 = 3_000_000;

/// Server-level game state: waiting for players vs. actively playing.
#[derive(Clone, Copy, Debug, PartialEq, Eq, Structural, Hash)]
pub enum ServerState {
    Pending,
    Running,
}

impl Default for ServerState {
    fn default() -> (r: Self)
        ensures
            r == ServerState::Pending,
    {
        ServerState::Pending
    }
}

/// DB path and ordered player IDs from the web server config.
pub struct ServerDbConfig {
    /// Path to the database file
    pub db_path: String,
    /// DB user IDs in lobby join order
    pub player_ids: Vec<i64>,
}

impl ServerDbConfig {
    /// Results are written only with a database and a list of players.
    pub fn records_enabled(&self) -> (r: bool)
        ensures
            r == (self.db_path@.len() > 0 && self.player_ids@.len() > 0),
    {
        !self.db_path.as_str().is_empty() && self.player_ids.len() > 0
    }
}

/// A player's result in a round.
#[derive(Clone, Copy, Debug, PartialEq, Eq, Structural)]
pub enum Verdict {
    Won,
    Lost,
}

impl Verdict {
    /// The word stored in the database.
    pub open spec fn spec_text(self) -> Seq<char> {
        match self {
            Verdict::Won => "Won"@,
            Verdict::Lost => "Lost"@,
        }
    }

    /// The word stored in the database.
    pub fn text(&self) -> (r: &'static str)
        ensures
            r@ == self.spec_text(),
    {
        match self {
            Verdict::Won => "Won",
            Verdict::Lost => "Lost",
        }
    }
}

/// What happens to a client that has just connected.
#[derive(Clone, Copy, Debug, PartialEq, Eq, Structural)]
pub enum ConnectDecision {
    /// A game is under way: the late client is dropped
    Reject,
    /// Not everyone is here yet
    Wait,
    /// Everyone is here: the game starts
    Start,
}

/// Decide on a client that has just connected, `connected` clients being
/// connected now, `expected` being awaited.
pub fn on_client_connected(state: ServerState, connected: usize, expected: usize) -> (r: ConnectDecision)
    ensures
        state == ServerState::Running ==> r == ConnectDecision::Reject,
        state == ServerState::Pending && connected >= expected ==> r == ConnectDecision::Start,
        state == ServerState::Pending && connected < expected ==> r == ConnectDecision::Wait,
{
    if state == ServerState::Running {
        ConnectDecision::Reject
    } else if connected >= expected {
        ConnectDecision::Start
    } else {
        ConnectDecision::Wait
    }
}

/// The state once `clients` clients are left: a running game with nobody
/// left goes back to waiting.
pub fn state_after_departures(state: ServerState, clients: usize) -> (r: ServerState)
    ensures
        r == (if state == ServerState::Running && clients == 0 {
            ServerState::Pending
        } else {
            state
        }),
{
    if state == ServerState::Running && clients == 0 {
        ServerState::Pending
    } else {
        state
    }
}

/// Received inputs are played only while the game runs.
pub fn accepts_inputs(state: ServerState) -> (r: bool)
    ensures
        r == (state == ServerState::Running),
{
    state == ServerState::Running
}

/// The escape key ends the player's game: whether the inputs ask for that.
pub fn game_over_on_esc(inputs: &Inputs) -> (r: bool)
    ensures
        r == inputs.spec_has(Input::EndGame),
{
    inputs.contains(Input::EndGame)
}

/// The client has been silent for longer than the disconnect interval.
pub open spec fn is_stale(now_us: u64, last_us: u64) -> bool {
    now_us - last_us > DISCONNECT_INTERVAL_US
}

/// The clients, among `(client, last heard from)` pairs, to drop at
/// `now_us`, in the order given.
pub open spec fn stale_of(now_us: u64, clients: Seq<(u64, u64)>) -> Seq<u64>
    decreases clients.len(),
{
    if clients.len() == 0 {
        Seq::empty()
    } else {
        let rest = stale_of(now_us, clients.drop_last());
        let last = clients.last();
        if is_stale(now_us, last.1) {
            rest.push(last.0)
        } else {
            rest
        }
    }
}

/// Pick the clients to drop for silence.  No client was heard from after
/// `now_us`.
pub fn stale_clients(now_us: u64, clients: &Vec<(u64, u64)>) -> (r: Vec<u64>)
    requires
        forall|i: int| 0 <= i < clients@.len() ==> #[trigger] clients@[i].1 <= now_us,
    ensures
        r@ == stale_of(now_us, clients@),
{
    let mut out: Vec<u64> = Vec::new();
    let mut i: usize = 0;
    while i < clients.len()
        invariant
            i <= clients@.len(),
            forall|j: int| 0 <= j < clients@.len() ==> #[trigger] clients@[j].1 <= now_us,
            out@ == stale_of(now_us, clients@.take(i as int)),
        decreases clients@.len() - i,
    {
        let (client, last) = clients[i];
        assert(clients@.take(i + 1).drop_last() =~= clients@.take(i as int));
        assert(clients@[i as int].1 <= now_us);
        if now_us - last > DISCONNECT_INTERVAL_US {
            out.push(client);
        }
        i = i + 1;
    }
    assert(clients@.take(clients@.len() as int) =~= clients@);
    out
}

/// The last player standing of a game for several players, when a client
/// has just been marked for dropping and that player was not already asked
/// whether to keep playing.
pub open spec fn spec_winner(expected: usize, newly_dropped: bool, active: Seq<u64>, awaiting: Option<u64>) -> Option<u64> {
    if expected <= 1 || !newly_dropped || active.len() != 1 || awaiting == Some(active[0]) {
        None
    } else {
        Some(active[0])
    }
}

/// Look for a winner after clients were marked for dropping.  The winner is
/// recorded as having won and becomes the player awaited for a choice to
/// keep playing; it is returned so that it can be asked.
pub fn check_winner(
    expected: usize,
    newly_dropped: bool,
    active: &Vec<u64>,
    outcomes: &mut HashMap<u64, Verdict>,
    awaiting: &mut Option<u64>,
) -> (r: Option<u64>)
    ensures
        r == spec_winner(expected, newly_dropped, active@, *old(awaiting)),
        r matches Some(w) ==> final(outcomes)@ == old(outcomes)@.insert(w, Verdict::Won) && *final(awaiting) == Some(w),
        r is None ==> final(outcomes)@ == old(outcomes)@ && *final(awaiting) == *old(awaiting),
{
    if expected <= 1 || !newly_dropped || active.len() != 1 {
        return None;
    }
    let winner = active[0];
    if *awaiting == Some(winner) {
        return None;
    }
    outcomes.insert(winner, Verdict::Won);
    *awaiting = Some(winner);
    Some(winner)
}

/// The winner's answer to the offer to keep playing.
#[derive(Clone, Copy, Debug, PartialEq, Eq, Structural)]
pub enum ContinueAnswer {
    /// The inputs hold no answer from the awaited winner
    NoAnswer,
    /// The winner stops: the game ends for them
    Stop,
    /// The winner keeps playing: the results are written now
    KeepPlaying,
}

/// Read the answer, if any, of the awaited winner in inputs from `client`.
/// An answer ends the wait; a refusal wins over an acceptance sent with it.
pub fn continue_choice(awaiting: &mut Option<u64>, client: u64, inputs: &Inputs) -> (r: ContinueAnswer)
    ensures
        *old(awaiting) != Some(client) ==> r == ContinueAnswer::NoAnswer,
        *old(awaiting) == Some(client) ==> r == (if inputs.spec_has(Input::ContinueNo) {
            ContinueAnswer::Stop
        } else if inputs.spec_has(Input::ContinueYes) {
            ContinueAnswer::KeepPlaying
        } else {
            ContinueAnswer::NoAnswer
        }),
        *final(awaiting) == (if r == ContinueAnswer::NoAnswer { *old(awaiting) } else { None::<u64> }),
{
    if *awaiting != Some(client) {
        return ContinueAnswer::NoAnswer;
    }
    let yes = inputs.contains(Input::ContinueYes);
    let no = inputs.contains(Input::ContinueNo);
    if !yes && !no {
        return ContinueAnswer::NoAnswer;
    }
    *awaiting = None;
    if no {
        ContinueAnswer::Stop
    } else {
        ContinueAnswer::KeepPlaying
    }
}

/// The verdict a client gets at the end of its game: the one recorded, or a
/// loss, which is recorded when none was.
pub open spec fn verdict_of(outcomes: Map<u64, Verdict>, client: u64) -> Verdict {
    if outcomes.contains_key(client) {
        outcomes[client]
    } else {
        Verdict::Lost
    }
}

/// End the game of `client`: returns the message to send it, recording a
/// loss when no verdict was recorded.  Nothing happens outside a running
/// game.
pub fn on_game_over(state: ServerState, outcomes: &mut HashMap<u64, Verdict>, client: u64) -> (r: Option<GameOverMessage>)
    ensures
        state != ServerState::Running ==> r is None && final(outcomes)@ == old(outcomes)@,
        state == ServerState::Running ==> {
            &&& final(outcomes)@ == old(outcomes)@.insert(client, verdict_of(old(outcomes)@, client))
            &&& r == Some(if verdict_of(old(outcomes)@, client) == Verdict::Won {
                GameOverMessage::Won
            } else {
                GameOverMessage::Lost
            })
        },
{
    if state != ServerState::Running {
        return None;
    }
    let verdict = match outcomes.get(&client) {
        Some(v) => *v,
        None => Verdict::Lost,
    };
    if !outcomes.contains_key(&client) {
        outcomes.insert(client, Verdict::Lost);
    }
    assert(outcomes@ == old(outcomes)@.insert(client, verdict_of(old(outcomes)@, client)));
    match verdict {
        Verdict::Won => Some(GameOverMessage::Won),
        Verdict::Lost => Some(GameOverMessage::Lost),
    }
}

/// Note the moment a client went out and its score, the first time it goes
/// out in a round.  `elapsed_us` is the time since the round started, when
/// it has started; `score` is the client's score, when its state is found.
pub fn record_elimination(
    elim_at_us: &mut HashMap<u64, u64>,
    final_scores: &mut HashMap<u64, u32>,
    client: u64,
    elapsed_us: Option<u64>,
    score: Option<u32>,
)
    ensures
        elapsed_us is None || old(elim_at_us)@.contains_key(client) ==> final(elim_at_us)@ == old(elim_at_us)@ && final(final_scores)@ == old(final_scores)@,
        elapsed_us is Some && !old(elim_at_us)@.contains_key(client) ==> {
            &&& final(elim_at_us)@ == old(elim_at_us)@.insert(client, elapsed_us.unwrap())
            &&& final(final_scores)@ == match score {
                Some(s) => old(final_scores)@.insert(client, s),
                None => old(final_scores)@,
            }
        },
{
    let t = match elapsed_us {
        Some(t) => t,
        None => return,
    };
    if elim_at_us.contains_key(&client) {
        return;
    }
    elim_at_us.insert(client, t);
    if let Some(s) = score {
        final_scores.insert(client, s);
    }
}

/// One player's line in the results of a round.
#[derive(Clone, Copy, Debug, PartialEq, Eq, Structural)]
pub struct ParticipantRow {
    pub user_id: i64,
    pub verdict: Verdict,
    pub score: i64,
    /// When the player went out, if they did
    pub eliminated_at_us: Option<u64>,
    /// How long the player played: until they went out, else the whole round
    pub played_us: u64,
}

/// The results line of the client at `i` in connection order, who is the
/// player at `i` in lobby order.
pub open spec fn row_of(
    user_id: i64,
    client: u64,
    outcomes: Map<u64, Verdict>,
    final_scores: Map<u64, u32>,
    elim_at_us: Map<u64, u64>,
    round_us: u64,
) -> ParticipantRow {
    let elim = if elim_at_us.contains_key(client) {
        Some(elim_at_us[client])
    } else {
        None
    };
    ParticipantRow {
        user_id,
        verdict: verdict_of(outcomes, client),
        score: if final_scores.contains_key(client) {
            final_scores[client] as i64
        } else {
            0
        },
        eliminated_at_us: elim,
        played_us: match elim {
            Some(t) => t,
            None => round_us,
        },
    }
}

/// The results of a round: clients in connection order are matched with
/// players in lobby order; clients beyond the list of players are left out.
pub fn participant_rows(
    player_ids: &Vec<i64>,
    order: &Vec<u64>,
    outcomes: &HashMap<u64, Verdict>,
    final_scores: &HashMap<u64, u32>,
    elim_at_us: &HashMap<u64, u64>,
    round_us: u64,
) -> (r: Vec<ParticipantRow>)
    ensures
        r@.len() == if order@.len() < player_ids@.len() { order@.len() } else { player_ids@.len() },
        forall|i: int| 0 <= i < r@.len() ==> #[trigger] r@[i] == row_of(player_ids@[i], order@[i], outcomes@, final_scores@, elim_at_us@, round_us),
{
    let mut rows: Vec<ParticipantRow> = Vec::new();
    let mut i: usize = 0;
    while i < order.len() && i < player_ids.len()
        invariant
            i <= order@.len(),
            i <= player_ids@.len(),
            rows@.len() == i,
            forall|j: int| 0 <= j < i ==> #[trigger] rows@[j] == row_of(player_ids@[j], order@[j], outcomes@, final_scores@, elim_at_us@, round_us),
        decreases order@.len() - i,
    {
        let client = order[i];
        let verdict = match outcomes.get(&client) {
            Some(v) => *v,
            None => Verdict::Lost,
        };
        let score: i64 = match final_scores.get(&client) {
            Some(s) => *s as i64,
            None => 0,
        };
        let elim: Option<u64> = match elim_at_us.get(&client) {
            Some(t) => Some(*t),
            None => None,
        };
        let played: u64 = match elim {
            Some(t) => t,
            None => round_us,
        };
        rows.push(ParticipantRow { user_id: player_ids[i], verdict, score, eliminated_at_us: elim, played_us: played });
        i = i + 1;
    }
    rows
}

/// What the game server writes when a round ends: the results of the round,
/// and the lobby to delete, the one whose game server listens on
/// `lobby_port`.
#[derive(Debug)]
pub struct RoundRecord {
    pub participants: Vec<ParticipantRow>,
    pub lobby_port: u16,
}

/// The record of a finished round, for a server listening on `server_port`;
/// nothing is recorded without a database and a list of players.
pub fn round_record(
    db_cfg: &ServerDbConfig,
    server_port: u16,
    order: &Vec<u64>,
    outcomes: &HashMap<u64, Verdict>,
    final_scores: &HashMap<u64, u32>,
    elim_at_us: &HashMap<u64, u64>,
    round_us: u64,
) -> (r: Option<RoundRecord>)
    ensures
        r is Some <==> (db_cfg.db_path@.len() > 0 && db_cfg.player_ids@.len() > 0),
        r matches Some(rec) ==> {
            &&& rec.lobby_port == server_port
            &&& rec.participants@.len() == if order@.len() < db_cfg.player_ids@.len() {
                order@.len()
            } else {
                db_cfg.player_ids@.len()
            }
            &&& forall|i: int|
                0 <= i < rec.participants@.len() ==> #[trigger] rec.participants@[i] == row_of(
                    db_cfg.player_ids@[i],
                    order@[i],
                    outcomes@,
                    final_scores@,
                    elim_at_us@,
                    round_us,
                )
        },
{
    if !db_cfg.records_enabled() {
        return None;
    }
    let participants = participant_rows(&db_cfg.player_ids, order, outcomes, final_scores, elim_at_us, round_us);
    Some(RoundRecord { participants, lobby_port: server_port })
}

/// Once the last player standing has been named the winner, looking again
/// with the same players left names nobody: the winner is asked only once
/// whether to keep playing.
pub proof fn law_winner_named_once(expected: usize, active: Seq<u64>, awaiting: Option<u64>)
    requires
        spec_winner(expected, true, active, awaiting) is Some,
    ensures
        spec_winner(expected, true, active, spec_winner(expected, true, active, awaiting)) is None,
{
}

/// A game that ends for a client leaves its verdict recorded, so a second
/// end of game reports the same verdict.
pub proof fn law_verdict_settles(outcomes: Map<u64, Verdict>, client: u64)
    ensures
        verdict_of(outcomes.insert(client, verdict_of(outcomes, client)), client) == verdict_of(outcomes, client),
{
}

} // verus!
