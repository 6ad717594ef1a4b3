//! Game configuration used for testing and user-initiated setup.
use vstd::prelude::*;
use crate::bag::{AnyBag, Bag, DeterministicBag, RandomBag};
use crate::data::{GravityTimer, SharedGameState, SOFT_DROP_GRAVITY};
use crate::rng::Generator;

verus! {

/// The default port to connect to the server
pub const DEFAULT_SERVER_PORT: u16 = 1337;
/// The default replication interval for the server
pub const DEFAULT_REPLICATION_INTERVAL_MS: u64 = 16;
/// The seed for the garbage RNG
pub const GARBAGE_SEED: u64 = 727;

/// Whether garbage is sent when a configuration does not say.
pub fn default_send_garbage() -> (r: bool)
    ensures
        !r,
{
    false
}

/// The number of players expected when a configuration does not say.
pub fn default_expected_players() -> (r: usize)
    ensures
        r == 1,
{
    1
}

/// An IP address of the server, as the big-endian number of its octets.
#[derive(Clone, Copy, Debug, PartialEq, Eq, Structural)]
pub enum ServerAddr {
    V4(u32),
    V6(u128),
}

/// The loopback address 127.0.0.1.
pub const LOCALHOST_V4: u32 = 0x7f00_0001;

/// What type of bag to create in the initial state.
#[derive(Clone, Copy, Debug, PartialEq, Eq, Structural)]
pub enum BagType {
    /// A deterministic bag that cycles through all tetrominos
    Deterministic,
    /// A randomized bag with a given starting random seed
    FixedSeed(u64),
    /// A randomized bag with a seed picked at runtime
    RandomSeed,
}

impl Default for BagType {
    fn default() -> (r: BagType)
        ensures
            r == BagType::RandomSeed,
    {
        BagType::RandomSeed
    }
}

impl BagType {
    /// Create a new bag based on the parameters specified by this object.
    pub fn create_bag(&self) -> (r: AnyBag)
        ensures
            r.bag_inv(),
            *self == BagType::Deterministic <==> r is Deterministic,
            r matches AnyBag::Deterministic(b) ==> b.index() == 0,
            r matches AnyBag::Random(b) ==> b.remaining().len() == 0 && b.seed() == match *self {
                BagType::FixedSeed(s) => Some(s),
                _ => None::<u64>,
            },
    {
        match self {
            BagType::Deterministic => AnyBag::Deterministic(DeterministicBag::new()),
            BagType::FixedSeed(seed) => AnyBag::Random(RandomBag::from_seed(*seed)),
            BagType::RandomSeed => AnyBag::Random(RandomBag::from_os()),
        }
    }
}

/// Game configuration to read from the user or from the tests.
#[derive(Clone, Copy, Debug, PartialEq, Eq, Structural)]
pub struct GameConfig {
    /// The type of bag for this game.
    pub bag: BagType,
    /// Whether to animate the title text.
    pub animate_title: bool,
    /// The IP address of the server.
    pub server_addr: ServerAddr,
    /// The port the networking server is serving from.
    pub server_port: u16,
    /// Server->client replication interval, in milliseconds
    pub replication_interval_ms: u64,
    /// Whether to send garbage when scoring
    pub send_garbage: bool,
    /// The expected number of players
    pub expected_players: usize,
}

impl Default for GameConfig {
    fn default() -> (r: GameConfig)
        ensures
            r == (GameConfig {
                bag: BagType::RandomSeed,
                animate_title: true,
                server_addr: ServerAddr::V4(LOCALHOST_V4),
                server_port: DEFAULT_SERVER_PORT,
                replication_interval_ms: DEFAULT_REPLICATION_INTERVAL_MS,
                send_garbage: false,
                expected_players: 1,
            }),
    {
        GameConfig {
            bag: BagType::default(),
            animate_title: true,
            server_addr: ServerAddr::V4(LOCALHOST_V4),
            server_port: DEFAULT_SERVER_PORT,
            replication_interval_ms: DEFAULT_REPLICATION_INTERVAL_MS,
            send_garbage: false,
            expected_players: 1,
        }
    }
}

/// Private game configuration, used for internal systems and contains data
/// that cannot/should not be sent to the client.
pub struct PrivateGameState {
    /// The next piece bag
    pub bag: AnyBag,
    /// Whether to send garbage when scoring
    pub send_garbage: bool,
    /// The RNG to use for generating garbage
    pub garbage_rng: Generator,
}

/// The shared state every player starts a game with; the gravity timer
/// starts at the initial drop interval.
pub open spec fn initial_shared_state() -> SharedGameState {
    SharedGameState {
        score: 0,
        lines_cleared: 0,
        lines_cleared_since_last_level: 0,
        level: 0,
        hard_drop: false,
        manual_drop_gravity: SOFT_DROP_GRAVITY,
        client_id: 0,
        gravity_timer: GravityTimer { duration_us: 800_000, elapsed_us: 0 },
    }
}

impl GameConfig {
    /// Whether the expected number of players is one the game supports.
    pub open spec fn spec_players_supported(&self) -> bool {
        0 < self.expected_players <= 3
    }

    /// Check that a configuration read from JSON names a supported number of
    /// players (one to three).
    pub fn players_supported(&self) -> (r: bool)
        ensures
            r == self.spec_players_supported(),
    {
        self.expected_players > 0 && self.expected_players <= 3
    }

    /// Build an initial shared game state based on this configuration.
    pub fn build_shared_game_state(&self) -> (r: SharedGameState)
        ensures
            r == initial_shared_state(),
    {
        SharedGameState {
            score: 0,
            lines_cleared: 0,
            lines_cleared_since_last_level: 0,
            level: 0,
            hard_drop: false,
            manual_drop_gravity: SOFT_DROP_GRAVITY,
            client_id: 0,
            gravity_timer: GravityTimer {
                duration_us: SharedGameState::initial_drop_interval_micros(),
                elapsed_us: 0,
            },
        }
    }

    /// Build an initial private game state based on this configuration.
    pub fn build_private_game_state(&self) -> (r: PrivateGameState)
        ensures
            r.bag.bag_inv(),
            self.bag == BagType::Deterministic <==> r.bag is Deterministic,
            r.bag matches AnyBag::Deterministic(b) ==> b.index() == 0,
            r.bag matches AnyBag::Random(b) ==> b.remaining().len() == 0 && b.seed() == match self.bag {
                BagType::FixedSeed(s) => Some(s),
                _ => None::<u64>,
            },
            r.send_garbage == self.send_garbage,
            r.garbage_rng.seed() == Some(GARBAGE_SEED),
            r.garbage_rng.draws() == Seq::<(int, int)>::empty(),
    {
        PrivateGameState {
            bag: self.bag.create_bag(),
            send_garbage: self.send_garbage,
            garbage_rng: Generator::from_seed(GARBAGE_SEED),
        }
    }
}

} // verus!
