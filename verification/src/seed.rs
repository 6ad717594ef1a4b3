//! The demo accounts and games an empty database is filled with.
use vstd::prelude::*;
use vstd::utf8::encode_utf8;
use crate::account::{hash_password, spec_password_matches};

verus! {

/// A player's verdict in a demo game.
#[derive(Clone, Copy, Debug, PartialEq, Eq, Structural)]
pub enum DemoVerdict {
    Won,
    Lost,
    Draw,
}

impl DemoVerdict {
    /// The word stored in the database.
    pub open spec fn spec_text(self) -> Seq<char> {
        match self {
            DemoVerdict::Won => "Won"@,
            DemoVerdict::Lost => "Lost"@,
            DemoVerdict::Draw => "Draw"@,
        }
    }

    /// The word stored in the database.
    pub fn text(&self) -> (r: &'static str)
        ensures
            r@ == self.spec_text(),
    {
        match self {
            DemoVerdict::Won => "Won",
            DemoVerdict::Lost => "Lost",
            DemoVerdict::Draw => "Draw",
        }
    }
}

/// A demo account: its name and the hash of its password.
#[derive(Debug)]
pub struct DemoUser {
    pub username: String,
    pub password_hash: String,
}

/// A demo game between the demo users at positions `first` and `second`.
#[derive(Clone, Copy, Debug, PartialEq, Eq, Structural)]
pub struct DemoGame {
    pub first: usize,
    pub second: usize,
    pub first_verdict: DemoVerdict,
    pub second_verdict: DemoVerdict,
}

/// What to write into an empty database.
#[derive(Debug)]
pub struct SeedPlan {
    pub users: Vec<DemoUser>,
    pub games: Vec<DemoGame>,
}

/// The names of the demo accounts, in the order they are created.
pub open spec fn demo_names() -> Seq<Seq<char>> {
    seq!["alice"@, "bob"@, "carol"@, "dave"@, "eve"@]
}

/// The password every demo account is made with.
pub open spec fn demo_password() -> Seq<char> {
    "password123"@
}

pub open spec fn game(first: usize, second: usize, a: DemoVerdict, b: DemoVerdict) -> DemoGame {
    DemoGame { first, second, first_verdict: a, second_verdict: b }
}

/// The demo games, in the order they are recorded.
pub open spec fn demo_games() -> Seq<DemoGame> {
    seq![
        game(0, 1, DemoVerdict::Won, DemoVerdict::Lost),
        game(1, 2, DemoVerdict::Won, DemoVerdict::Lost),
        game(0, 2, DemoVerdict::Lost, DemoVerdict::Won),
        game(3, 4, DemoVerdict::Draw, DemoVerdict::Draw),
        game(0, 3, DemoVerdict::Won, DemoVerdict::Lost),
        game(2, 4, DemoVerdict::Lost, DemoVerdict::Won),
        game(1, 3, DemoVerdict::Won, DemoVerdict::Lost),
        game(0, 4, DemoVerdict::Won, DemoVerdict::Lost),
    ]
}

/// A text takes at most four bytes per character in UTF-8.
proof fn lemma_encode_len(s: Seq<char>)
    ensures
        encode_utf8(s).len() <= 4 * s.len(),
    decreases s.len(),
{
    if s.len() > 0 {
        lemma_encode_len(s.drop_first());
        assert(vstd::utf8::encode_scalar(s[0] as u32).len() <= 4);
    }
}

fn demo_user(name: &str) -> (r: DemoUser)
    ensures
        r.username@ == name@,
        spec_password_matches(demo_password(), r.password_hash@),
{
    let password: &str = "password123";
    proof {
        reveal_strlit("password123");
        lemma_encode_len(password@);
    }
    DemoUser { username: name.to_string(), password_hash: hash_password(password) }
}

/// The demo data for a database holding `user_count` users: nothing unless
/// the database has no user yet.
pub fn demo_seed(user_count: i64) -> (r: Option<SeedPlan>)
    ensures
        r is None <==> user_count > 0,
        r matches Some(p) ==> {
            &&& p.users@.len() == demo_names().len()
            &&& forall|i: int|
                0 <= i < p.users@.len() ==> (#[trigger] p.users@[i]).username@ == demo_names()[i]
                    && spec_password_matches(demo_password(), p.users@[i].password_hash@)
            &&& p.games@ == demo_games()
        },
{
    if user_count > 0 {
        return None;
    }
    let mut users: Vec<DemoUser> = Vec::new();
    users.push(demo_user("alice"));
    users.push(demo_user("bob"));
    users.push(demo_user("carol"));
    users.push(demo_user("dave"));
    users.push(demo_user("eve"));
    let games: Vec<DemoGame> = vec![
        DemoGame { first: 0, second: 1, first_verdict: DemoVerdict::Won, second_verdict: DemoVerdict::Lost },
        DemoGame { first: 1, second: 2, first_verdict: DemoVerdict::Won, second_verdict: DemoVerdict::Lost },
        DemoGame { first: 0, second: 2, first_verdict: DemoVerdict::Lost, second_verdict: DemoVerdict::Won },
        DemoGame { first: 3, second: 4, first_verdict: DemoVerdict::Draw, second_verdict: DemoVerdict::Draw },
        DemoGame { first: 0, second: 3, first_verdict: DemoVerdict::Won, second_verdict: DemoVerdict::Lost },
        DemoGame { first: 2, second: 4, first_verdict: DemoVerdict::Lost, second_verdict: DemoVerdict::Won },
        DemoGame { first: 1, second: 3, first_verdict: DemoVerdict::Won, second_verdict: DemoVerdict::Lost },
        DemoGame { first: 0, second: 4, first_verdict: DemoVerdict::Won, second_verdict: DemoVerdict::Lost },
    ];
    assert(games@ =~= demo_games());
    Some(SeedPlan { users, games })
}

} // verus!
