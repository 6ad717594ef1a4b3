//! Next-piece bag implementations.
use vstd::prelude::*;
use crate::data::{
    get_tetromino, is_canonical, spec_get_tetromino, spec_type_at, tetromino_type_at, Tetromino,
    TetrominoType,
};
use crate::rng::Generator;

verus! {

/// A generic interface for the next tile bag.
pub trait Bag: Sized {
    /// The bag's own consistency condition.
    spec fn bag_inv(&self) -> bool;

    /// The piece the next draw yields, when the bag already knows it.
    spec fn upcoming(&self) -> Option<Tetromino>;

    /// Get the next tetromino and remove it from the bag
    fn next_tetromino(&mut self) -> (t: Tetromino)
        requires
            old(self).bag_inv(),
        ensures
            final(self).bag_inv(),
            is_canonical(t),
            old(self).upcoming() is Some ==> t == old(self).upcoming().unwrap(),
    ;

    /// Get the next tetromino without removing it from the bag
    fn peek(&mut self) -> (t: Tetromino)
        requires
            old(self).bag_inv(),
        ensures
            final(self).bag_inv(),
            is_canonical(t),
            final(self).upcoming() == Some(t),
            old(self).upcoming() is Some ==> *final(self) == *old(self),
    ;
}

/// A deterministic tile bag that cycles between tetrominos.
#[derive(Debug)]
pub struct DeterministicBag {
    next_tile_index: usize,
}

impl DeterministicBag {
    /// Position of the next piece in the bag order.
    pub closed spec fn index(&self) -> int {
        self.next_tile_index as int
    }

    /// A bag that starts with the first piece of the bag order.
    pub fn new() -> (r: DeterministicBag)
        ensures
            r.index() == 0,
            r.bag_inv(),
    {
        DeterministicBag { next_tile_index: 0 }
    }
}

impl Default for DeterministicBag {
    fn default() -> (r: DeterministicBag)
        ensures
            r.index() == 0,
    {
        DeterministicBag::new()
    }
}

impl Bag for DeterministicBag {
    open spec fn bag_inv(&self) -> bool {
        0 <= self.index() < 7
    }

    open spec fn upcoming(&self) -> Option<Tetromino> {
        Some(spec_get_tetromino(spec_type_at(self.index())))
    }

    /// Take the next tetromino out of the bag.
    fn next_tetromino(&mut self) -> (t: Tetromino)
        ensures
            final(self).index() == (old(self).index() + 1) % 7,
    {
        let t = self.peek();
        self.next_tile_index = (self.next_tile_index + 1) % 7;
        t
    }

    /// Peek at the next tetromino.
    ///
    /// This function is `&mut self` in case the bag needs to be refilled.
    fn peek(&mut self) -> (t: Tetromino)
        ensures
            final(self).index() == old(self).index(),
    {
        get_tetromino(tetromino_type_at(self.next_tile_index))
    }
}

/// Position in the bag order of a deterministic bag after `n` draws from a
/// fresh bag, each draw stepping it by one as `next_tetromino` does.
pub open spec fn det_index_after(n: nat) -> int
    decreases n,
{
    if n == 0 {
        0
    } else {
        (det_index_after((n - 1) as nat) + 1) % 7
    }
}

/// A fresh deterministic bag deals the bag order over and over: after `n`
/// draws it stands at position `n % 7`, so draw `n` yields the piece of that
/// position (peeking does not move it).
pub proof fn law_deterministic_cycle(n: nat)
    ensures
        det_index_after(n) == n % 7,
        0 <= det_index_after(n) < 7,
    decreases n,
{
    if n > 0 {
        law_deterministic_cycle((n - 1) as nat);
        assert(((n - 1) % 7 + 1) % 7 == n % 7) by (nonlinear_arith)
            requires n >= 1;
    }
}

/// The seven canonical pieces in bag order.
pub open spec fn all_seven() -> Seq<Tetromino> {
    Seq::new(7, |i: int| spec_get_tetromino(spec_type_at(i)))
}

/// The random tile bag: a shuffled set of the seven pieces, refilled when
/// it runs out.
pub struct RandomBag {
    remaining_pieces: Vec<Tetromino>,
    rng: Generator,
}

impl RandomBag {
    /// The pieces still in the bag; the last one is dealt first.
    pub closed spec fn remaining(&self) -> Seq<Tetromino> {
        self.remaining_pieces@
    }

    /// The seed the bag's generator was built from; `None` when the
    /// operating system seeded it.
    pub closed spec fn seed(&self) -> Option<u64> {
        self.rng.seed()
    }

    /// Create a bag from given starting RNG seed.
    pub fn from_seed(seed: u64) -> (r: RandomBag)
        ensures
            r.remaining() == Seq::<Tetromino>::empty(),
            r.bag_inv(),
            r.seed() == Some(seed),
    {
        proof {
            broadcast use vstd::seq_lib::group_to_multiset_ensures;

            assert(Seq::<Tetromino>::empty().to_multiset() =~= vstd::multiset::Multiset::empty());
        }
        RandomBag { remaining_pieces: Vec::new(), rng: Generator::from_seed(seed) }
    }

    /// Create a bag seeded by the operating system.
    pub fn from_os() -> (r: RandomBag)
        ensures
            r.remaining() == Seq::<Tetromino>::empty(),
            r.bag_inv(),
            r.seed() is None,
    {
        proof {
            broadcast use vstd::seq_lib::group_to_multiset_ensures;

            assert(Seq::<Tetromino>::empty().to_multiset() =~= vstd::multiset::Multiset::empty());
        }
        RandomBag { remaining_pieces: Vec::new(), rng: Generator::from_os() }
    }

    fn refill(&mut self)
        requires
            old(self).remaining().len() == 0,
        ensures
            final(self).remaining().to_multiset() == all_seven().to_multiset(),
            final(self).seed() == old(self).seed(),
    {
        let mut i: usize = 0;
        while i < 7
            invariant
                i <= 7,
                self.remaining_pieces@ == all_seven().take(i as int),
                self.rng.seed() == old(self).rng.seed(),
            decreases 7 - i,
        {
            self.remaining_pieces.push(get_tetromino(tetromino_type_at(i)));
            assert(self.remaining_pieces@ =~= all_seven().take((i + 1) as int));
            i = i + 1;
        }
        assert(all_seven().take(7) == all_seven());
        self.rng.shuffle(&mut self.remaining_pieces);
    }
}

proof fn lemma_seven_canonical(t: Tetromino)
    requires
        all_seven().contains(t),
    ensures
        is_canonical(t),
{
    let k = choose|k: int| 0 <= k < 7 && all_seven()[k] == t;
    assert(t == spec_get_tetromino(spec_type_at(k)));
}

proof fn lemma_sub_bag_last(s: Seq<Tetromino>)
    requires
        s.len() > 0,
        s.to_multiset().subset_of(all_seven().to_multiset()),
    ensures
        is_canonical(s.last()),
        s.drop_last().to_multiset().subset_of(all_seven().to_multiset()),
{
    broadcast use vstd::seq_lib::group_to_multiset_ensures;

    assert(s == s.drop_last().push(s.last()));
    assert(s.to_multiset().count(s.last()) > 0);
    assert(all_seven().to_multiset().count(s.last()) > 0);
    lemma_seven_canonical(s.last());
    assert(s.drop_last().to_multiset().subset_of(s.to_multiset()));
}

/// One draw from a random bag holding `before`: the last piece, or, from
/// an empty bag, one piece of a fresh set of all seven, the others staying.
pub open spec fn random_draw(before: Seq<Tetromino>, after: Seq<Tetromino>, t: Tetromino) -> bool {
    if before.len() > 0 {
        after == before.drop_last() && t == before.last()
    } else {
        after.push(t).to_multiset() == all_seven().to_multiset()
    }
}

/// The draws of a round from an empty random bag: `bags[i]` is held before
/// the `i`-th draw, which deals `drawn[i]`, each draw as
/// `RandomBag::next_tetromino` states it (`random_draw`).
pub open spec fn round_of_draws(bags: Seq<Seq<Tetromino>>, drawn: Seq<Tetromino>) -> bool {
    &&& bags.len() == 8
    &&& drawn.len() == 7
    &&& bags[0].len() == 0
    &&& forall|i: int| 0 <= i < 7 ==> random_draw(bags[i], bags[i + 1], #[trigger] drawn[i])
}

proof fn lemma_round_lengths(bags: Seq<Seq<Tetromino>>, drawn: Seq<Tetromino>, i: int)
    requires
        round_of_draws(bags, drawn),
        1 <= i <= 7,
    ensures
        bags[i].len() == 7 - i,
    decreases i,
{
    broadcast use vstd::seq_lib::group_to_multiset_ensures;

    if i == 1 {
        assert(random_draw(bags[0], bags[1], drawn[0]));
        assert(all_seven().to_multiset().len() == 7);
        assert(bags[1].push(drawn[0]).to_multiset().len() == bags[1].len() + 1);
    } else {
        lemma_round_lengths(bags, drawn, i - 1);
        assert(random_draw(bags[i - 1], bags[i], drawn[i - 1]));
    }
}

proof fn lemma_singleton_multiset(t: Tetromino)
    ensures
        seq![t].to_multiset() == vstd::multiset::Multiset::<Tetromino>::empty().insert(t),
{
    broadcast use vstd::seq_lib::group_to_multiset_ensures;

    assert(seq![t] == Seq::<Tetromino>::empty().push(t));
    assert(Seq::<Tetromino>::empty().to_multiset() =~= vstd::multiset::Multiset::empty());
}

proof fn lemma_round_rest(bags: Seq<Seq<Tetromino>>, drawn: Seq<Tetromino>, k: int)
    requires
        round_of_draws(bags, drawn),
        1 <= k <= 7,
    ensures
        bags[k].to_multiset() == drawn.subrange(k, 7).to_multiset(),
    decreases 7 - k,
{
    broadcast use vstd::seq_lib::group_to_multiset_ensures;

    lemma_round_lengths(bags, drawn, k);
    if k == 7 {
        assert(bags[7] =~= Seq::<Tetromino>::empty());
        assert(drawn.subrange(7, 7) =~= Seq::<Tetromino>::empty());
    } else {
        lemma_round_rest(bags, drawn, k + 1);
        assert(random_draw(bags[k], bags[k + 1], drawn[k]));
        assert(bags[k] =~= bags[k + 1].push(drawn[k]));
        assert(drawn.subrange(k, 7) =~= seq![drawn[k]] + drawn.subrange(k + 1, 7));
        vstd::seq_lib::lemma_multiset_commutative(seq![drawn[k]], drawn.subrange(k + 1, 7));
        lemma_singleton_multiset(drawn[k]);
        assert(bags[k].to_multiset() =~= drawn.subrange(k, 7).to_multiset());
    }
}

/// Seven draws from an empty random bag deal each of the seven pieces once,
/// and leave the bag empty again.
pub proof fn law_seven_draws_deal_each_piece_once(bags: Seq<Seq<Tetromino>>, drawn: Seq<Tetromino>)
    requires
        round_of_draws(bags, drawn),
    ensures
        drawn.to_multiset() == all_seven().to_multiset(),
        bags[7].len() == 0,
{
    broadcast use vstd::seq_lib::group_to_multiset_ensures;

    lemma_round_lengths(bags, drawn, 7);
    lemma_round_rest(bags, drawn, 1);
    assert(random_draw(bags[0], bags[1], drawn[0]));
    assert(drawn =~= seq![drawn[0]] + drawn.subrange(1, 7));
    vstd::seq_lib::lemma_multiset_commutative(seq![drawn[0]], drawn.subrange(1, 7));
    lemma_singleton_multiset(drawn[0]);
    assert(drawn.to_multiset() =~= bags[1].push(drawn[0]).to_multiset());
}

impl Bag for RandomBag {
    /// Every piece left is one of the seven, and none of them twice.
    open spec fn bag_inv(&self) -> bool {
        self.remaining().to_multiset().subset_of(all_seven().to_multiset())
    }

    open spec fn upcoming(&self) -> Option<Tetromino> {
        if self.remaining().len() > 0 {
            Some(self.remaining().last())
        } else {
            None
        }
    }

    fn next_tetromino(&mut self) -> (t: Tetromino)
        ensures
            random_draw(old(self).remaining(), final(self).remaining(), t),
            final(self).seed() == old(self).seed(),
    {
        if self.remaining_pieces.len() == 0 {
            self.refill();
        }
        let ghost before = self.remaining_pieces@;
        proof {
            broadcast use vstd::seq_lib::group_to_multiset_ensures;

            if self.remaining_pieces@.len() == 0 {
                assert(self.remaining().to_multiset().len() == 0);
                assert(all_seven().to_multiset().len() == 7);
            }
            lemma_sub_bag_last(self.remaining_pieces@);
        }
        let t = self.remaining_pieces.pop().unwrap();
        assert(self.remaining_pieces@.push(t) == before);
        t
    }

    fn peek(&mut self) -> (t: Tetromino)
        ensures
            old(self).remaining().len() > 0 ==> final(self).remaining() == old(self).remaining(),
            old(self).remaining().len() == 0 ==> final(self).remaining().to_multiset()
                == all_seven().to_multiset(),
            final(self).seed() == old(self).seed(),
    {
        if self.remaining_pieces.len() == 0 {
            self.refill();
        }
        proof {
            broadcast use vstd::seq_lib::group_to_multiset_ensures;

            if self.remaining_pieces@.len() == 0 {
                assert(self.remaining().to_multiset().len() == 0);
                assert(all_seven().to_multiset().len() == 7);
            }
            lemma_sub_bag_last(self.remaining_pieces@);
        }
        let n = self.remaining_pieces.len();
        self.remaining_pieces[n - 1]
    }
}


/// Either kind of bag, chosen by the game configuration.
pub enum AnyBag {
    Deterministic(DeterministicBag),
    Random(RandomBag),
}

impl Bag for AnyBag {
    open spec fn bag_inv(&self) -> bool {
        match self {
            AnyBag::Deterministic(b) => b.bag_inv(),
            AnyBag::Random(b) => b.bag_inv(),
        }
    }

    open spec fn upcoming(&self) -> Option<Tetromino> {
        match self {
            AnyBag::Deterministic(b) => b.upcoming(),
            AnyBag::Random(b) => b.upcoming(),
        }
    }

    fn next_tetromino(&mut self) -> (t: Tetromino) {
        match self {
            AnyBag::Deterministic(b) => b.next_tetromino(),
            AnyBag::Random(b) => b.next_tetromino(),
        }
    }

    fn peek(&mut self) -> (t: Tetromino) {
        match self {
            AnyBag::Deterministic(b) => b.peek(),
            AnyBag::Random(b) => b.peek(),
        }
    }
}

} // verus!
