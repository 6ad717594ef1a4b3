//! Messages exchanged between clients and the server.
use vstd::prelude::*;

verus! {

/// The entity that owns a tetromino/obstacle
#[derive(Clone, Copy, Debug, PartialEq, Eq, Structural)]
pub struct BelongsTo(pub u64);

/// Inputs from the client
#[derive(Clone, Copy, Debug, PartialEq, Eq, Structural, Hash)]
pub enum Input {
    Left,
    Right,
    Down,
    Rotate,
    Hold,
    HardDrop,
    EndGame,
    ContinueYes,
    ContinueNo,
}

/// Set of logical inputs to be sent as a message
#[derive(Clone, Debug)]
pub struct Inputs(pub Vec<Input>);

impl Inputs {
    /// The set of inputs held in this message.
    pub open spec fn spec_has(&self, i: Input) -> bool {
        self.0@.contains(i)
    }

    /// A message holding no input.
    pub fn empty() -> (r: Inputs)
        ensures
            forall|i: Input| !#[trigger] r.spec_has(i),
    {
        Inputs(Vec::new())
    }

    /// Whether the message holds the given input.
    pub fn contains(&self, input: Input) -> (r: bool)
        ensures
            r == self.spec_has(input),
    {
        let n = self.0.len();
        let mut i: usize = 0;
        while i < n
            invariant
                n == self.0@.len(),
                i <= n,
                forall|k: int| 0 <= k < i ==> self.0@[k] != input,
            decreases n - i,
        {
            if self.0[i] == input {
                return true;
            }
            i = i + 1;
        }
        false
    }

    /// Add an input to the message (a set: adding twice has no effect).
    pub fn insert(&mut self, input: Input)
        ensures
            forall|i: Input| #[trigger] final(self).spec_has(i) == (old(self).spec_has(i) || i == input),
    {
        if !self.contains(input) {
            self.0.push(input);
        }
        proof {
            assert forall|i: Input| #[trigger] final(self).spec_has(i) == (old(self).spec_has(i) || i == input) by {
                if old(self).spec_has(i) {
                    let k = choose|k: int| 0 <= k < old(self).0@.len() && old(self).0@[k] == i;
                    assert(final(self).0@[k] == i);
                }
                if final(self).spec_has(i) && i != input {
                    let k = choose|k: int| 0 <= k < final(self).0@.len() && final(self).0@[k] == i;
                    assert(k < old(self).0@.len());
                    assert(old(self).0@[k] == i);
                }
                if i == input && !old(self).spec_has(i) {
                    assert(final(self).0@[final(self).0@.len() - 1] == i);
                }
            }
        }
    }

    /// Whether the message holds no input.
    pub fn is_empty(&self) -> (r: bool)
        ensures
            r == (forall|i: Input| !#[trigger] self.spec_has(i)),
    {
        let r = self.0.len() == 0;
        proof {
            if !r {
                assert(self.spec_has(self.0@[0]));
            }
        }
        r
    }
}

/// A message to signal a client that its game has ended.
#[derive(Clone, Copy, Debug, PartialEq, Eq, Structural)]
pub enum GameOverMessage {
    /// The receiver lost the game
    Lost,
    /// The receiver won the game
    Won,
    /// The receiver is the last player standing and may keep playing
    WonContinue,
}

} // verus!
