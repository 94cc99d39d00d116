use vstd::prelude::*;

use crate::entity::EntityId;

verus! {

/// A shooter's name and how many characters it has eliminated.
#[derive(Debug)]
pub struct ScoreHaver {
    pub name: String,
    pub score: usize,
}

impl ScoreHaver {
    pub fn new(name: &str) -> (r: Self)
        ensures
            r.name@ == name@,
            r.score == 0,
    {
        ScoreHaver { name: name.to_string(), score: 0 }
    }
}

/// The score record of one entity.
#[derive(Debug)]
pub struct Scorer {
    pub entity: EntityId,
    pub haver: ScoreHaver,
}

/// How many entries of `killed` are false: the characters still alive.
pub open spec fn remaining_of(killed: Seq<bool>) -> nat
    decreases killed.len(),
{
    if killed.len() == 0 {
        0
    } else {
        remaining_of(killed.drop_last()) + if killed.last() {
            0nat
        } else {
            1nat
        }
    }
}

/// Counts the opponents not yet killed, given whether each one is, and how
/// many there are (the "remaining" line of the score display).
pub fn count_remaining(killed: &Vec<bool>) -> (r: (usize, usize))
    ensures
        r.0 == remaining_of(killed@),
        r.1 == killed.len(),
{
    let mut alive: usize = 0;
    let mut k: usize = 0;
    while k < killed.len()
        invariant
            k <= killed.len(),
            alive == remaining_of(killed@.subrange(0, k as int)),
            alive <= k,
        decreases killed.len() - k,
    {
        assert(killed@.subrange(0, k as int + 1).drop_last() == killed@.subrange(0, k as int));
        if !killed[k] {
            alive = alive + 1;
        }
        k = k + 1;
    }
    assert(killed@.subrange(0, killed.len() as int) == killed@);
    (alive, killed.len())
}

} // verus!
