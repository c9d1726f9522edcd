//! Health under repeated hits.
use vstd::prelude::*;

verus! {

/// Health left after losing `damage` from `health`: never below zero.
pub open spec fn remaining(health: int, damage: int) -> int {
    if health - damage > 0 {
        health - damage
    } else {
        0
    }
}

/// Total of a sequence of damage values.
pub open spec fn total(hits: Seq<u8>) -> int
    decreases hits.len(),
{
    if hits.len() == 0 {
        0
    } else {
        total(hits.drop_last()) + hits.last()
    }
}

/// Health after taking each hit of `hits` in turn, every hit stopping at zero.
pub open spec fn after_hits(health: int, hits: Seq<u8>) -> int
    decreases hits.len(),
{
    if hits.len() == 0 {
        health
    } else {
        remaining(after_hits(health, hits.drop_last()), hits.last() as int)
    }
}

/// Taking hits one at a time, each stopping at zero, leaves the same health as
/// taking their total at once: `max(0, health - total)`. So health never drops
/// below zero, however many hits come.
pub proof fn lemma_hits_add_up(health: int, hits: Seq<u8>)
    requires
        health >= 0,
    ensures
        after_hits(health, hits) == remaining(health, total(hits)),
        after_hits(health, hits) >= 0,
    decreases hits.len(),
{
    if hits.len() > 0 {
        lemma_hits_add_up(health, hits.drop_last());
    }
}

} // verus!
