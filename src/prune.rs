//! Removing marked entries from a collection while keeping the order of the rest,
//! and carrying index references across such a removal.
use vstd::prelude::*;

verus! {

/// The entries of `s` whose mark in `keep` is set, in the order they had.
pub open spec fn kept<T>(s: Seq<T>, keep: Seq<bool>) -> Seq<T>
    decreases s.len(),
{
    if s.len() == 0 {
        Seq::empty()
    } else {
        let front = kept(s.drop_last(), keep.drop_last());
        if keep.last() {
            front.push(s.last())
        } else {
            front
        }
    }
}

/// Number of set marks.
pub open spec fn count_kept(keep: Seq<bool>) -> nat
    decreases keep.len(),
{
    if keep.len() == 0 {
        0
    } else {
        count_kept(keep.drop_last()) + if keep.last() {
            1nat
        } else {
            0nat
        }
    }
}

/// Where entry `i` lands once the unmarked entries are gone: the number of kept
/// entries before it.
pub open spec fn rank(keep: Seq<bool>, i: int) -> nat {
    count_kept(keep.take(i))
}

/// A reference to entry `i` after the removal: gone if the entry is gone or the
/// reference was already stale.
pub open spec fn moved_ref(r: Option<usize>, keep: Seq<bool>) -> Option<usize> {
    match r {
        Some(i) => if i < keep.len() && keep[i as int] {
            Some(rank(keep, i as int) as usize)
        } else {
            None
        },
        None => None,
    }
}

/// A list of indices after the removal: the indices of kept entries, moved to
/// where those entries land; the others dropped.
pub open spec fn moved_indices(list: Seq<usize>, keep: Seq<bool>) -> Seq<usize>
    decreases list.len(),
{
    if list.len() == 0 {
        Seq::empty()
    } else {
        let front = moved_indices(list.drop_last(), keep);
        match moved_ref(Some(list.last()), keep) {
            Some(j) => front.push(j),
            None => front,
        }
    }
}

pub proof fn lemma_rank_step(keep: Seq<bool>, i: int)
    requires
        0 <= i < keep.len(),
    ensures
        rank(keep, i + 1) == rank(keep, i) + if keep[i] {
            1nat
        } else {
            0nat
        },
{
    assert(keep.take(i + 1).drop_last() =~= keep.take(i));
}

pub proof fn lemma_rank_monotone(keep: Seq<bool>, i: int, j: int)
    requires
        0 <= i <= j <= keep.len(),
    ensures
        rank(keep, i) <= rank(keep, j),
        j > i && keep[i] ==> rank(keep, i) < rank(keep, j),
    decreases j - i,
{
    if j > i {
        lemma_rank_step(keep, j - 1);
        lemma_rank_monotone(keep, i, j - 1);
        if keep[i] && j - 1 == i {
            lemma_rank_step(keep, i);
        }
    }
}

pub proof fn lemma_rank_all(keep: Seq<bool>)
    ensures
        rank(keep, keep.len() as int) == count_kept(keep),
        count_kept(keep) <= keep.len(),
    decreases keep.len(),
{
    assert(keep.take(keep.len() as int) =~= keep);
    if keep.len() > 0 {
        lemma_rank_all(keep.drop_last());
    }
}

/// Whether place `r` of the pruned sequence holds a surviving entry of `s` that
/// landed there.
pub open spec fn from_survivor<T>(s: Seq<T>, keep: Seq<bool>, r: int) -> bool {
    exists|i: int| 0 <= i < s.len() && keep[i] && rank(keep, i) == r && kept(s, keep)[r] == s[i]
}

/// Pruning keeps exactly the marked entries, each once, in the order they had:
/// the entry at `i` lands at `rank(keep, i)`, later survivors land later, and
/// every place of the result holds some survivor. So which surviving entry an
/// index of the result names is fixed by the survivors' order alone, however
/// many entries were removed around them.
pub proof fn lemma_pruning_keeps_survivors<T>(s: Seq<T>, keep: Seq<bool>)
    requires
        s.len() == keep.len(),
    ensures
        kept(s, keep).len() == count_kept(keep),
        forall|i: int|
            0 <= i < s.len() && keep[i] ==> #[trigger] rank(keep, i) < kept(s, keep).len(),
        forall|i: int|
            #![trigger rank(keep, i)]
            0 <= i < s.len() && keep[i] ==> kept(s, keep)[rank(keep, i) as int] == s[i],
        forall|i: int, j: int|
            0 <= i < j < s.len() && keep[i] && keep[j] ==> #[trigger] rank(keep, i) < #[trigger] rank(
                keep,
                j,
            ),
        forall|r: int| 0 <= r < kept(s, keep).len() ==> #[trigger] from_survivor(s, keep, r),
    decreases s.len(),
{
    lemma_rank_all(keep);
    assert forall|i: int, j: int|
        0 <= i < j < s.len() && keep[i] && keep[j] implies #[trigger] rank(keep, i) < #[trigger] rank(
            keep,
            j,
        ) by {
        lemma_rank_monotone(keep, i, j);
    }
    if s.len() > 0 {
        let n = s.len() - 1;
        let s0 = s.drop_last();
        let k0 = keep.drop_last();
        lemma_pruning_keeps_survivors(s0, k0);
        lemma_rank_all(k0);
        assert(keep.last() == keep[n] && s.last() == s[n]);
        assert(kept(s, keep) == if keep[n] {
            kept(s0, k0).push(s[n])
        } else {
            kept(s0, k0)
        });
        assert(forall|i: int| 0 <= i < n ==> k0[i] == keep[i] && s0[i] == s[i]);
        assert forall|i: int| 0 <= i < n implies rank(keep, i) == rank(k0, i) by {
            assert(keep.take(i) =~= k0.take(i));
        }
        assert(rank(keep, n) == count_kept(k0)) by {
            assert(keep.take(n) =~= k0);
        }
        assert forall|i: int|
            0 <= i < s.len() && keep[i] implies #[trigger] rank(keep, i) < kept(s, keep).len()
                && kept(s, keep)[rank(keep, i) as int] == s[i] by {
            if i < n {
                assert(k0[i]);
                assert(kept(s0, k0)[rank(k0, i) as int] == s0[i]);
                assert(rank(k0, i) < kept(s0, k0).len());
                assert(kept(s, keep)[rank(keep, i) as int] == kept(s0, k0)[rank(k0, i) as int]);
            } else {
                assert(i == n);
                assert(rank(keep, i) == kept(s0, k0).len());
            }
        }
        assert forall|r: int| 0 <= r < kept(s, keep).len() implies #[trigger] from_survivor(
            s,
            keep,
            r,
        ) by {
            if r < kept(s0, k0).len() {
                assert(from_survivor(s0, k0, r));
                let i = choose|i: int|
                    0 <= i < s0.len() && k0[i] && rank(k0, i) == r && kept(s0, k0)[r] == s0[i];
                assert(keep[i] && rank(keep, i) == r && kept(s, keep)[r] == s[i]);
            } else {
                assert(keep[n] && rank(keep, n) == r && kept(s, keep)[r] == s[n]);
            }
        }
    } else {
        assert(kept(s, keep) =~= Seq::<T>::empty());
    }
}

/// Removes from `v` every entry whose mark in `keep` is clear.
pub fn prune<T>(v: &mut Vec<T>, keep: &Vec<bool>)
    requires
        old(v)@.len() == keep@.len(),
    ensures
        final(v)@ == kept(old(v)@, keep@),
{
    let ghost s = v@;
    let n = keep.len();
    let mut i: usize = 0;
    let mut w: usize = 0;
    while i < n
        invariant
            n == keep@.len() == s.len(),
            0 <= w <= i <= n,
            w == kept(s.take(i as int), keep@.take(i as int)).len(),
            v@ == kept(s.take(i as int), keep@.take(i as int)) + s.skip(i as int),
        decreases n - i,
    {
        proof {
            assert(s.take(i + 1).drop_last() =~= s.take(i as int));
            assert(keep@.take(i + 1).drop_last() =~= keep@.take(i as int));
        }
        if keep[i] {
            w = w + 1;
            proof {
                assert(v@ =~= kept(s.take(i + 1), keep@.take(i + 1)) + s.skip(i + 1));
            }
        } else {
            v.remove(w);
            proof {
                assert(v@ =~= kept(s.take(i + 1), keep@.take(i + 1)) + s.skip(i + 1));
            }
        }
        i = i + 1;
    }
    proof {
        assert(s.take(n as int) =~= s);
        assert(keep@.take(n as int) =~= keep@);
        assert(v@ =~= kept(s, keep@));
    }
}

/// `rank(keep, i)` for every `i`.
pub fn ranks(keep: &Vec<bool>) -> (r: Vec<usize>)
    ensures
        r@.len() == keep@.len(),
        forall|i: int| 0 <= i < r@.len() ==> r@[i] == rank(keep@, i),
{
    let mut r: Vec<usize> = Vec::new();
    let mut c: usize = 0;
    let mut i: usize = 0;
    while i < keep.len()
        invariant
            0 <= i <= keep@.len(),
            r@.len() == i,
            c == rank(keep@, i as int),
            c <= i,
            forall|k: int| 0 <= k < i ==> r@[k] == rank(keep@, k),
        decreases keep@.len() - i,
    {
        proof {
            lemma_rank_step(keep@, i as int);
        }
        r.push(c);
        if keep[i] {
            c = c + 1;
        }
        i = i + 1;
    }
    r
}

/// Carries one reference across the removal, given `ranks(keep)`.
pub fn move_ref(r: Option<usize>, keep: &Vec<bool>, rank_of: &Vec<usize>) -> (m: Option<usize>)
    requires
        rank_of@.len() == keep@.len(),
        forall|i: int| 0 <= i < rank_of@.len() ==> rank_of@[i] == rank(keep@, i),
    ensures
        m == moved_ref(r, keep@),
{
    match r {
        Some(i) => {
            if i < keep.len() && keep[i] {
                Some(rank_of[i])
            } else {
                None
            }
        },
        None => None,
    }
}

/// Carries a list of references across the removal, given `ranks(keep)`.
pub fn move_indices(list: &Vec<usize>, keep: &Vec<bool>, rank_of: &Vec<usize>) -> (m: Vec<usize>)
    requires
        rank_of@.len() == keep@.len(),
        forall|i: int| 0 <= i < rank_of@.len() ==> rank_of@[i] == rank(keep@, i),
    ensures
        m@ == moved_indices(list@, keep@),
{
    let mut m: Vec<usize> = Vec::new();
    let mut i: usize = 0;
    while i < list.len()
        invariant
            0 <= i <= list@.len(),
            rank_of@.len() == keep@.len(),
            forall|k: int| 0 <= k < rank_of@.len() ==> rank_of@[k] == rank(keep@, k),
            m@ == moved_indices(list@.take(i as int), keep@),
        decreases list@.len() - i,
    {
        proof {
            assert(list@.take(i + 1).drop_last() =~= list@.take(i as int));
        }
        let moved = move_ref(Some(list[i]), keep, rank_of);
        if let Some(j) = moved {
            m.push(j);
        }
        i = i + 1;
    }
    proof {
        assert(list@.take(list@.len() as int) =~= list@);
    }
    m
}

} // verus!
