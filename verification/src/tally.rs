use vstd::prelude::*;

verus! {

/// The number of votes cast: the sum of the per-option counts.
pub open spec fn votes_total(votes: Seq<u32>) -> nat
    decreases votes.len(),
{
    if votes.len() == 0 {
        0
    } else {
        votes_total(votes.drop_last()) + votes.last() as nat
    }
}

/// The count of the best-placed option; zero when there is no option.
pub open spec fn votes_max(votes: Seq<u32>) -> nat
    decreases votes.len(),
{
    if votes.len() == 0 {
        0
    } else {
        let rest = votes_max(votes.drop_last());
        if rest >= votes.last() as nat {
            rest
        } else {
            votes.last() as nat
        }
    }
}

/// A tally in which no option has a vote sums to zero.
pub proof fn lemma_total_of_zeros(votes: Seq<u32>)
    requires
        forall|i: int| 0 <= i < votes.len() ==> votes[i] == 0,
    ensures
        votes_total(votes) == 0,
    decreases votes.len(),
{
    if votes.len() > 0 {
        lemma_total_of_zeros(votes.drop_last());
    }
}

/// Extending a prefix by one option adds that option's count.
pub proof fn lemma_total_step(votes: Seq<u32>, k: int)
    requires
        0 <= k < votes.len(),
    ensures
        votes_total(votes.take(k + 1)) == votes_total(votes.take(k)) + votes[k] as nat,
        votes_max(votes.take(k + 1)) == if votes_max(votes.take(k)) >= votes[k] as nat {
            votes_max(votes.take(k))
        } else {
            votes[k] as nat
        },
{
    assert(votes.take(k + 1).drop_last() =~= votes.take(k));
}

/// Replacing one option's count changes the tally by the difference.
pub proof fn lemma_total_update(votes: Seq<u32>, i: int, count: u32)
    requires
        0 <= i < votes.len(),
    ensures
        votes_total(votes.update(i, count)) == votes_total(votes) - votes[i] as nat + count as nat,
        votes[i] as nat <= votes_total(votes),
    decreases votes.len(),
{
    if i == votes.len() - 1 {
        assert(votes.update(i, count).drop_last() =~= votes.drop_last());
    } else {
        lemma_total_update(votes.drop_last(), i, count);
        assert(votes.update(i, count).drop_last() =~= votes.drop_last().update(i, count));
    }
}

/// Adds up the per-option counts. The sum is taken in a type wide enough for
/// a tally of any size.
pub fn count_votes(votes: &Vec<u32>) -> (total: u128)
    ensures
        total == votes_total(votes@),
{
    let mut total: u128 = 0;
    let mut i: usize = 0;
    while i < votes.len()
        invariant
            i <= votes.len(),
            total == votes_total(votes@.take(i as int)),
            total <= i * 0xffff_ffff,
        decreases votes.len() - i,
    {
        proof {
            lemma_total_step(votes@, i as int);
            assert((i + 1) * 0xffff_ffff == i * 0xffff_ffff + 0xffff_ffff) by (nonlinear_arith);
            assert(i * 0xffff_ffff <= 0xffff_ffff_ffff_ffff * 0xffff_ffff) by (nonlinear_arith)
                requires
                    i <= 0xffff_ffff_ffff_ffff,
            ;
        }
        total = total + votes[i] as u128;
        i += 1;
    }
    assert(votes@.take(i as int) =~= votes@);
    total
}

/// Finds the count of the best-placed option.
pub fn leading_count(votes: &Vec<u32>) -> (max: u32)
    ensures
        max == votes_max(votes@),
{
    let mut max: u32 = 0;
    let mut i: usize = 0;
    while i < votes.len()
        invariant
            i <= votes.len(),
            max == votes_max(votes@.take(i as int)),
        decreases votes.len() - i,
    {
        proof {
            lemma_total_step(votes@, i as int);
        }
        if votes[i] > max {
            max = votes[i];
        }
        i += 1;
    }
    assert(votes@.take(i as int) =~= votes@);
    max
}

} // verus!
