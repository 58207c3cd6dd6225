use crate::account::AccountId;
use crate::proposal::Balance;
use vstd::prelude::*;

verus! {

/// The balance that the ledger `balances` holds for `id`; zero for an
/// identity without an entry.
pub open spec fn balance_of(balances: Map<AccountId, Balance>, id: AccountId) -> Balance {
    if balances.dom().contains(id) {
        balances[id]
    } else {
        0
    }
}

/// The sum of the balances of the listed `holders`.
pub open spec fn held_by(balances: Map<AccountId, Balance>, holders: Seq<AccountId>) -> nat
    decreases holders.len(),
{
    if holders.len() == 0 {
        0
    } else {
        held_by(balances, holders.drop_last()) + balance_of(balances, holders.last()) as nat
    }
}

/// The ledger at the foundation: each of `members` holds an equal share of
/// `total_supply`, rounded down.
pub open spec fn equal_split(members: Seq<AccountId>, total_supply: Balance) -> Map<
    AccountId,
    Balance,
> {
    Map::new(
        |id: AccountId| members.contains(id),
        |id: AccountId| (total_supply as int / members.len() as int) as Balance,
    )
}

/// A single holder holds its own balance.
pub proof fn lemma_held_by_one(balances: Map<AccountId, Balance>, id: AccountId)
    ensures
        held_by(balances, seq![id]) == balance_of(balances, id),
{
    let one = seq![id];
    assert(one.drop_last().len() == 0);
    assert(held_by(balances, one.drop_last()) == 0);
    assert(one.last() == id);
}

/// Distinct holders whose non-zero balances all belong to the finite set
/// `owners`, none above `cap`, hold at most `cap` for each owner.
pub proof fn lemma_held_bounded(
    balances: Map<AccountId, Balance>,
    holders: Seq<AccountId>,
    owners: Set<AccountId>,
    cap: nat,
)
    requires
        holders.no_duplicates(),
        owners.finite(),
        forall|i: int|
            0 <= i < holders.len() ==> balance_of(balances, #[trigger] holders[i]) <= cap && (
            balance_of(balances, holders[i]) > 0 ==> owners.contains(holders[i])),
    ensures
        held_by(balances, holders) <= cap * owners.len(),
    decreases holders.len(),
{
    if holders.len() == 0 {
        assert(cap * owners.len() >= 0) by (nonlinear_arith);
    } else {
        let rest = holders.drop_last();
        let last = holders.last();
        assert(balance_of(balances, holders[holders.len() - 1]) <= cap);
        assert forall|i: int| 0 <= i < rest.len() implies rest[i] == holders[i] && rest[i]
            != last by {}
        if balance_of(balances, last) > 0 {
            let fewer = owners.remove(last);
            assert forall|i: int| 0 <= i < rest.len() implies balance_of(
                balances,
                #[trigger] rest[i],
            ) <= cap && (balance_of(balances, rest[i]) > 0 ==> fewer.contains(rest[i])) by {
                assert(rest[i] == holders[i]);
            }
            lemma_held_bounded(balances, rest, fewer, cap);
            assert(owners.contains(last));
            assert(fewer.len() == owners.len() - 1);
            assert(cap * fewer.len() + cap == cap * owners.len()) by (nonlinear_arith)
                requires
                    fewer.len() == owners.len() - 1,
            ;
        } else {
            assert forall|i: int| 0 <= i < rest.len() implies balance_of(
                balances,
                #[trigger] rest[i],
            ) <= cap && (balance_of(balances, rest[i]) > 0 ==> owners.contains(rest[i])) by {
                assert(rest[i] == holders[i]);
            }
            lemma_held_bounded(balances, rest, owners, cap);
        }
    }
}

/// When one balance changes and all others stay, distinct holders hold the
/// difference more if the changed identity is among them, and the same if not.
pub proof fn lemma_held_after_change(
    before: Map<AccountId, Balance>,
    after: Map<AccountId, Balance>,
    holders: Seq<AccountId>,
    changed: AccountId,
)
    requires
        holders.no_duplicates(),
        forall|id: AccountId| id != changed ==> balance_of(after, id) == balance_of(before, id),
    ensures
        held_by(after, holders) == held_by(before, holders) + if holders.contains(changed) {
            balance_of(after, changed) - balance_of(before, changed)
        } else {
            0
        },
    decreases holders.len(),
{
    if holders.len() > 0 {
        let rest = holders.drop_last();
        let last = holders.last();
        lemma_held_after_change(before, after, rest, changed);
        assert forall|i: int| 0 <= i < rest.len() implies rest[i] == holders[i] && rest[i]
            != last by {}
        if last == changed {
            assert(holders[holders.len() - 1] == changed);
            assert(!rest.contains(changed));
        } else if rest.contains(changed) {
            let i = choose|i: int| 0 <= i < rest.len() && rest[i] == changed;
            assert(holders[i] == changed);
        } else {
            assert forall|i: int| 0 <= i < holders.len() implies holders[i] != changed by {
                if i < rest.len() {
                    assert(rest[i] == holders[i]);
                }
            }
        }
    }
}

/// At the foundation no group of distinct holders holds more than the supply.
pub proof fn lemma_equal_split_within_supply(
    members: Seq<AccountId>,
    total_supply: Balance,
    holders: Seq<AccountId>,
)
    requires
        members.len() > 0,
        holders.no_duplicates(),
    ensures
        held_by(equal_split(members, total_supply), holders) <= total_supply,
{
    let balances = equal_split(members, total_supply);
    let count = members.len() as int;
    let share = total_supply as int / count;
    assert(0 <= share <= total_supply && share * count <= total_supply) by (nonlinear_arith)
        requires
            share == total_supply as int / count,
            count > 0,
            total_supply >= 0,
    ;
    let owners = members.to_set();
    vstd::seq_lib::seq_to_set_is_finite(members);
    members.lemma_cardinality_of_set();
    assert forall|i: int| 0 <= i < holders.len() implies balance_of(
        balances,
        #[trigger] holders[i],
    ) <= share as nat && (balance_of(balances, holders[i]) > 0 ==> owners.contains(
        holders[i],
    )) by {
        if members.contains(holders[i]) {
            assert(balance_of(balances, holders[i]) == share);
        }
    }
    lemma_held_bounded(balances, holders, owners, share as nat);
    assert(share * owners.len() <= share * count) by (nonlinear_arith)
        requires
            share >= 0,
            owners.len() <= count,
    ;
}

} // verus!
