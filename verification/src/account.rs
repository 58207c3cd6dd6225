use vstd::prelude::*;
use vstd::std_specs::cmp::PartialEqSpecImpl;

verus! {

/// The identity of an account: twenty opaque bytes that are only ever compared.
#[derive(Clone, Copy, Debug)]
pub struct AccountId(pub [u8; 20]);

impl PartialEq for AccountId {
    fn eq(&self, other: &Self) -> (r: bool) {
        let mut i: usize = 0;
        while i < 20
            invariant
                i <= 20,
                forall|j: int| 0 <= j < i ==> self.0@[j] == other.0@[j],
            decreases 20 - i,
        {
            if self.0[i] != other.0[i] {
                return false;
            }
            i += 1;
        }
        assert(self.0@ =~= other.0@);
        assert(self.0 == other.0);
        true
    }
}

impl Eq for AccountId {

}

impl PartialEqSpecImpl for AccountId {
    open spec fn obeys_eq_spec() -> bool {
        true
    }

    open spec fn eq_spec(&self, other: &Self) -> bool {
        *self == *other
    }
}

/// Where `id` first stands in `list`; `None` when it is not listed.
pub open spec fn first_position(list: Seq<AccountId>, id: AccountId) -> Option<int> {
    if list.contains(id) {
        Some(
            choose|i: int|
                0 <= i < list.len() && list[i] == id && forall|j: int|
                    0 <= j < i ==> list[j] != id,
        )
    } else {
        None
    }
}

/// Any index that holds `id` with no earlier occurrence is the first position.
pub proof fn lemma_first_position(list: Seq<AccountId>, id: AccountId, i: int)
    requires
        0 <= i < list.len(),
        list[i] == id,
        forall|j: int| 0 <= j < i ==> list[j] != id,
    ensures
        first_position(list, id) == Some(i),
{
    let k = first_position(list, id)->0;
    assert(list.contains(id));
    assert(0 <= k < list.len() && list[k] == id && forall|j: int| 0 <= j < k ==> list[j] != id);
    if k < i {
        assert(list[k] != id);
    }
    if i < k {
        assert(list[i] != id);
    }
}

/// The first position of a listed identity is an index that holds it.
pub proof fn lemma_first_position_listed(list: Seq<AccountId>, id: AccountId)
    requires
        list.contains(id),
    ensures
        first_position(list, id) matches Some(i) && 0 <= i < list.len() && list[i] == id,
{
    let i = choose|i: int| 0 <= i < list.len() && list[i] == id;
    let k = choose|k: int|
        0 <= k <= i && list[k] == id && forall|j: int| 0 <= j < k ==> list[j] != id;
    lemma_least_position(list, id, i);
    lemma_first_position(list, id, k);
}

/// Below any index that holds `id` there is a least one.
proof fn lemma_least_position(list: Seq<AccountId>, id: AccountId, i: int)
    requires
        0 <= i < list.len(),
        list[i] == id,
    ensures
        exists|k: int| 0 <= k <= i && list[k] == id && forall|j: int| 0 <= j < k ==> list[j] != id,
    decreases i,
{
    if exists|j: int| 0 <= j < i && list[j] == id {
        let j = choose|j: int| 0 <= j < i && list[j] == id;
        lemma_least_position(list, id, j);
        let k = choose|k: int|
            0 <= k <= j && list[k] == id && forall|m: int| 0 <= m < k ==> list[m] != id;
        assert(0 <= k <= i && list[k] == id && forall|m: int| 0 <= m < k ==> list[m] != id);
    } else {
        assert(0 <= i <= i && list[i] == id && forall|m: int| 0 <= m < i ==> list[m] != id);
    }
}

/// Looks `id` up in `list` and reports the index of its first occurrence.
pub fn find_account(list: &Vec<AccountId>, id: &AccountId) -> (found: Option<usize>)
    ensures
        found matches Some(i) ==> i < list.len() && list@[i as int] == *id && first_position(
            list@,
            *id,
        ) == Some(i as int),
        found is None ==> first_position(list@, *id) is None,
        found is Some <==> list@.contains(*id),
{
    let mut i: usize = 0;
    while i < list.len()
        invariant
            i <= list.len(),
            forall|j: int| 0 <= j < i ==> list@[j] != *id,
        decreases list.len() - i,
    {
        if list[i] == *id {
            proof {
                lemma_first_position(list@, *id, i as int);
            }
            return Some(i);
        }
        i += 1;
    }
    None
}

/// A list without repetitions whose entries all occur in `within` is no
/// longer than `within`.
pub proof fn lemma_distinct_within(distinct: Seq<AccountId>, within: Seq<AccountId>)
    requires
        distinct.no_duplicates(),
        forall|i: int| 0 <= i < distinct.len() ==> within.contains(#[trigger] distinct[i]),
    ensures
        distinct.len() <= within.len(),
{
    distinct.unique_seq_to_set();
    within.lemma_cardinality_of_set();
    vstd::seq_lib::seq_to_set_is_finite(within);
    assert forall|id: AccountId| distinct.to_set().contains(id) implies within.to_set().contains(
        id,
    ) by {
        let i = choose|i: int| 0 <= i < distinct.len() && distinct[i] == id;
        assert(within.contains(distinct[i]));
    }
    vstd::set_lib::lemma_len_subset(distinct.to_set(), within.to_set());
}

/// Whether no identity stands twice in `list`.
pub fn all_distinct(list: &Vec<AccountId>) -> (distinct: bool)
    ensures
        distinct == list@.no_duplicates(),
{
    let mut i: usize = 0;
    while i < list.len()
        invariant
            i <= list.len(),
            forall|a: int, b: int| 0 <= a < b < i ==> list@[a] != list@[b],
        decreases list.len() - i,
    {
        let mut k: usize = 0;
        while k < i
            invariant
                k <= i < list.len(),
                forall|a: int| 0 <= a < k ==> list@[a] != list@[i as int],
            decreases i - k,
        {
            if list[k] == list[i] {
                return false;
            }
            k += 1;
        }
        i += 1;
    }
    true
}

} // verus!
