//! Resolution of an invoice's requested fungible amount against owned,
//! contract-recognized prior outputs.
//!
//! The fungible state visible under the combined ownership-and-assignment
//! filter is grouped by owning outpoint (seal) and summed per seal; seals are
//! then chosen greedily, largest sum first, while the running total before
//! inclusion is still below the requested amount. If the whole state does not
//! cover the request, selection fails and nothing is chosen.

use vstd::prelude::*;

use crate::compose::CompositionError;
use crate::Outpoint;

verus! {

/// One fungible state item: an amount owned at a seal.
#[derive(Clone, Copy, PartialEq, Eq, Structural, Debug)]
pub struct FungibleAllocation {
    pub seal: Outpoint,
    pub amount: u64,
}

/// A seal together with the sum of all amounts owned at it.
#[derive(Clone, Copy, PartialEq, Eq, Structural, Debug)]
pub struct SealSum {
    pub seal: Outpoint,
    pub sum: u64,
}

/// Sum of all amounts of a state listing.
pub open spec fn total_amount(items: Seq<FungibleAllocation>) -> int
    decreases items.len(),
{
    if items.len() == 0 {
        0
    } else {
        total_amount(items.drop_last()) + items.last().amount
    }
}

/// Sum of the amounts owned at one seal.
pub open spec fn seal_sum(items: Seq<FungibleAllocation>, seal: Outpoint) -> int
    decreases items.len(),
{
    if items.len() == 0 {
        0
    } else {
        seal_sum(items.drop_last(), seal) + if items.last().seal == seal {
            items.last().amount as int
        } else {
            0
        }
    }
}

/// Sum of the per-seal sums of a grouped listing.
pub open spec fn sum_of_sums(groups: Seq<SealSum>) -> int
    decreases groups.len(),
{
    if groups.len() == 0 {
        0
    } else {
        sum_of_sums(groups.drop_last()) + groups.last().sum
    }
}

/// Sum of the per-seal sums of a listing over a sequence of seals.
pub open spec fn sum_over_seals(items: Seq<FungibleAllocation>, seals: Seq<Outpoint>) -> int
    decreases seals.len(),
{
    if seals.len() == 0 {
        0
    } else {
        sum_over_seals(items, seals.drop_last()) + seal_sum(items, seals.last())
    }
}

/// No two groups share a seal.
pub open spec fn seals_unique(groups: Seq<SealSum>) -> bool {
    forall|i: int, j: int| 0 <= i < j < groups.len() ==> groups[i].seal != groups[j].seal
}

/// No seal occurs twice.
pub open spec fn outpoints_unique(seals: Seq<Outpoint>) -> bool {
    forall|i: int, j: int| 0 <= i < j < seals.len() ==> seals[i] != seals[j]
}

pub proof fn lemma_seal_sum_bounds(items: Seq<FungibleAllocation>, seal: Outpoint)
    ensures
        0 <= seal_sum(items, seal) <= total_amount(items),
    decreases items.len(),
{
    if items.len() > 0 {
        lemma_seal_sum_bounds(items.drop_last(), seal);
    }
}

pub proof fn lemma_total_amount_prefix(items: Seq<FungibleAllocation>, n: int)
    requires
        0 <= n <= items.len(),
    ensures
        total_amount(items.subrange(0, n)) <= total_amount(items),
    decreases items.len() - n,
{
    if n == items.len() {
        assert(items.subrange(0, n) =~= items);
    } else {
        lemma_total_amount_prefix(items, n + 1);
        assert(items.subrange(0, n + 1).drop_last() =~= items.subrange(0, n));
        assert(total_amount(items.subrange(0, n + 1)) == total_amount(items.subrange(0, n))
            + items[n].amount);
    }
}

/// One more item changes one seal's sum and no other.
pub proof fn lemma_seal_sum_step(items: Seq<FungibleAllocation>, n: int, seal: Outpoint)
    requires
        0 <= n < items.len(),
    ensures
        seal_sum(items.subrange(0, n + 1), seal) == seal_sum(items.subrange(0, n), seal) + if items[
            n
        ].seal == seal {
            items[n].amount as int
        } else {
            0
        },
{
    assert(items.subrange(0, n + 1).drop_last() =~= items.subrange(0, n));
}

pub proof fn lemma_seal_sum_absent(items: Seq<FungibleAllocation>, seal: Outpoint)
    requires
        forall|k: int| 0 <= k < items.len() ==> (#[trigger] items[k]).seal != seal,
    ensures
        seal_sum(items, seal) == 0,
    decreases items.len(),
{
    if items.len() > 0 {
        assert(forall|k: int|
            0 <= k < items.drop_last().len() ==> (#[trigger] items.drop_last()[k]).seal != seal);
        lemma_seal_sum_absent(items.drop_last(), seal);
    }
}

pub proof fn lemma_sum_of_sums_nonneg(groups: Seq<SealSum>)
    ensures
        sum_of_sums(groups) >= 0,
    decreases groups.len(),
{
    if groups.len() > 0 {
        lemma_sum_of_sums_nonneg(groups.drop_last());
    }
}

pub proof fn lemma_sum_of_sums_update(groups: Seq<SealSum>, j: int, g: SealSum)
    requires
        0 <= j < groups.len(),
    ensures
        sum_of_sums(groups.update(j, g)) == sum_of_sums(groups) - groups[j].sum + g.sum,
    decreases groups.len(),
{
    let t = groups.update(j, g);
    if j == groups.len() - 1 {
        assert(t.drop_last() =~= groups.drop_last());
    } else {
        assert(t.drop_last() =~= groups.drop_last().update(j, g));
        assert(t.last() == groups.last());
        lemma_sum_of_sums_update(groups.drop_last(), j, g);
    }
}

pub proof fn lemma_element_le_sum(groups: Seq<SealSum>, j: int)
    requires
        0 <= j < groups.len(),
    ensures
        groups[j].sum <= sum_of_sums(groups),
    decreases groups.len(),
{
    lemma_sum_of_sums_nonneg(groups.drop_last());
    if j < groups.len() - 1 {
        lemma_element_le_sum(groups.drop_last(), j);
    }
}

/// Total of all amounts of a listing, or nothing when it exceeds the amount
/// type's range.
pub fn total_amount_checked(items: &Vec<FungibleAllocation>) -> (r: Option<u64>)
    ensures
        match r {
            Some(t) => t == total_amount(items@),
            None => total_amount(items@) > u64::MAX,
        },
{
    let mut total: u64 = 0;
    let mut i: usize = 0;
    while i < items.len()
        invariant
            i <= items@.len(),
            total == total_amount(items@.subrange(0, i as int)),
        decreases items@.len() - i,
    {
        proof {
            assert(items@.subrange(0, i as int + 1).drop_last() =~= items@.subrange(0, i as int));
        }
        match total.checked_add(items[i].amount) {
            Some(t) => {
                total = t;
            },
            None => {
                proof {
                    lemma_total_amount_prefix(items@, i as int + 1);
                }
                return None;
            },
        }
        i = i + 1;
    }
    proof {
        assert(items@.subrange(0, items@.len() as int) =~= items@);
    }
    Some(total)
}

/// Whether a sequence of outpoints holds the given one.
pub fn contains_outpoint(seals: &Vec<Outpoint>, outpoint: Outpoint) -> (r: bool)
    ensures
        r == seals@.contains(outpoint),
{
    let mut i: usize = 0;
    while i < seals.len()
        invariant
            i <= seals@.len(),
            forall|j: int| 0 <= j < i ==> seals@[j] != outpoint,
        decreases seals@.len() - i,
    {
        if seals[i] == outpoint {
            return true;
        }
        i = i + 1;
    }
    false
}

/// The combined filter deciding which outpoints selection may draw from: an
/// outpoint passes when the wallet owns it and the contract recognizes at
/// least one state assignment on it. The two predicates are independent and
/// combined conjunctively.
pub struct ContractOutpointsFilter {
    /// Outpoints owned by the wallet.
    pub wallet_outpoints: Vec<Outpoint>,
    /// Outpoints carrying at least one recognized state assignment for the
    /// target contract.
    pub assigned_outpoints: Vec<Outpoint>,
}

impl ContractOutpointsFilter {
    pub open spec fn spec_include(self, outpoint: Outpoint) -> bool {
        self.wallet_outpoints@.contains(outpoint) && self.assigned_outpoints@.contains(outpoint)
    }

    /// Whether the outpoint passes both predicates.
    pub fn include_outpoint(&self, outpoint: Outpoint) -> (r: bool)
        ensures
            r == self.spec_include(outpoint),
    {
        contains_outpoint(&self.wallet_outpoints, outpoint) && contains_outpoint(
            &self.assigned_outpoints,
            outpoint,
        )
    }
}

/// Some item among the first `n` owns state at the seal.
pub open spec fn seal_in_prefix(items: Seq<FungibleAllocation>, n: int, seal: Outpoint) -> bool {
    exists|k: int| 0 <= k < n && k < items.len() && (#[trigger] items[k]).seal == seal
}

/// Some group carries the seal.
pub open spec fn groups_have_seal(groups: Seq<SealSum>, seal: Outpoint) -> bool {
    exists|j: int| 0 <= j < groups.len() && (#[trigger] groups[j]).seal == seal
}

/// Index of the group carrying the seal, if any.
fn find_group(groups: &Vec<SealSum>, seal: Outpoint) -> (r: Option<usize>)
    ensures
        match r {
            Some(j) => j < groups@.len() && groups@[j as int].seal == seal,
            None => forall|x: int| 0 <= x < groups@.len() ==> (#[trigger] groups@[x]).seal != seal,
        },
{
    let mut j: usize = 0;
    while j < groups.len()
        invariant
            j <= groups@.len(),
            forall|x: int| 0 <= x < j ==> (#[trigger] groups@[x]).seal != seal,
        decreases groups@.len() - j,
    {
        if groups[j].seal == seal {
            return Some(j);
        }
        j = j + 1;
    }
    None
}

/// Groups a state listing by seal, summing the amounts owned at each seal.
/// The result holds each seal of the listing exactly once.
pub fn group_by_seal(items: &Vec<FungibleAllocation>) -> (groups: Vec<SealSum>)
    requires
        total_amount(items@) <= u64::MAX,
    ensures
        seals_unique(groups@),
        forall|j: int|
            0 <= j < groups@.len() ==> (#[trigger] groups@[j]).sum == seal_sum(
                items@,
                groups@[j].seal,
            ),
        forall|j: int|
            0 <= j < groups@.len() ==> seal_in_prefix(
                items@,
                items@.len() as int,
                (#[trigger] groups@[j]).seal,
            ),
        forall|k: int|
            0 <= k < items@.len() ==> groups_have_seal(groups@, (#[trigger] items@[k]).seal),
        sum_of_sums(groups@) == total_amount(items@),
{
    let mut groups: Vec<SealSum> = Vec::new();
    let mut i: usize = 0;
    while i < items.len()
        invariant
            total_amount(items@) <= u64::MAX,
            i <= items@.len(),
            seals_unique(groups@),
            forall|j: int|
                0 <= j < groups@.len() ==> (#[trigger] groups@[j]).sum == seal_sum(
                    items@.subrange(0, i as int),
                    groups@[j].seal,
                ),
            forall|j: int|
                0 <= j < groups@.len() ==> seal_in_prefix(
                    items@,
                    i as int,
                    (#[trigger] groups@[j]).seal,
                ),
            forall|k: int|
                0 <= k < i ==> groups_have_seal(groups@, (#[trigger] items@[k]).seal),
            sum_of_sums(groups@) == total_amount(items@.subrange(0, i as int)),
        decreases items@.len() - i,
    {
        let ghost prefix = items@.subrange(0, i as int);
        let ghost prefix1 = items@.subrange(0, i as int + 1);
        let ghost pre_groups = groups@;
        proof {
            assert(prefix1.drop_last() =~= prefix);
            lemma_total_amount_prefix(items@, i as int + 1);
        }
        let item = items[i];
        match find_group(&groups, item.seal) {
            Some(j) => {
                let g = groups[j];
                proof {
                    lemma_element_le_sum(groups@, j as int);
                    lemma_sum_of_sums_nonneg(groups@);
                    lemma_seal_sum_step(items@, i as int, g.seal);
                    lemma_seal_sum_bounds(prefix1, g.seal);
                    lemma_sum_of_sums_update(
                        groups@,
                        j as int,
                        (SealSum { seal: g.seal, sum: (g.sum + item.amount) as u64 }),
                    );
                }
                groups.set(j, SealSum { seal: g.seal, sum: g.sum + item.amount });
                proof {
                    assert(forall|x: int|
                        0 <= x < groups@.len() ==> (#[trigger] groups@[x]).seal
                            == pre_groups[x].seal);
                    assert forall|x: int|
                        0 <= x < groups@.len() implies (#[trigger] groups@[x]).sum == seal_sum(
                        prefix1,
                        groups@[x].seal,
                    ) by {
                        lemma_seal_sum_step(items@, i as int, pre_groups[x].seal);
                    }
                    assert forall|k: int| 0 <= k < i + 1 implies groups_have_seal(
                        groups@,
                        (#[trigger] items@[k]).seal,
                    ) by {
                        if k == i as int {
                            assert(groups@[j as int].seal == items@[k].seal);
                        } else {
                            let jj = choose|jj: int|
                                0 <= jj < pre_groups.len() && (#[trigger] pre_groups[jj]).seal
                                    == items@[k].seal;
                            assert(groups@[jj].seal == items@[k].seal);
                        }
                    }
                }
            },
            None => {
                proof {
                    assert forall|k: int| 0 <= k < prefix.len() implies (#[trigger] prefix[k]).seal
                        != item.seal by {
                        assert(prefix[k] == items@[k]);
                        let jj = choose|jj: int|
                            0 <= jj < pre_groups.len() && (#[trigger] pre_groups[jj]).seal
                                == items@[k].seal;
                    }
                    lemma_seal_sum_absent(prefix, item.seal);
                    lemma_seal_sum_step(items@, i as int, item.seal);
                }
                groups.push(SealSum { seal: item.seal, sum: item.amount });
                proof {
                    assert(groups@.drop_last() =~= pre_groups);
                    assert(forall|x: int|
                        0 <= x < pre_groups.len() ==> (#[trigger] groups@[x]) == pre_groups[x]);
                    assert forall|x: int|
                        0 <= x < groups@.len() implies (#[trigger] groups@[x]).sum == seal_sum(
                        prefix1,
                        groups@[x].seal,
                    ) by {
                        lemma_seal_sum_step(items@, i as int, pre_groups[x].seal);
                        if x < pre_groups.len() {
                            assert(groups@[x].seal != item.seal);
                        }
                    }
                    assert forall|k: int| 0 <= k < i + 1 implies groups_have_seal(
                        groups@,
                        (#[trigger] items@[k]).seal,
                    ) by {
                        if k == i as int {
                            assert(groups@[groups@.len() - 1].seal == items@[k].seal);
                        } else {
                            let jj = choose|jj: int|
                                0 <= jj < pre_groups.len() && (#[trigger] pre_groups[jj]).seal
                                    == items@[k].seal;
                            assert(groups@[jj].seal == items@[k].seal);
                        }
                    }
                }
            },
        }
        i = i + 1;
    }
    proof {
        assert(items@.subrange(0, items@.len() as int) =~= items@);
    }
    groups
}

/// Greedy selection: chooses seals largest sum first while the running total
/// before inclusion is below the requested amount. Succeeds exactly when the
/// listing's total covers the request; on success the chosen seals are
/// distinct, their sums are listed in descending order, they total at least
/// the request, and every chosen seal except the last was needed: without the
/// last one the total falls short.
pub fn select_seals(items: &Vec<FungibleAllocation>, amount: u64) -> (r: Result<
    Vec<Outpoint>,
    CompositionError,
>)
    requires
        total_amount(items@) <= u64::MAX,
    ensures
        r is Ok <==> total_amount(items@) >= amount,
        r is Err ==> r == Err::<Vec<Outpoint>, CompositionError>(
            CompositionError::InsufficientState,
        ),
        r matches Ok(sel) ==> {
            &&& outpoints_unique(sel@)
            &&& forall|j: int| #![trigger sel@[j]]
                0 <= j < sel@.len() ==> exists|k: int|
                    0 <= k < items@.len() && (#[trigger] items@[k]).seal == sel@[j]
            &&& sum_over_seals(items@, sel@) >= amount
            &&& sel@.len() > 0 ==> sum_over_seals(items@, sel@.drop_last()) < amount
            &&& forall|p: int, q: int|
                0 <= p < q < sel@.len() ==> seal_sum(items@, sel@[p]) >= seal_sum(items@, sel@[q])
        },
{
    let mut groups = group_by_seal(items);
    let mut selected: Vec<Outpoint> = Vec::new();
    let mut running: u64 = 0;
    proof {
        lemma_sum_of_sums_nonneg(groups@);
    }
    while running < amount && groups.len() > 0
        invariant
            total_amount(items@) <= u64::MAX,
            seals_unique(groups@),
            outpoints_unique(selected@),
            forall|j: int|
                0 <= j < groups@.len() ==> (#[trigger] groups@[j]).sum == seal_sum(
                    items@,
                    groups@[j].seal,
                ),
            forall|j: int| #![trigger groups@[j]]
                0 <= j < groups@.len() ==> exists|k: int|
                    0 <= k < items@.len() && (#[trigger] items@[k]).seal == groups@[j].seal,
            forall|j: int| #![trigger selected@[j]]
                0 <= j < selected@.len() ==> exists|k: int|
                    0 <= k < items@.len() && (#[trigger] items@[k]).seal == selected@[j],
            forall|p: int, j: int|
                #![trigger selected@[p], groups@[j]]
                0 <= p < selected@.len() && 0 <= j < groups@.len() ==> seal_sum(
                    items@,
                    selected@[p],
                ) >= groups@[j].sum && selected@[p] != groups@[j].seal,
            forall|p: int, q: int|
                0 <= p < q < selected@.len() ==> seal_sum(items@, selected@[p]) >= seal_sum(
                    items@,
                    selected@[q],
                ),
            running == sum_over_seals(items@, selected@),
            selected@.len() > 0 ==> sum_over_seals(items@, selected@.drop_last()) < amount,
            selected@.len() == 0 ==> running == 0,
            sum_of_sums(groups@) + running == total_amount(items@),
        decreases groups@.len(),
    {
        // Find the group with the largest sum.
        let mut best: usize = 0;
        let mut k: usize = 1;
        while k < groups.len()
            invariant
                groups@.len() > 0,
                best < k <= groups@.len(),
                forall|j: int| 0 <= j < k ==> (#[trigger] groups@[j]).sum <= groups@[best as int].sum,
            decreases groups@.len() - k,
        {
            if groups[k].sum > groups[best].sum {
                best = k;
            }
            k = k + 1;
        }
        let g = groups[best];
        proof {
            lemma_element_le_sum(groups@, best as int);
            lemma_sum_of_sums_nonneg(groups@);
            lemma_sum_of_sums_update(groups@, best as int, groups@.last());
            assert(selected@.push(g.seal).drop_last() =~= selected@);
        }
        let ghost old_groups = groups@;
        let ghost old_selected = selected@;
        selected.push(g.seal);
        running = running + g.sum;
        groups.swap_remove(best);
        proof {
            assert(forall|j: int|
                0 <= j < groups@.len() ==> groups@[j] == (if j == best as int {
                    old_groups.last()
                } else {
                    old_groups[j]
                }));
            assert(forall|p: int|
                0 <= p < old_selected.len() ==> selected@[p] == old_selected[p]);
            assert(selected@.last() == g.seal);
            assert(sum_of_sums(old_groups.update(best as int, old_groups.last()))
                == sum_of_sums(old_groups) - old_groups[best as int].sum + old_groups.last().sum);
        }
    }
    proof {
        lemma_sum_of_sums_nonneg(groups@);
    }
    if running >= amount {
        Ok(selected)
    } else {
        Err(CompositionError::InsufficientState)
    }
}

} // verus!
