//! Changing the share of scouts in a colony.
//!
//! The counting and converting works on the type codes of the ants, one `u32`
//! per ant in the order of the ant buffer: `0` for a forager, `1` for a scout.
//! [`adjust_ant_scouts`] applies it to whole ant records and keeps every
//! ant's position, direction and food flag.

use vstd::prelude::*;
use rand::seq::SliceRandom;

use crate::ant::{Ant, FORAGER_CODE, SCOUT_CODE};

verus! {

broadcast use vstd::seq_lib::group_to_multiset_ensures;

/// Number of ants whose type code is `code`.
pub open spec fn count_code(types: Seq<u32>, code: u32) -> nat {
    types.to_multiset().count(code)
}

/// Number of scouts.
pub open spec fn scout_count(types: Seq<u32>) -> nat {
    count_code(types, SCOUT_CODE)
}

/// Number of foragers.
pub open spec fn forager_count(types: Seq<u32>) -> nat {
    count_code(types, FORAGER_CODE)
}

/// Whether the ant at index `i` is among the first `n` entries of `order`.
pub open spec fn in_prefix(order: Seq<usize>, n: int, i: int) -> bool {
    exists|k: int| 0 <= k < n && #[trigger] order[k] == i
}

/// The smaller of two naturals.
pub open spec fn min_nat(a: nat, b: nat) -> nat {
    if a < b {
        a
    } else {
        b
    }
}

/// `after` arises from `before` by turning some ants of type `from` into
/// ants of type `to`: every other ant keeps its type.
pub open spec fn only_converts(before: Seq<u32>, after: Seq<u32>, from: u32, to: u32) -> bool {
    &&& after.len() == before.len()
    &&& forall|i: int| 0 <= i < before.len() && before[i] != from ==> #[trigger] after[i] == before[i]
    &&& forall|i: int| 0 <= i < before.len() && before[i] == from ==> #[trigger] after[i] == from || after[i] == to
}

/// The possible outcomes of asking for `target` scouts in the population
/// `before`. An empty population, or one that already has `target` scouts, is
/// left alone. With too few scouts, foragers become scouts until there are
/// `target` scouts or no foragers are left. With too many, scouts become
/// foragers until `target` scouts remain. Which ants are converted is left open.
pub open spec fn adjusted(before: Seq<u32>, target: nat, after: Seq<u32>) -> bool {
    let current = scout_count(before);
    if before.len() == 0 || target == current {
        after == before
    } else if target > current {
        let converted = min_nat((target - current) as nat, forager_count(before));
        &&& only_converts(before, after, FORAGER_CODE, SCOUT_CODE)
        &&& scout_count(after) == current + converted
        &&& forager_count(after) == forager_count(before) - converted
    } else {
        let converted = (current - target) as nat;
        &&& only_converts(before, after, SCOUT_CODE, FORAGER_CODE)
        &&& scout_count(after) == target
        &&& forager_count(after) == forager_count(before) + converted
    }
}

/// Counts the ants whose type code is `code`.
pub fn count_type(types: &Vec<u32>, code: u32) -> (n: usize)
    ensures
        n == count_code(types@, code),
{
    let mut n: usize = 0;
    let mut i: usize = 0;
    while i < types.len()
        invariant
            i <= types.len(),
            n == count_code(types@.take(i as int), code),
            n <= i,
        decreases types.len() - i,
    {
        assert(types@.take(i + 1) =~= types@.take(i as int).push(types@[i as int]));
        if types[i] == code {
            n = n + 1;
        }
        i = i + 1;
    }
    assert(types@.take(i as int) =~= types@);
    n
}

/// Indices, in increasing order, of the ants whose type code is `code`.
pub fn indices_of_type(types: &Vec<u32>, code: u32) -> (indices: Vec<usize>)
    ensures
        indices@.len() == count_code(types@, code),
        indices@.no_duplicates(),
        forall|k: int| 0 <= k < indices@.len() ==> #[trigger] indices@[k] < types@.len(),
        forall|k: int| 0 <= k < indices@.len() ==> types@[#[trigger] indices@[k] as int] == code,
        forall|k1: int, k2: int|
            0 <= k1 < k2 < indices@.len() ==> #[trigger] indices@[k1] < #[trigger] indices@[k2],
{
    let mut indices: Vec<usize> = Vec::new();
    let mut i: usize = 0;
    while i < types.len()
        invariant
            i <= types.len(),
            indices@.len() == count_code(types@.take(i as int), code),
            forall|k: int| 0 <= k < indices@.len() ==> #[trigger] indices@[k] < i,
            forall|k: int| 0 <= k < indices@.len() ==> types@[#[trigger] indices@[k] as int] == code,
            forall|k1: int, k2: int|
                0 <= k1 < k2 < indices@.len() ==> #[trigger] indices@[k1] < #[trigger] indices@[k2],
        decreases types.len() - i,
    {
        assert(types@.take(i + 1) =~= types@.take(i as int).push(types@[i as int]));
        if types[i] == code {
            indices.push(i);
        }
        i = i + 1;
    }
    assert(types@.take(i as int) =~= types@);
    indices
}

/// Puts the indices in a random order.
///
/// Calls `rand::seq::SliceRandom::shuffle` with the thread-local generator
/// returned by `rand::rng()`. The contract claims only that the result is a
/// permutation of the input (the crate's shuffle swaps elements in place);
/// which permutation comes out depends on the generator. `rand::rng()` panics
/// if the operating system cannot seed the generator, which no argument of
/// this function can prevent.
#[verifier::external_body]
fn shuffle_indices(indices: &mut Vec<usize>)
    ensures
        final(indices)@.to_multiset() == old(indices)@.to_multiset(),
{
    indices.shuffle(&mut rand::rng());
}

/// Turns the ants at `order[0]`, `order[1]`, ... from type `from` into type
/// `to`, stopping after `amount` ants or at the end of `order`.
pub fn convert_types(types: &mut Vec<u32>, order: &Vec<usize>, from: u32, to: u32, amount: usize)
    requires
        from != to,
        order@.no_duplicates(),
        forall|k: int| 0 <= k < order@.len() ==> #[trigger] order@[k] < old(types)@.len(),
        forall|k: int| 0 <= k < order@.len() ==> old(types)@[#[trigger] order@[k] as int] == from,
    ensures
        ({
            let n = min_nat(amount as nat, order@.len());
            &&& final(types)@.len() == old(types)@.len()
            &&& forall|i: int|
                0 <= i < old(types)@.len() ==> #[trigger] final(types)@[i] == if in_prefix(
                    order@,
                    n as int,
                    i,
                ) {
                    to
                } else {
                    old(types)@[i]
                }
            &&& count_code(final(types)@, to) == count_code(old(types)@, to) + n
            &&& count_code(final(types)@, from) == count_code(old(types)@, from) - n
        }),
{
    let ghost before = types@;
    let n: usize = if amount < order.len() {
        amount
    } else {
        order.len()
    };
    let mut j: usize = 0;
    while j < n
        invariant
            from != to,
            n <= order@.len(),
            j <= n,
            order@.no_duplicates(),
            forall|k: int| 0 <= k < order@.len() ==> #[trigger] order@[k] < before.len(),
            forall|k: int| 0 <= k < order@.len() ==> before[#[trigger] order@[k] as int] == from,
            types@.len() == before.len(),
            forall|i: int|
                0 <= i < before.len() ==> #[trigger] types@[i] == if in_prefix(order@, j as int, i) {
                    to
                } else {
                    before[i]
                },
            count_code(types@, to) == count_code(before, to) + j,
            count_code(types@, from) == count_code(before, from) - j,
        decreases n - j,
    {
        let idx = order[j];
        proof {
            // `idx` has not been converted yet: the indices in `order` are distinct.
            if in_prefix(order@, j as int, idx as int) {
                let k = choose|k: int| 0 <= k < j && #[trigger] order@[k] == idx as int;
                assert(order@[k] == order@[j as int]);
            }
            assert(types@[idx as int] == from);
            lemma_count_after_update(types@, idx as int, to, from, to);
        }
        types.set(idx, to);
        proof {
            assert forall|i: int| 0 <= i < before.len() implies #[trigger] types@[i] == if in_prefix(
                order@,
                j + 1,
                i,
            ) {
                to
            } else {
                before[i]
            } by {
                if i == idx as int {
                    assert(order@[j as int] == i);
                } else if in_prefix(order@, j + 1, i) {
                    let k = choose|k: int| 0 <= k < j + 1 && #[trigger] order@[k] == i;
                    assert(k != j);
                }
            }
        }
        j = j + 1;
    }
}

/// Writing `value` at `i` changes the number of occurrences of `code` by the
/// value written and the value overwritten.
proof fn lemma_count_after_update(s: Seq<u32>, i: int, value: u32, from: u32, to: u32)
    requires
        0 <= i < s.len(),
        s[i] == from,
        value == to,
        from != to,
    ensures
        count_code(s.update(i, value), to) == count_code(s, to) + 1,
        count_code(s.update(i, value), from) == count_code(s, from) - 1,
{
    let removed = s.remove(i);
    assert(s.update(i, value) =~= removed.insert(i, value));
    vstd::seq_lib::to_multiset_remove(s, i);
    vstd::seq_lib::to_multiset_insert(removed, i, value);
    assert(s.to_multiset().count(from) > 0);
}

/// A shuffled list of the indices of the ants of type `code` still holds
/// distinct indices of such ants, and as many as before.
proof fn lemma_shuffled_indices(types: Seq<u32>, code: u32, original: Seq<usize>, shuffled: Seq<usize>)
    requires
        original.no_duplicates(),
        forall|k: int| 0 <= k < original.len() ==> #[trigger] original[k] < types.len(),
        forall|k: int| 0 <= k < original.len() ==> types[#[trigger] original[k] as int] == code,
        shuffled.to_multiset() == original.to_multiset(),
    ensures
        shuffled.len() == original.len(),
        shuffled.no_duplicates(),
        forall|k: int| 0 <= k < shuffled.len() ==> #[trigger] shuffled[k] < types.len(),
        forall|k: int| 0 <= k < shuffled.len() ==> types[#[trigger] shuffled[k] as int] == code,
{
    shuffled.to_multiset_ensures();
    original.to_multiset_ensures();
    original.lemma_multiset_has_no_duplicates();
    shuffled.lemma_multiset_has_no_duplicates_conv();
    assert forall|k: int| 0 <= k < shuffled.len() implies #[trigger] shuffled[k] < types.len() && types[shuffled[k] as int]
        == code by {
        assert(shuffled.contains(shuffled[k]));
        assert(shuffled.to_multiset().count(shuffled[k]) > 0);
        assert(original.to_multiset().count(shuffled[k]) > 0);
        assert(original.contains(shuffled[k]));
    }
}

/// Converts ants between foragers and scouts until there are `target` scouts,
/// as far as the population allows (see [`adjusted`]). The ants to convert
/// are picked at random.
pub fn adjust_scout_count(types: &mut Vec<u32>, target: usize)
    ensures
        adjusted(old(types)@, target as nat, final(types)@),
{
    let total = types.len();
    if total == 0 {
        return;
    }
    let current = count_type(types, SCOUT_CODE);
    if target == current {
        return;
    }
    let ghost before = types@;
    let mut forager_indices = indices_of_type(types, FORAGER_CODE);
    let mut scout_indices = indices_of_type(types, SCOUT_CODE);
    let ghost forager_sorted = forager_indices@;
    let ghost scout_sorted = scout_indices@;
    shuffle_indices(&mut forager_indices);
    shuffle_indices(&mut scout_indices);
    proof {
        lemma_shuffled_indices(before, FORAGER_CODE, forager_sorted, forager_indices@);
        lemma_shuffled_indices(before, SCOUT_CODE, scout_sorted, scout_indices@);
    }
    if target > current {
        convert_types(types, &forager_indices, FORAGER_CODE, SCOUT_CODE, target - current);
        proof {
            lemma_prefix_converts(before, types@, forager_indices@, FORAGER_CODE, SCOUT_CODE,
                min_nat((target - current) as nat, forager_indices@.len()));
        }
    } else {
        convert_types(types, &scout_indices, SCOUT_CODE, FORAGER_CODE, current - target);
        proof {
            lemma_prefix_converts(before, types@, scout_indices@, SCOUT_CODE, FORAGER_CODE,
                min_nat((current - target) as nat, scout_indices@.len()));
        }
    }
}

/// Converting the ants at a prefix of a list of ants of type `from` only
/// turns ants of type `from` into ants of type `to`.
proof fn lemma_prefix_converts(before: Seq<u32>, after: Seq<u32>, order: Seq<usize>, from: u32, to: u32, n: nat)
    requires
        n <= order.len(),
        forall|k: int| 0 <= k < order.len() ==> before[#[trigger] order[k] as int] == from,
        after.len() == before.len(),
        forall|i: int|
            0 <= i < before.len() ==> #[trigger] after[i] == if in_prefix(order, n as int, i) {
                to
            } else {
                before[i]
            },
    ensures
        only_converts(before, after, from, to),
{
    assert forall|i: int| 0 <= i < before.len() && before[i] != from implies #[trigger] after[i] == before[i] by {
        if in_prefix(order, n as int, i) {
            let k = choose|k: int| 0 <= k < n && #[trigger] order[k] == i;
            assert(before[order[k] as int] == from);
        }
    }
}

/// The type codes of a list of ants, in order.
pub open spec fn type_codes(ants: Seq<Ant>) -> Seq<u32> {
    ants.map_values(|a: Ant| a.ant_type)
}

/// `after` holds the same ants as `before`, at the same places, with the
/// same position, direction and food flag; only their types may differ.
pub open spec fn same_ants_but_types(before: Seq<Ant>, after: Seq<Ant>) -> bool {
    &&& after.len() == before.len()
    &&& forall|i: int|
        0 <= i < before.len() ==> {
            &&& #[trigger] after[i].position == before[i].position
            &&& after[i].direction == before[i].direction
            &&& after[i].carries_food == before[i].carries_food
        }
}

/// Adjusts the number of scouts among `ants` towards `target` by converting
/// ants from one type to another, as [`adjust_scout_count`] does. Keeps the
/// position, direction and food flag of every ant intact.
pub fn adjust_ant_scouts(ants: &mut Vec<Ant>, target: usize)
    ensures
        same_ants_but_types(old(ants)@, final(ants)@),
        adjusted(type_codes(old(ants)@), target as nat, type_codes(final(ants)@)),
{
    let ghost before = ants@;
    let mut types: Vec<u32> = Vec::new();
    let mut i: usize = 0;
    while i < ants.len()
        invariant
            ants@ == before,
            i <= ants.len(),
            types@ == type_codes(before).take(i as int),
        decreases ants.len() - i,
    {
        types.push(ants[i].ant_type);
        assert(types@ =~= type_codes(before).take(i + 1));
        i = i + 1;
    }
    assert(types@ =~= type_codes(before));
    adjust_scout_count(&mut types, target);
    let ghost new_types = types@;
    let mut j: usize = 0;
    while j < ants.len()
        invariant
            types@ == new_types,
            new_types.len() == before.len(),
            ants@.len() == before.len(),
            j <= ants.len(),
            forall|k: int|
                0 <= k < before.len() ==> {
                    &&& #[trigger] ants@[k].position == before[k].position
                    &&& ants@[k].direction == before[k].direction
                    &&& ants@[k].carries_food == before[k].carries_food
                    &&& ants@[k].ant_type == if k < j {
                        new_types[k]
                    } else {
                        before[k].ant_type
                    }
                },
        decreases ants.len() - j,
    {
        let ghost prev = ants@;
        let mut ant = ants[j];
        ant.ant_type = types[j];
        ants.set(j, ant);
        j = j + 1;
        assert forall|k: int| 0 <= k < before.len() implies {
            &&& #[trigger] ants@[k].position == before[k].position
            &&& ants@[k].direction == before[k].direction
            &&& ants@[k].carries_food == before[k].carries_food
            &&& ants@[k].ant_type == if k < j {
                new_types[k]
            } else {
                before[k].ant_type
            }
        } by {
            if k != j - 1 {
                assert(ants@[k] == prev[k]);
                assert(prev[k].position == before[k].position);
            }
        }
    }
    assert forall|k: int| 0 <= k < new_types.len() implies #[trigger] type_codes(ants@)[k] == new_types[k] by {
        assert(ants@[k].position == before[k].position);
    }
    assert(type_codes(ants@) =~= new_types);
}

/// Every ant is a forager or a scout.
pub open spec fn all_known_types(types: Seq<u32>) -> bool {
    forall|i: int| 0 <= i < types.len() ==> #[trigger] types[i] == FORAGER_CODE || types[i] == SCOUT_CODE
}

/// Adjusting twice to the same target changes nothing more than adjusting once.
pub proof fn lemma_adjust_idempotent(before: Seq<u32>, target: nat, once: Seq<u32>, twice: Seq<u32>)
    requires
        adjusted(before, target, once),
        adjusted(once, target, twice),
    ensures
        twice == once,
{
    let current = scout_count(before);
    if before.len() == 0 || target == current {
    } else if target > current {
        if scout_count(once) != target {
            // All foragers were converted and the target is still out of reach:
            // the second round finds no forager left to convert.
            assert(forager_count(once) == 0);
            assert forall|i: int| 0 <= i < once.len() implies #[trigger] once[i] != FORAGER_CODE by {
                once.to_multiset_ensures();
                if once[i] == FORAGER_CODE {
                    assert(once.contains(once[i]));
                }
            }
            assert(twice =~= once);
        }
    }
}

/// In a population of foragers and scouts, a target no larger than the
/// population is met exactly.
pub proof fn lemma_adjust_reaches_target(before: Seq<u32>, target: nat, after: Seq<u32>)
    requires
        adjusted(before, target, after),
        all_known_types(before),
        target <= before.len(),
    ensures
        before.len() > 0 ==> scout_count(after) == target,
        after.len() == before.len(),
{
    lemma_counts_cover(before);
}

/// Adjusting keeps the number of ants, and the number of foragers and scouts together.
pub proof fn lemma_adjust_keeps_population(before: Seq<u32>, target: nat, after: Seq<u32>)
    requires
        adjusted(before, target, after),
    ensures
        after.len() == before.len(),
        scout_count(after) + forager_count(after) == scout_count(before) + forager_count(before),
{
}

/// In a population of foragers and scouts, the two counts add up to its size.
pub proof fn lemma_counts_cover(types: Seq<u32>)
    requires
        all_known_types(types),
    ensures
        forager_count(types) + scout_count(types) == types.len(),
    decreases types.len(),
{
    if types.len() > 0 {
        let rest = types.drop_last();
        assert(all_known_types(rest)) by {
            assert forall|i: int| 0 <= i < rest.len() implies #[trigger] rest[i] == FORAGER_CODE || rest[i]
                == SCOUT_CODE by {
                assert(rest[i] == types[i]);
            }
        }
        lemma_counts_cover(rest);
        assert(types =~= rest.push(types.last()));
        vstd::seq_lib::to_multiset_build(rest, types.last());
    } else {
        types.to_multiset_ensures();
    }
}

} // verus!
