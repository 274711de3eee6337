//! Duplicate detection and ordered union of `u64` identifier lists.
use std::collections::BTreeSet;
use vstd::prelude::*;
use vstd::std_specs::cmp::OrdSpec;
use vstd::std_specs::iter::IteratorSpec;

verus! {

broadcast use {vstd::std_specs::btree::group_btree_axioms, vstd::laws_cmp::group_laws_cmp};

/// `value` occurs at two different positions of `values`.
pub open spec fn is_duplicated(values: Seq<u64>, value: u64) -> bool {
    exists|i: int, j: int| 0 <= i < j < values.len() && values[i] == value && values[j] == value
}

/// `value` is the smallest value that occurs twice in `values`.
pub open spec fn is_smallest_duplicate(values: Seq<u64>, value: u64) -> bool {
    &&& is_duplicated(values, value)
    &&& forall|other: u64| is_duplicated(values, other) ==> value <= other
}

/// The values are strictly increasing.
pub open spec fn strictly_increasing(values: Seq<u64>) -> bool {
    forall|i: int, j: int| 0 <= i < j < values.len() ==> values[i] < values[j]
}

proof fn lemma_no_duplicates_iff(values: Seq<u64>)
    ensures
        values.no_duplicates() <==> forall|value: u64| !is_duplicated(values, value),
{
    if values.no_duplicates() {
        assert forall|value: u64| !is_duplicated(values, value) by {
            if is_duplicated(values, value) {
                let (i, j) = choose|i: int, j: int|
                    0 <= i < j < values.len() && values[i] == value && values[j] == value;
                assert(values[i] == values[j]);
            }
        }
    } else {
        let (i, j) = choose|i: int, j: int|
            0 <= i < values.len() && 0 <= j < values.len() && i != j && values[i] == values[j];
        if i < j {
            assert(is_duplicated(values, values[i]));
        } else {
            assert(is_duplicated(values, values[j]));
        }
    }
}

proof fn lemma_duplicated_extend(values: Seq<u64>, n: int, value: u64)
    requires
        0 <= n < values.len(),
    ensures
        is_duplicated(values.subrange(0, n + 1), value) <==> (is_duplicated(
            values.subrange(0, n),
            value,
        ) || (value == values[n] && values.subrange(0, n).contains(value))),
{
    let longer = values.subrange(0, n + 1);
    let shorter = values.subrange(0, n);
    if is_duplicated(longer, value) {
        let (i, j) = choose|i: int, j: int|
            0 <= i < j < longer.len() && longer[i] == value && longer[j] == value;
        if j < n {
            assert(shorter[i] == value && shorter[j] == value);
        } else {
            assert(shorter[i] == value);
        }
    }
    if is_duplicated(shorter, value) {
        let (i, j) = choose|i: int, j: int|
            0 <= i < j < shorter.len() && shorter[i] == value && shorter[j] == value;
        assert(longer[i] == value && longer[j] == value);
    }
    if value == values[n] && shorter.contains(value) {
        let i = choose|i: int| 0 <= i < shorter.len() && shorter[i] == value;
        assert(longer[i] == value && longer[n] == value);
    }
}

proof fn lemma_push_to_set(values: Seq<u64>, value: u64)
    ensures
        values.push(value).to_set() == values.to_set().insert(value),
{
    assert forall|x: u64| values.push(value).to_set().contains(x) <==> values.to_set().insert(
        value,
    ).contains(x) by {
        if values.push(value).contains(x) && x != value {
            let i = choose|i: int| 0 <= i < values.push(value).len() && values.push(value)[i] == x;
            assert(values[i] == x);
        }
        if values.contains(x) {
            let i = choose|i: int| 0 <= i < values.len() && values[i] == x;
            assert(values.push(value)[i] == x);
        }
        if x == value {
            assert(values.push(value)[values.len() as int] == x);
        }
    }
    assert(values.push(value).to_set() =~= values.to_set().insert(value));
}

proof fn lemma_empty_prefix_to_set(values: Seq<u64>)
    ensures
        values.subrange(0, 0).to_set() == Set::<u64>::empty(),
{
    assert(values.subrange(0, 0).to_set() =~= Set::<u64>::empty());
}

/// Returns the smallest value that occurs more than once, or `None` when every value is unique.
pub fn smallest_duplicate(values: &[u64]) -> (duplicate: Option<u64>)
    ensures
        duplicate is None <==> values@.no_duplicates(),
        duplicate matches Some(value) ==> is_smallest_duplicate(values@, value),
{
    let mut seen: BTreeSet<u64> = BTreeSet::new();
    let mut best: Option<u64> = None;
    let mut index: usize = 0;
    proof {
        lemma_empty_prefix_to_set(values@);
    }
    while index < values.len()
        invariant
            index <= values@.len(),
            seen@ == values@.subrange(0, index as int).to_set(),
            best is None ==> forall|value: u64|
                !is_duplicated(values@.subrange(0, index as int), value),
            best matches Some(value) ==> is_smallest_duplicate(
                values@.subrange(0, index as int),
                value,
            ),
        decreases values@.len() - index,
    {
        let value = values[index];
        let ghost prefix = values@.subrange(0, index as int);
        let ghost longer = values@.subrange(0, index + 1);
        proof {
            assert(longer =~= prefix.push(value));
            lemma_push_to_set(prefix, value);
        }
        let inserted = seen.insert(value);
        proof {
            assert forall|other: u64| #[trigger]
                is_duplicated(longer, other) <==> (is_duplicated(prefix, other) || (other == value
                    && !inserted)) by {
                lemma_duplicated_extend(values@, index as int, other);
            }
        }
        if !inserted {
            best = match best {
                Some(current) => if value < current {
                    Some(value)
                } else {
                    Some(current)
                },
                None => Some(value),
            };
        }
        proof {
            assert(best is None ==> forall|other: u64| !is_duplicated(longer, other));
            if let Some(b) = best {
                assert(is_duplicated(longer, b));
                assert forall|other: u64| is_duplicated(longer, other) implies b <= other by {
                    if is_duplicated(prefix, other) {
                    }
                }
            }
        }
        index = index + 1;
    }
    proof {
        assert(values@.subrange(0, values@.len() as int) =~= values@);
        lemma_no_duplicates_iff(values@);
    }
    best
}

spec fn ordered_before<K: Ord>(keys: Seq<K>, i: int, j: int) -> bool {
    keys[i].cmp_spec(&keys[j]) is Less
}

proof fn lemma_increasing_keys(keys: Seq<&u64>)
    requires
        vstd::std_specs::btree::increasing_seq(keys),
    ensures
        strictly_increasing(keys.unref()),
{
    assert(vstd::laws_cmp::obeys_cmp::<u64>());
    assert(vstd::laws_cmp::obeys_cmp::<&u64>());
    vstd::std_specs::btree::axiom_increasing_seq_meaning::<&u64>(keys);
    assert forall|i: int, j: int| 0 <= i < j < keys.len() implies keys.unref()[i] < keys.unref()[j] by {
        assert(ordered_before(keys, i, j));
    }
}

/// Returns the values of both lists, each once, in increasing order.
pub fn sorted_union(first: &[u64], second: &[u64]) -> (union: Vec<u64>)
    ensures
        strictly_increasing(union@),
        union@.to_set() == first@.to_set() + second@.to_set(),
{
    let mut set: BTreeSet<u64> = BTreeSet::new();
    let mut index: usize = 0;
    proof {
        lemma_empty_prefix_to_set(first@);
    }
    while index < first.len()
        invariant
            index <= first@.len(),
            set@ == first@.subrange(0, index as int).to_set(),
        decreases first@.len() - index,
    {
        proof {
            assert(first@.subrange(0, index + 1) =~= first@.subrange(0, index as int).push(
                first@[index as int],
            ));
            lemma_push_to_set(first@.subrange(0, index as int), first@[index as int]);
        }
        set.insert(first[index]);
        index = index + 1;
    }
    let mut index: usize = 0;
    proof {
        lemma_empty_prefix_to_set(second@);
        assert(first@.subrange(0, first@.len() as int) =~= first@);
        assert(first@.to_set() + Set::<u64>::empty() =~= first@.to_set());
    }
    while index < second.len()
        invariant
            index <= second@.len(),
            set@ == first@.to_set() + second@.subrange(0, index as int).to_set(),
        decreases second@.len() - index,
    {
        proof {
            assert(second@.subrange(0, index + 1) =~= second@.subrange(0, index as int).push(
                second@[index as int],
            ));
            lemma_push_to_set(second@.subrange(0, index as int), second@[index as int]);
            assert(first@.to_set() + second@.subrange(0, index + 1).to_set() =~= (first@.to_set()
                + second@.subrange(0, index as int).to_set()).insert(second@[index as int]));
        }
        set.insert(second[index]);
        index = index + 1;
    }
    proof {
        assert(first@.subrange(0, first@.len() as int) =~= first@);
        assert(second@.subrange(0, second@.len() as int) =~= second@);
    }
    let ghost keys = vstd::std_specs::btree::spec_btree_keys_iter(&set).remaining();
    let mut union: Vec<u64> = Vec::new();
    for key in iter: set.iter()
        invariant
            iter.seq() == keys,
            union@ == keys.take(iter.index()).map_values(|k: &u64| *k),
    {
        union.push(*key);
        proof {
            assert(union@ =~= keys.take(iter.index() + 1).map_values(|k: &u64| *k));
        }
    }
    proof {
        assert(keys.take(keys.len() as int) =~= keys);
        assert(union@ =~= keys.unref());
        lemma_increasing_keys(keys);
    }
    union
}

} // verus!
