//! The edges between two looks at the keyboard: which keys went down,
//! and which came up.

use crate::keycodes::KeyCode;
use vstd::prelude::*;

verus! {

/// The test that a key passes where `keys` does not hold it.
pub open spec fn is_absent_from(keys: Seq<KeyCode>) -> spec_fn(KeyCode) -> bool {
    |k: KeyCode| !keys.contains(k)
}

/// The keys of `one` that do not occur in `two`, in the order in which
/// `one` holds them.
pub open spec fn keys_only_in(one: Seq<KeyCode>, two: Seq<KeyCode>) -> Seq<KeyCode> {
    one.filter(is_absent_from(two))
}

/// Whether `keys` holds `key`.
pub fn holds_key(keys: &Vec<KeyCode>, key: KeyCode) -> (found: bool)
    ensures
        found == keys@.contains(key),
{
    let mut i: usize = 0;
    while i < keys.len()
        invariant
            i <= keys@.len(),
            forall|j: int| 0 <= j < i ==> keys@[j] != key,
        decreases keys@.len() - i,
    {
        if keys[i] == key {
            return true;
        }
        i += 1;
    }
    false
}

/// Returns the keys of `one` that are not in `two`, keeping the order
/// of `one`. With the keys that are down now as `one` and the keys that
/// were down before as `two` these are the keys that went down; the
/// other way round, the keys that went up.
pub fn vec_intersection(one: &Vec<KeyCode>, two: &Vec<KeyCode>) -> (only: Vec<KeyCode>)
    ensures
        only@ == keys_only_in(one@, two@),
{
    let ghost absent = is_absent_from(two@);
    let mut only: Vec<KeyCode> = Vec::new();
    let mut i: usize = 0;
    proof {
        reveal(Seq::filter);
        assert(one@.take(0).filter(absent) =~= Seq::<KeyCode>::empty());
    }
    while i < one.len()
        invariant
            i <= one@.len(),
            absent == is_absent_from(two@),
            only@ == one@.take(i as int).filter(absent),
        decreases one@.len() - i,
    {
        let key = one[i];
        let skip = holds_key(two, key);
        proof {
            reveal(Seq::filter);
            assert(one@.take(i + 1).drop_last() =~= one@.take(i as int));
        }
        if !skip {
            only.push(key);
        }
        i += 1;
    }
    proof {
        assert(one@.take(i as int) =~= one@);
    }
    only
}

/// The edges between two looks at the keyboard: first the keys that
/// went down, in the order in which `current` holds them, then the keys
/// that came up, in the order in which `previous` holds them.
pub fn diff(
    previous: &Vec<KeyCode>,
    current: &Vec<KeyCode>,
) -> (edges: (Vec<KeyCode>, Vec<KeyCode>))
    ensures
        edges.0@ == keys_only_in(current@, previous@),
        edges.1@ == keys_only_in(previous@, current@),
{
    let pressed_keys = vec_intersection(current, previous);
    let released_keys = vec_intersection(previous, current);
    (pressed_keys, released_keys)
}

/// A key is left exactly when `one` holds it and `two` does not.
pub proof fn lemma_keys_only_in_membership(one: Seq<KeyCode>, two: Seq<KeyCode>, key: KeyCode)
    ensures
        keys_only_in(one, two).contains(key) <==> one.contains(key) && !two.contains(key),
{
    let absent = is_absent_from(two);
    let left = one.filter(absent);
    if left.contains(key) {
        one.lemma_filter_contains_rev(absent, key);
        let j = choose|j: int| 0 <= j < left.len() && left[j] == key;
        one.lemma_filter_pred(absent, j);
    }
    if one.contains(key) && !two.contains(key) {
        let j = choose|j: int| 0 <= j < one.len() && one[j] == key;
        one.lemma_filter_contains(absent, j);
    }
}

/// Filtering a sequence that holds nothing twice leaves one that
/// holds nothing twice.
pub proof fn lemma_filter_keeps_distinct<A>(items: Seq<A>, keep: spec_fn(A) -> bool)
    requires
        items.no_duplicates(),
    ensures
        items.filter(keep).no_duplicates(),
    decreases items.len(),
{
    reveal(Seq::filter);
    if items.len() > 0 {
        let front = items.drop_last();
        lemma_filter_keeps_distinct(front, keep);
        if keep(items.last()) && front.filter(keep).contains(items.last()) {
            front.lemma_filter_contains_rev(keep, items.last());
            let j = choose|j: int| 0 <= j < front.len() && front[j] == items.last();
            assert(items[j] == items[items.len() - 1]);
        }
    }
}

/// Where `one` holds no key twice, neither does what is left of it.
pub proof fn lemma_keys_only_in_distinct(one: Seq<KeyCode>, two: Seq<KeyCode>)
    requires
        one.no_duplicates(),
    ensures
        keys_only_in(one, two).no_duplicates(),
{
    lemma_filter_keeps_distinct(one, is_absent_from(two));
}

/// Where `two` holds every key of `one`, nothing is left of `one`.
pub proof fn lemma_keys_only_in_subset(one: Seq<KeyCode>, two: Seq<KeyCode>)
    requires
        forall|i: int| 0 <= i < one.len() ==> two.contains(#[trigger] one[i]),
    ensures
        keys_only_in(one, two) == Seq::<KeyCode>::empty(),
{
    let left = keys_only_in(one, two);
    if left.len() > 0 {
        assert(left.contains(left[0]));
        lemma_keys_only_in_membership(one, two, left[0]);
        let j = choose|j: int| 0 <= j < one.len() && one[j] == left[0];
        assert(two.contains(one[j]));
    }
    assert(left =~= Seq::<KeyCode>::empty());
}

/// One more key down: against the keys seen before, that key alone went
/// down and none went up; seen the other way round, that key alone
/// went up and none went down.
pub proof fn lemma_keys_only_in_one_more(seen: Seq<KeyCode>, key: KeyCode)
    requires
        !seen.contains(key),
    ensures
        keys_only_in(seen.push(key), seen) == seq![key],
        keys_only_in(seen, seen.push(key)) == Seq::<KeyCode>::empty(),
{
    let grown = seen.push(key);
    assert forall|i: int| 0 <= i < seen.len() implies grown.contains(#[trigger] seen[i]) by {
        assert(grown[i] == seen[i]);
    }
    lemma_keys_only_in_subset(seen, grown);
    lemma_keys_only_in_subset(seen, seen);
    reveal(Seq::filter);
    assert(grown.drop_last() =~= seen);
    assert(keys_only_in(grown, seen) =~= seq![key]);
}

} // verus!
