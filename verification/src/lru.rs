//! Least-recently-used sequences with a byte budget.
//!
//! The caches of this crate keep their entries least recently used first. A lookup that hits
//! moves the entry to the back; a budget is enforced by dropping entries from the front while
//! more bytes are in use than the budget allows. The bytes in use are kept with saturating
//! arithmetic, so they never exceed the entries' total charge.

use vstd::prelude::*;

verus! {

/// An entry that is charged a number of bytes against a cache budget.
pub trait Charged {
    /// Bytes this entry is charged.
    spec fn charge(&self) -> usize;
}

/// Total bytes charged for `entries`.
pub open spec fn total_charge<T: Charged>(entries: Seq<T>) -> int
    decreases entries.len(),
{
    if entries.len() == 0 {
        0
    } else {
        entries[0].charge() + total_charge(entries.subrange(1, entries.len() as int))
    }
}

/// `entries` with the entry at `i` moved to the most recently used end.
pub open spec fn touch_seq<T>(entries: Seq<T>, i: int) -> Seq<T> {
    entries.remove(i).push(entries[i])
}

/// Entries and bytes in use after dropping entries from the front while more than `max` bytes
/// are in use and an entry is left. Each drop subtracts the entry's charge, saturating at zero.
pub open spec fn evict_front<T: Charged>(entries: Seq<T>, used: usize, max: usize) -> (Seq<T>, usize)
    decreases entries.len(),
{
    if used > max && entries.len() > 0 {
        evict_front(entries.subrange(1, entries.len() as int), used.saturating_sub(entries[0].charge()), max)
    } else {
        (entries, used)
    }
}

/// The entries [`evict_front`] drops, oldest first.
pub open spec fn evicted_prefix<T: Charged>(entries: Seq<T>, used: usize, max: usize) -> Seq<T> {
    entries.take(entries.len() - evict_front(entries, used, max).0.len())
}

/// A total charge is never negative.
pub proof fn lemma_total_charge_nonneg<T: Charged>(entries: Seq<T>)
    ensures
        total_charge(entries) >= 0,
    decreases entries.len(),
{
    if entries.len() > 0 {
        lemma_total_charge_nonneg(entries.subrange(1, entries.len() as int));
    }
}

/// Appending an entry adds its charge.
pub proof fn lemma_total_charge_push<T: Charged>(entries: Seq<T>, e: T)
    ensures
        total_charge(entries.push(e)) == total_charge(entries) + e.charge(),
    decreases entries.len(),
{
    let pushed = entries.push(e);
    if entries.len() > 0 {
        let tail = entries.subrange(1, entries.len() as int);
        assert(pushed.subrange(1, pushed.len() as int) =~= tail.push(e));
        lemma_total_charge_push(tail, e);
        assert(total_charge(pushed) == pushed[0].charge() + total_charge(pushed.subrange(1, pushed.len() as int)));
    } else {
        assert(pushed.subrange(1, 1) =~= Seq::<T>::empty());
        assert(total_charge(pushed.subrange(1, 1)) == 0);
        assert(total_charge(pushed) == pushed[0].charge() + total_charge(pushed.subrange(1, pushed.len() as int)));
    }
}

/// Removing an entry subtracts its charge.
pub proof fn lemma_total_charge_remove<T: Charged>(entries: Seq<T>, i: int)
    requires
        0 <= i < entries.len(),
    ensures
        total_charge(entries.remove(i)) == total_charge(entries) - entries[i].charge(),
    decreases entries.len(),
{
    let tail = entries.subrange(1, entries.len() as int);
    if i == 0 {
        assert(entries.remove(0) =~= tail);
    } else {
        lemma_total_charge_remove(tail, i - 1);
        assert(entries.remove(i).subrange(1, entries.remove(i).len() as int) =~= tail.remove(i - 1));
        assert(entries.remove(i)[0] == entries[0]);
    }
}

/// Moving an entry to the most recently used end keeps every entry, the count and the total
/// charge, and puts that entry last.
pub proof fn lemma_touch_keeps_entries<T: Charged>(entries: Seq<T>, i: int)
    requires
        0 <= i < entries.len(),
    ensures
        touch_seq(entries, i).len() == entries.len(),
        touch_seq(entries, i).last() == entries[i],
        total_charge(touch_seq(entries, i)) == total_charge(entries),
        forall|x: T| entries.contains(x) <==> touch_seq(entries, i).contains(x),
{
    lemma_total_charge_remove(entries, i);
    lemma_total_charge_push(entries.remove(i), entries[i]);
    let t = touch_seq(entries, i);
    assert forall|x: T| entries.contains(x) <==> t.contains(x) by {
        if entries.contains(x) {
            let k = choose|k: int| 0 <= k < entries.len() && entries[k] == x;
            if k == i {
                assert(t[t.len() - 1] == x);
            } else if k < i {
                assert(t[k] == x);
            } else {
                assert(t[k - 1] == x);
            }
        }
        if t.contains(x) {
            let k = choose|k: int| 0 <= k < t.len() && t[k] == x;
            if k == t.len() - 1 {
                assert(entries[i] == x);
            } else if k < i {
                assert(entries[k] == x);
            } else {
                assert(entries[k + 1] == x);
            }
        }
    }
}

/// Eviction leaves a suffix of the entries, never raises the bytes in use nor lets them pass
/// the remaining entries' total charge, and ends within budget unless no entry is left.
pub proof fn lemma_evict_front<T: Charged>(entries: Seq<T>, used: usize, max: usize)
    requires
        used <= total_charge(entries),
    ensures
        ({
            let (rest, left) = evict_front(entries, used, max);
            &&& left <= max || rest.len() == 0
            &&& left <= total_charge(rest)
            &&& left <= used
            &&& rest.len() <= entries.len()
            &&& rest == entries.subrange(entries.len() - rest.len(), entries.len() as int)
        }),
    decreases entries.len(),
{
    if used > max && entries.len() > 0 {
        let tail = entries.subrange(1, entries.len() as int);
        lemma_total_charge_nonneg(tail);
        lemma_evict_front(tail, used.saturating_sub(entries[0].charge()), max);
        let (rest, left) = evict_front(tail, used.saturating_sub(entries[0].charge()), max);
        assert(tail.subrange(tail.len() - rest.len(), tail.len() as int)
            =~= entries.subrange(entries.len() - rest.len(), entries.len() as int));
    } else {
        assert(entries.subrange(0, entries.len() as int) =~= entries);
    }
}

/// Within budget, eviction drops nothing.
pub proof fn lemma_evict_front_within_budget<T: Charged>(entries: Seq<T>, used: usize, max: usize)
    requires
        used <= max,
    ensures
        evict_front(entries, used, max) == (entries, used),
{
}

/// After an entry is appended and the sequence evicted, the appended entry is the most
/// recently used one whenever any entry is left.
pub proof fn lemma_appended_entry_survives_last<T: Charged>(entries: Seq<T>, e: T, used: usize, max: usize)
    requires
        used <= total_charge(entries.push(e)),
    ensures
        evict_front(entries.push(e), used, max).0.len() > 0 ==> evict_front(entries.push(e), used, max).0.last() == e,
{
    lemma_evict_front(entries.push(e), used, max);
}

} // verus!
