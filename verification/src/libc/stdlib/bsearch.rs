//! `bsearch`: the search state between calls of the guest's comparison
//! function. The caller compares the key with the item at each probed
//! index (key first) and feeds the result back.

use vstd::prelude::*;

verus! {

/// The range still to search: `len` items from index `low` on.
#[derive(Clone, Copy, Debug, PartialEq, Eq, Structural)]
pub struct BsearchState {
    pub low: u32,
    pub len: u32,
}

/// The index probed in a range: its middle.
pub open spec fn probe_index(low: int, len: int) -> int {
    low + len / 2
}

/// The range left after a comparison result other than zero: above the
/// middle where the key is greater, below it where it is less.
pub open spec fn next_range(low: int, len: int, result: int) -> (int, int) {
    let half = len / 2;
    if result > 0 {
        (low + half + 1, len - half - 1)
    } else {
        (low, half)
    }
}

impl BsearchState {
    /// The search over all `item_count` items.
    pub fn new(item_count: u32) -> (r: Self)
        ensures
            r.low == 0,
            r.len == item_count,
    {
        BsearchState { low: 0, len: item_count }
    }

    /// The index whose item is compared next; `None` when the range is
    /// empty, which ends the search with a null result.
    pub fn probe(&self) -> (r: Option<u32>)
        requires
            self.low + self.len <= u32::MAX,
        ensures
            r == (if self.len == 0 {
                None::<u32>
            } else {
                Some(probe_index(self.low as int, self.len as int) as u32)
            }),
    {
        if self.len == 0 {
            None
        } else {
            Some(self.low + self.len / 2)
        }
    }

    /// Takes the comparison result for the probed item: zero ends the
    /// search at that item, which is returned; otherwise the range shrinks
    /// to one side of it.
    pub fn advance(&mut self, result: i32) -> (found: Option<u32>)
        requires
            old(self).len > 0,
            old(self).low + old(self).len <= u32::MAX,
        ensures
            result == 0 ==> found == Some(probe_index(old(self).low as int, old(self).len as int) as u32)
                && *final(self) == *old(self),
            result != 0 ==> found is None && (final(self).low as int, final(self).len as int)
                == next_range(old(self).low as int, old(self).len as int, result as int),
            final(self).low + final(self).len <= old(self).low + old(self).len,
            final(self).low >= old(self).low,
            result != 0 ==> final(self).len < old(self).len,
    {
        let half_len = self.len / 2;
        if result == 0 {
            return Some(self.low + half_len);
        }
        if result > 0 {
            self.low = self.low + half_len + 1;
            self.len = self.len - half_len - 1;
        } else {
            self.len = half_len;
        }
        None
    }
}

/// The sign of a comparison of `key` with `item`, as a comparison function
/// that orders integers would report it.
pub open spec fn compare(key: int, item: int) -> int {
    if key < item {
        -1
    } else if key == item {
        0
    } else {
        1
    }
}

/// A whole search of a sequence with `compare` as the comparison function.
pub open spec fn bsearch_run(items: Seq<int>, key: int, low: int, len: int) -> Option<int>
    decreases len,
{
    if len <= 0 {
        None
    } else {
        let mid = probe_index(low, len);
        let c = compare(key, items[mid]);
        if c == 0 {
            Some(mid)
        } else {
            let (l2, n2) = next_range(low, len, c);
            bsearch_run(items, key, l2, n2)
        }
    }
}

/// Whether a sequence is sorted in ascending order.
pub open spec fn sorted(items: Seq<int>) -> bool {
    forall|i: int, j: int| 0 <= i <= j < items.len() ==> items[i] <= items[j]
}

/// In a sorted range, a search finds the key where the range holds it, and
/// returns null where it does not.
pub proof fn lemma_bsearch_finds_key(items: Seq<int>, key: int, low: int, len: int)
    requires
        sorted(items),
        0 <= low,
        0 <= len,
        low + len <= items.len(),
    ensures
        bsearch_run(items, key, low, len) matches Some(i) ==> low <= i < low + len && items[i]
            == key,
        bsearch_run(items, key, low, len) is None ==> forall|j: int|
            low <= j < low + len ==> items[j] != key,
    decreases len,
{
    if len > 0 {
        let mid = probe_index(low, len);
        let c = compare(key, items[mid]);
        if c != 0 {
            let (l2, n2) = next_range(low, len, c);
            lemma_bsearch_finds_key(items, key, l2, n2);
            if bsearch_run(items, key, low, len) is None {
                assert forall|j: int| low <= j < low + len implies items[j] != key by {
                    if c > 0 {
                        if j <= mid {
                            assert(items[j] <= items[mid]);
                        }
                    } else {
                        if j >= mid {
                            assert(items[mid] <= items[j]);
                        }
                    }
                }
            }
        }
    }
}

} // verus!
