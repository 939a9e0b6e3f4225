//! Stable sorting of a listing by rank: directories before files, and within
//! each group by case-folded name.

use vstd::prelude::*;
use vstd::set_lib::{lemma_int_range, lemma_subset_equality, set_int_range};
use crate::text::{lex_le, lex_le_chars, lemma_lex_le_total, lemma_lex_le_transitive};

verus! {

/// What an entry is ranked by.
#[derive(Debug)]
pub struct SortKey {
    pub is_dir: bool,
    /// The entry's name in its case-folded form.
    pub folded_name: Vec<char>,
}

/// The mathematical value of a [`SortKey`].
pub struct SortKeyView {
    pub is_dir: bool,
    pub folded_name: Seq<char>,
}

impl View for SortKey {
    type V = SortKeyView;

    open spec fn view(&self) -> SortKeyView {
        SortKeyView { is_dir: self.is_dir, folded_name: self.folded_name@ }
    }
}

/// The views of a sequence of keys.
pub open spec fn key_views(keys: Seq<SortKey>) -> Seq<SortKeyView> {
    Seq::new(keys.len(), |i: int| keys[i]@)
}

/// `a` does not rank after `b`: a directory never ranks after a file, and
/// within a group the folded names decide, in lexicographic order.
pub open spec fn key_le(a: SortKeyView, b: SortKeyView) -> bool {
    if a.is_dir != b.is_dir {
        a.is_dir
    } else {
        lex_le(a.folded_name, b.folded_name)
    }
}

/// The entry at index `i` belongs before the one at index `j`: its key ranks
/// lower, or the keys tie and `i` is the smaller index.
pub open spec fn ranks_before(keys: Seq<SortKeyView>, i: int, j: int) -> bool {
    key_le(keys[i], keys[j]) && (key_le(keys[j], keys[i]) ==> i < j)
}

/// `order` lists every index of `keys` in `lo..hi` once, each before all that
/// it ranks before.
pub open spec fn orders_range(order: Seq<usize>, keys: Seq<SortKeyView>, lo: int, hi: int) -> bool {
    &&& order.len() == hi - lo
    &&& forall|a: int| 0 <= a < order.len() ==> lo <= #[trigger] order[a] < hi
    &&& forall|a: int, b: int|
        0 <= a < b < order.len() ==> ranks_before(keys, order[a] as int, order[b] as int)
}

/// `order` is the stable sorting order of `keys`: a list of all their indices
/// in which keys never descend and tied keys keep the order of their indices.
pub open spec fn is_stable_order(order: Seq<usize>, keys: Seq<SortKeyView>) -> bool {
    orders_range(order, keys, 0, keys.len() as int)
}

/// Any two keys are comparable.
pub proof fn lemma_key_le_total(a: SortKeyView, b: SortKeyView)
    ensures
        key_le(a, b) || key_le(b, a),
{
    lemma_lex_le_total(a.folded_name, b.folded_name);
}

/// The rank of keys is transitive.
pub proof fn lemma_key_le_transitive(a: SortKeyView, b: SortKeyView, c: SortKeyView)
    requires
        key_le(a, b),
        key_le(b, c),
    ensures
        key_le(a, c),
{
    if a.is_dir == b.is_dir && b.is_dir == c.is_dir {
        lemma_lex_le_transitive(a.folded_name, b.folded_name, c.folded_name);
    }
}

/// Belonging before is transitive.
pub proof fn lemma_ranks_before_transitive(keys: Seq<SortKeyView>, i: int, j: int, k: int)
    requires
        ranks_before(keys, i, j),
        ranks_before(keys, j, k),
    ensures
        ranks_before(keys, i, k),
{
    lemma_key_le_transitive(keys[i], keys[j], keys[k]);
    if key_le(keys[k], keys[i]) {
        lemma_key_le_transitive(keys[k], keys[i], keys[j]);
        lemma_key_le_transitive(keys[j], keys[k], keys[i]);
    }
}

/// No index belongs before itself, and of two indices at most one belongs
/// before the other.
pub proof fn lemma_ranks_before_is_strict(keys: Seq<SortKeyView>, i: int, j: int)
    ensures
        !ranks_before(keys, i, i),
        !(ranks_before(keys, i, j) && ranks_before(keys, j, i)),
{
}

/// A stable order lists every index of the keys: `place` is where it lists
/// `index`.
pub proof fn lemma_stable_order_lists_every_index(
    order: Seq<usize>,
    keys: Seq<SortKeyView>,
    index: int,
) -> (place: int)
    requires
        is_stable_order(order, keys),
        0 <= index < keys.len(),
    ensures
        0 <= place < order.len(),
        order[place] == index,
{
    let listed = Seq::new(order.len(), |a: int| order[a] as int);
    assert(listed.no_duplicates()) by {
        assert forall|a: int, b: int|
            0 <= a < listed.len() && 0 <= b < listed.len() && a != b implies listed[a]
            != listed[b] by {
            if a < b {
                assert(ranks_before(keys, order[a] as int, order[b] as int));
            } else {
                assert(ranks_before(keys, order[b] as int, order[a] as int));
            }
        }
    }
    listed.unique_seq_to_set();
    let all = set_int_range(0, keys.len() as int);
    lemma_int_range(0, keys.len() as int);
    assert(listed.to_set().subset_of(all)) by {
        assert forall|value: int| listed.to_set().contains(value) implies all.contains(value) by {
            let a = choose|a: int| 0 <= a < listed.len() && listed[a] == value;
            assert(0 <= order[a] < keys.len());
        }
    }
    vstd::set_lib::lemma_len_subset(listed.to_set(), all);
    lemma_subset_equality(listed.to_set(), all);
    assert(all.contains(index));
    assert(listed.contains(index));
    let place = choose|a: int| 0 <= a < listed.len() && listed[a] == index;
    place
}

/// Two stable orders of the same keys agree on their first `upto` places.
proof fn lemma_stable_orders_agree_below(
    first: Seq<usize>,
    second: Seq<usize>,
    keys: Seq<SortKeyView>,
    upto: int,
)
    requires
        is_stable_order(first, keys),
        is_stable_order(second, keys),
        0 <= upto <= keys.len(),
    ensures
        forall|a: int| 0 <= a < upto ==> first[a] == second[a],
    decreases upto,
{
    if upto > 0 {
        lemma_stable_orders_agree_below(first, second, keys, upto - 1);
        let a = upto - 1;
        let x = first[a] as int;
        let y = second[a] as int;
        if x != y {
            let b = lemma_stable_order_lists_every_index(second, keys, x);
            if b < a {
                assert(ranks_before(keys, first[b] as int, first[a] as int));
            }
            assert(ranks_before(keys, second[a] as int, second[b] as int));
            let c = lemma_stable_order_lists_every_index(first, keys, y);
            if c < a {
                assert(ranks_before(keys, second[c] as int, second[a] as int));
            }
            assert(ranks_before(keys, first[a] as int, first[c] as int));
            lemma_ranks_before_is_strict(keys, x, y);
        }
    }
}

/// The keys decide their stable order: there is only one.
pub proof fn lemma_stable_order_is_unique(
    first: Seq<usize>,
    second: Seq<usize>,
    keys: Seq<SortKeyView>,
)
    requires
        is_stable_order(first, keys),
        is_stable_order(second, keys),
    ensures
        first == second,
{
    lemma_stable_orders_agree_below(first, second, keys, keys.len() as int);
    assert(first =~= second);
}

/// Decides [`key_le`].
pub fn key_le_exec(a: &SortKey, b: &SortKey) -> (le: bool)
    ensures
        le == key_le(a@, b@),
{
    if a.is_dir != b.is_dir {
        a.is_dir
    } else {
        lex_le_chars(&a.folded_name, &b.folded_name)
    }
}

/// Merges the sorted orders of two adjacent index ranges.
fn merge_orders(
    keys: &Vec<SortKey>,
    left: &Vec<usize>,
    right: &Vec<usize>,
    Ghost(lo): Ghost<int>,
    Ghost(mid): Ghost<int>,
    Ghost(hi): Ghost<int>,
) -> (merged: Vec<usize>)
    requires
        0 <= lo <= mid <= hi <= keys.len(),
        orders_range(left@, key_views(keys@), lo, mid),
        orders_range(right@, key_views(keys@), mid, hi),
    ensures
        orders_range(merged@, key_views(keys@), lo, hi),
{
    let ghost views = key_views(keys@);
    let mut merged: Vec<usize> = Vec::new();
    let mut i: usize = 0;
    let mut j: usize = 0;
    while i < left.len() || j < right.len()
        invariant
            0 <= lo <= mid <= hi <= keys.len(),
            views == key_views(keys@),
            orders_range(left@, views, lo, mid),
            orders_range(right@, views, mid, hi),
            i <= left.len(),
            j <= right.len(),
            merged.len() == i + j,
            forall|a: int| 0 <= a < merged.len() ==> lo <= #[trigger] merged[a] < hi,
            forall|a: int, b: int|
                0 <= a < b < merged.len() ==> ranks_before(
                    views,
                    merged[a] as int,
                    merged[b] as int,
                ),
            forall|a: int, b: int|
                0 <= a < merged.len() && i <= b < left.len() ==> ranks_before(
                    views,
                    merged[a] as int,
                    left[b] as int,
                ),
            forall|a: int, b: int|
                0 <= a < merged.len() && j <= b < right.len() ==> ranks_before(
                    views,
                    merged[a] as int,
                    right[b] as int,
                ),
        decreases left.len() - i + right.len() - j,
    {
        let take_left = if i >= left.len() {
            false
        } else if j >= right.len() {
            true
        } else {
            key_le_exec(&keys[left[i]], &keys[right[j]])
        };
        if take_left {
            let next = left[i];
            proof {
                assert forall|b: int| j <= b < right.len() implies ranks_before(
                    views,
                    next as int,
                    right[b] as int,
                ) by {
                    assert(ranks_before(views, next as int, right[j as int] as int));
                    if b > j {
                        lemma_ranks_before_transitive(
                            views,
                            next as int,
                            right[j as int] as int,
                            right[b] as int,
                        );
                    }
                }
            }
            merged.push(next);
            i += 1;
        } else {
            let next = right[j];
            proof {
                assert forall|b: int| i <= b < left.len() implies ranks_before(
                    views,
                    next as int,
                    left[b] as int,
                ) by {
                    lemma_key_le_total(views[left[i as int] as int], views[next as int]);
                    assert(ranks_before(views, next as int, left[i as int] as int));
                    if b > i {
                        lemma_ranks_before_transitive(
                            views,
                            next as int,
                            left[i as int] as int,
                            left[b] as int,
                        );
                    }
                }
            }
            merged.push(next);
            j += 1;
        }
    }
    merged
}

/// The sorted order of the indices `lo..hi`, by merge sort.
fn sort_range(keys: &Vec<SortKey>, lo: usize, hi: usize) -> (order: Vec<usize>)
    requires
        lo <= hi <= keys.len(),
    ensures
        orders_range(order@, key_views(keys@), lo as int, hi as int),
    decreases hi - lo,
{
    let mut order: Vec<usize> = Vec::new();
    if hi - lo == 0 {
        order
    } else if hi - lo == 1 {
        order.push(lo);
        order
    } else {
        let mid = lo + (hi - lo) / 2;
        let left = sort_range(keys, lo, mid);
        let right = sort_range(keys, mid, hi);
        merge_orders(keys, &left, &right, Ghost(lo as int), Ghost(mid as int), Ghost(hi as int))
    }
}

/// The order in which a stable sort lists the entries that `keys` belong to:
/// `order[0]` is the index of the entry that comes first, and so on.
pub fn sorted_order(keys: &Vec<SortKey>) -> (order: Vec<usize>)
    ensures
        is_stable_order(order@, key_views(keys@)),
{
    sort_range(keys, 0, keys.len())
}

} // verus!
