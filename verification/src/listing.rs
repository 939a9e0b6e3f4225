//! The order of a finished listing.

use vstd::prelude::*;
use crate::file_entry::{FileEntry, FileEntryView};
use crate::ranking::{
    is_stable_order, key_le, key_views, lemma_stable_order_is_unique,
    lemma_stable_order_lists_every_index, ranks_before, sorted_order, SortKey, SortKeyView,
};
use crate::text::{fold_case, lex_le, lowercased};

verus! {

/// What an entry is ranked by in a listing: whether it is a directory, and its
/// name in lowercase.
pub open spec fn listing_key(entry: FileEntryView) -> SortKeyView {
    SortKeyView { is_dir: entry.is_dir, folded_name: lowercased(entry.name) }
}

/// The keys of a sequence of entries.
pub open spec fn listing_keys(entries: Seq<FileEntryView>) -> Seq<SortKeyView> {
    Seq::new(entries.len(), |i: int| listing_key(entries[i]))
}

/// The views of a sequence of entries.
pub open spec fn entry_views(entries: Seq<FileEntry>) -> Seq<FileEntryView> {
    Seq::new(entries.len(), |i: int| entries[i]@)
}

/// `output` holds the items of `input` in the given order: item `order[i]` of
/// `input` stands at place `i`.
pub open spec fn is_arranged<T>(output: Seq<T>, input: Seq<T>, order: Seq<usize>) -> bool {
    &&& output.len() == order.len()
    &&& forall|i: int| 0 <= i < order.len() ==> output[i] == input[order[i] as int]
}

/// `output` is `input` sorted stably by [`listing_key`]: directories first,
/// within each group by lowercase name, and entries whose keys tie in the
/// order in which `input` holds them.
pub open spec fn is_sorted_listing(output: Seq<FileEntryView>, input: Seq<FileEntryView>) -> bool {
    exists|order: Seq<usize>|
        is_stable_order(order, listing_keys(input)) && is_arranged(output, input, order)
}

/// In a sorted listing no entry ranks after a later one: every directory
/// stands before every file, and within each group the lowercase names ascend.
pub proof fn lemma_sorted_listing_ascends(output: Seq<FileEntryView>, input: Seq<FileEntryView>)
    requires
        is_sorted_listing(output, input),
    ensures
        output.len() == input.len(),
        forall|a: int, b: int|
            0 <= a < b < output.len() ==> key_le(
                listing_key(#[trigger] output[a]),
                listing_key(#[trigger] output[b]),
            ),
        forall|a: int, b: int|
            0 <= a < b < output.len() && (#[trigger] output[b]).is_dir ==> (
            #[trigger] output[a]).is_dir,
        forall|a: int, b: int|
            0 <= a < b < output.len() && (#[trigger] output[a]).is_dir == (
            #[trigger] output[b]).is_dir ==> lex_le(
                lowercased(output[a].name),
                lowercased(output[b].name),
            ),
{
    let order = choose|order: Seq<usize>|
        is_stable_order(order, listing_keys(input)) && is_arranged(output, input, order);
    let keys = listing_keys(input);
    assert forall|a: int, b: int| 0 <= a < b < output.len() implies key_le(
        listing_key(#[trigger] output[a]),
        listing_key(#[trigger] output[b]),
    ) by {
        assert(ranks_before(keys, order[a] as int, order[b] as int));
    }
}

/// A sorted listing holds every entry of what was sorted: `place` is where
/// it holds entry `index`.
pub proof fn lemma_sorted_listing_keeps_every_entry(
    output: Seq<FileEntryView>,
    input: Seq<FileEntryView>,
    index: int,
) -> (place: int)
    requires
        is_sorted_listing(output, input),
        0 <= index < input.len(),
    ensures
        output.len() == input.len(),
        0 <= place < output.len(),
        output[place] == input[index],
{
    let order = choose|order: Seq<usize>|
        is_stable_order(order, listing_keys(input)) && is_arranged(output, input, order);
    lemma_stable_order_lists_every_index(order, listing_keys(input), index)
}

/// What is sorted decides the sorted listing: there is only one.
pub proof fn lemma_sorted_listing_is_unique(
    first: Seq<FileEntryView>,
    second: Seq<FileEntryView>,
    input: Seq<FileEntryView>,
)
    requires
        is_sorted_listing(first, input),
        is_sorted_listing(second, input),
    ensures
        first == second,
{
    let keys = listing_keys(input);
    let first_order = choose|order: Seq<usize>|
        is_stable_order(order, keys) && is_arranged(first, input, order);
    let second_order = choose|order: Seq<usize>|
        is_stable_order(order, keys) && is_arranged(second, input, order);
    lemma_stable_order_is_unique(first_order, second_order, keys);
    assert(first =~= second);
}

/// Moves the items of `items` into the given order.
pub fn arrange<T>(items: Vec<T>, order: &Vec<usize>) -> (arranged: Vec<T>)
    requires
        forall|i: int| 0 <= i < order.len() ==> (#[trigger] order[i]) < items.len(),
        forall|i: int, j: int| 0 <= i < j < order.len() ==> order[i] != order[j],
    ensures
        is_arranged(arranged@, items@, order@),
{
    let ghost input = items@;
    let mut slots: Vec<Option<T>> = Vec::new();
    for item in it: items
        invariant
            it.seq() == input,
            slots.len() == it.index(),
            forall|k: int| 0 <= k < slots.len() ==> slots[k] == Some(input[k]),
    {
        slots.push(Some(item));
    }
    let mut arranged: Vec<T> = Vec::new();
    let mut i: usize = 0;
    while i < order.len()
        invariant
            i <= order.len(),
            slots.len() == input.len(),
            forall|k: int| 0 <= k < order.len() ==> (#[trigger] order[k]) < input.len(),
            forall|a: int, b: int| 0 <= a < b < order.len() ==> order[a] != order[b],
            arranged.len() == i,
            forall|k: int| 0 <= k < i ==> arranged[k] == input[order[k] as int],
            forall|k: int|
                0 <= k < slots.len() ==> (#[trigger] slots[k]) == (if exists|a: int|
                    0 <= a < i && order[a] == k {
                    None
                } else {
                    Some(input[k])
                }),
        decreases order.len() - i,
    {
        let at = order[i];
        assert(!exists|a: int| 0 <= a < i && order[a] == at);
        let item = slots[at].take();
        arranged.push(item.unwrap());
        i += 1;
    }
    arranged
}

/// Sorts a listing: directories before files, each group by lowercase name.
/// Entries that tie keep their order.
pub fn sort_entries(entries: Vec<FileEntry>) -> (sorted: Vec<FileEntry>)
    ensures
        is_sorted_listing(entry_views(sorted@), entry_views(entries@)),
{
    let mut keys: Vec<SortKey> = Vec::new();
    let mut i: usize = 0;
    while i < entries.len()
        invariant
            i <= entries.len(),
            keys.len() == i,
            forall|k: int| 0 <= k < i ==> (#[trigger] keys[k])@ == listing_key(entries[k]@),
        decreases entries.len() - i,
    {
        let folded_name = fold_case(entries[i].name.as_str());
        keys.push(SortKey { is_dir: entries[i].is_dir, folded_name });
        i += 1;
    }
    assert(key_views(keys@) =~= listing_keys(entry_views(entries@)));
    let order = sorted_order(&keys);
    proof {
        let views = listing_keys(entry_views(entries@));
        assert forall|a: int, b: int| 0 <= a < b < order.len() implies order[a] != order[b] by {
            assert(ranks_before(views, order[a] as int, order[b] as int));
        }
    }
    let ghost input = entries@;
    let sorted = arrange(entries, &order);
    assert(is_arranged(entry_views(sorted@), entry_views(input), order@));
    sorted
}

} // verus!
