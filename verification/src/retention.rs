//! Which backup snapshots are kept: the ordering of snapshots by age.

use vstd::prelude::*;

use crate::storage::{DirEntry, Entry};
use crate::text::{parse_u64, u64_of_text};

verus! {

/// How many snapshots are kept.
pub const MAX_BACKUPS_COUNT: usize = 3;

/// A snapshot directory: the time in its name, and the name.
#[derive(Debug, PartialEq, Eq)]
pub struct Snapshot {
    pub stamp: u64,
    pub name: String,
}

/// What a `Snapshot` stands for.
pub struct Stamped {
    pub stamp: u64,
    pub name: Seq<char>,
}

impl View for Snapshot {
    type V = Stamped;

    open spec fn view(&self) -> Stamped {
        Stamped { stamp: self.stamp, name: self.name@ }
    }
}

impl DeepView for Snapshot {
    type V = Stamped;

    open spec fn deep_view(&self) -> Stamped {
        self@
    }
}

/// The snapshots among `entries`, in the order of the listing: the
/// directories whose name is an unsigned number.
pub open spec fn snapshots(entries: Seq<Entry>) -> Seq<Stamped>
    decreases entries.len(),
{
    if entries.len() == 0 {
        Seq::empty()
    } else {
        let before = snapshots(entries.drop_last());
        let entry = entries.last();
        match u64_of_text(entry.name) {
            Some(stamp) => if entry.is_dir {
                before.push(Stamped { stamp, name: entry.name })
            } else {
                before
            },
            None => before,
        }
    }
}

/// `sorted` with `item` put behind the last snapshot that is not younger than it.
pub open spec fn insert_by_age(sorted: Seq<Stamped>, item: Stamped) -> Seq<Stamped>
    decreases sorted.len(),
{
    if sorted.len() == 0 {
        seq![item]
    } else if sorted.last().stamp <= item.stamp {
        sorted.push(item)
    } else {
        insert_by_age(sorted.drop_last(), item).push(sorted.last())
    }
}

/// `items` from the oldest to the youngest; snapshots of one age keep their order.
pub open spec fn oldest_first(items: Seq<Stamped>) -> Seq<Stamped>
    decreases items.len(),
{
    if items.len() == 0 {
        Seq::empty()
    } else {
        insert_by_age(oldest_first(items.drop_last()), items.last())
    }
}

/// Whether the snapshots of `items` stand from the oldest to the youngest.
pub open spec fn by_age(items: Seq<Stamped>) -> bool {
    forall|i: int, j: int| 0 <= i <= j < items.len() ==> items[i].stamp <= items[j].stamp
}

/// The snapshots that pruning removes, oldest first: all but the youngest
/// `MAX_BACKUPS_COUNT`.
pub open spec fn doomed(entries: Seq<Entry>) -> Seq<Stamped> {
    let found = snapshots(entries);
    if found.len() <= MAX_BACKUPS_COUNT {
        Seq::empty()
    } else {
        oldest_first(found).take(found.len() - MAX_BACKUPS_COUNT)
    }
}

/// The snapshots that pruning leaves.
pub open spec fn kept(entries: Seq<Entry>) -> Seq<Stamped> {
    let found = snapshots(entries);
    if found.len() <= MAX_BACKUPS_COUNT {
        found
    } else {
        oldest_first(found).skip(found.len() - MAX_BACKUPS_COUNT)
    }
}

/// Putting a snapshot into an ordered run keeps the run ordered, adds the
/// snapshot and nothing else.
pub proof fn lemma_insert_by_age(sorted: Seq<Stamped>, item: Stamped)
    requires
        by_age(sorted),
    ensures
        by_age(insert_by_age(sorted, item)),
        insert_by_age(sorted, item).len() == sorted.len() + 1,
        insert_by_age(sorted, item).to_multiset() == sorted.to_multiset().insert(item),
    decreases sorted.len(),
{
    let out = insert_by_age(sorted, item);
    if sorted.len() == 0 {
        assert(out =~= sorted.push(item));
        vstd::seq_lib::to_multiset_build(sorted, item);
    } else if sorted.last().stamp <= item.stamp {
        vstd::seq_lib::to_multiset_build(sorted, item);
        assert forall|i: int, j: int| 0 <= i <= j < out.len() implies out[i].stamp
            <= out[j].stamp by {
            if j == sorted.len() && i < sorted.len() {
                assert(sorted[i].stamp <= sorted[sorted.len() - 1].stamp);
            }
        }
    } else {
        let front = sorted.drop_last();
        assert(by_age(front)) by {
            assert forall|i: int, j: int| 0 <= i <= j < front.len() implies front[i].stamp
                <= front[j].stamp by {
                assert(sorted[i].stamp <= sorted[j].stamp);
            }
        }
        lemma_insert_by_age(front, item);
        let inner = insert_by_age(front, item);
        assert(sorted =~= front.push(sorted.last()));
        vstd::seq_lib::to_multiset_build(front, sorted.last());
        vstd::seq_lib::to_multiset_build(inner, sorted.last());
        assert(out.to_multiset() =~= sorted.to_multiset().insert(item));
        assert forall|i: int, j: int| 0 <= i <= j < out.len() implies out[i].stamp
            <= out[j].stamp by {
            if j == inner.len() && i < inner.len() {
                // every snapshot of `inner` is `item` or one of `front`
                assert(inner.to_multiset().count(inner[i]) > 0) by {
                    inner.to_multiset_ensures();
                    assert(inner.contains(inner[i]));
                }
                if inner[i] != item {
                    assert(front.to_multiset().count(inner[i]) > 0);
                    front.to_multiset_ensures();
                    assert(front.contains(inner[i]));
                    let k = choose|k: int| 0 <= k < front.len() && front[k] == inner[i];
                    assert(sorted[k].stamp <= sorted[sorted.len() - 1].stamp);
                }
            } else if j < inner.len() {
                assert(inner[i].stamp <= inner[j].stamp);
            }
        }
    }
}

/// Ordering by age gives an ordered run of the same snapshots.
pub proof fn lemma_oldest_first(items: Seq<Stamped>)
    ensures
        by_age(oldest_first(items)),
        oldest_first(items).len() == items.len(),
        oldest_first(items).to_multiset() == items.to_multiset(),
    decreases items.len(),
{
    if items.len() == 0 {
        assert(items =~= oldest_first(items));
    } else {
        lemma_oldest_first(items.drop_last());
        lemma_insert_by_age(oldest_first(items.drop_last()), items.last());
        assert(items =~= items.drop_last().push(items.last()));
        vstd::seq_lib::to_multiset_build(items.drop_last(), items.last());
    }
}

/// Where a snapshot goes into an ordered run: behind the last one that is
/// not younger than it.
proof fn lemma_insert_place(sorted: Seq<Stamped>, item: Stamped, place: int)
    requires
        0 <= place <= sorted.len(),
        forall|k: int| place <= k < sorted.len() ==> sorted[k].stamp > item.stamp,
        place == 0 || sorted[place - 1].stamp <= item.stamp,
    ensures
        insert_by_age(sorted, item) == sorted.insert(place, item),
    decreases sorted.len(),
{
    if sorted.len() == 0 {
        assert(seq![item] =~= sorted.insert(place, item));
    } else if place == sorted.len() {
        assert(sorted.push(item) =~= sorted.insert(place, item));
    } else {
        lemma_insert_place(sorted.drop_last(), item, place);
        assert(sorted.drop_last().insert(place, item).push(sorted.last()) =~= sorted.insert(
            place,
            item,
        ));
    }
}

/// The snapshots among `entries`, in the order of the listing.
pub fn find_snapshots(entries: &Vec<DirEntry>) -> (found: Vec<Snapshot>)
    ensures
        found.deep_view() == snapshots(entries.deep_view()),
{
    let mut found: Vec<Snapshot> = Vec::new();
    let mut i: usize = 0;
    assert(found.deep_view() =~= Seq::<Stamped>::empty());
    assert(entries.deep_view().take(0) =~= Seq::<Entry>::empty());
    while i < entries.len()
        invariant
            i <= entries.len(),
            found.deep_view() == snapshots(entries.deep_view().take(i as int)),
        decreases entries.len() - i,
    {
        let entry = &entries[i];
        let ghost before = found.deep_view();
        proof {
            let upto = entries.deep_view().take(i + 1);
            assert(upto.drop_last() =~= entries.deep_view().take(i as int));
            assert(upto.last() == entry@);
        }
        if entry.is_dir {
            match parse_u64(entry.name.as_str()) {
                Some(stamp) => {
                    found.push(Snapshot { stamp, name: entry.name.clone() });
                    assert(found.deep_view() =~= before.push(
                        Stamped { stamp, name: entry.name@ },
                    ));
                },
                None => {},
            }
        }
        i = i + 1;
    }
    assert(entries.deep_view().take(i as int) =~= entries.deep_view());
    found
}

/// `items` from the oldest to the youngest; snapshots of one age keep their order.
pub fn sort_oldest_first(items: &Vec<Snapshot>) -> (sorted: Vec<Snapshot>)
    ensures
        sorted.deep_view() == oldest_first(items.deep_view()),
{
    let mut sorted: Vec<Snapshot> = Vec::new();
    let mut i: usize = 0;
    assert(sorted.deep_view() =~= Seq::<Stamped>::empty());
    assert(items.deep_view().take(0) =~= Seq::<Stamped>::empty());
    while i < items.len()
        invariant
            i <= items.len(),
            sorted.len() == i,
            sorted.deep_view() == oldest_first(items.deep_view().take(i as int)),
        decreases items.len() - i,
    {
        let item = Snapshot { stamp: items[i].stamp, name: items[i].name.clone() };
        let ghost before = sorted.deep_view();
        let mut place: usize = sorted.len();
        while place > 0 && sorted[place - 1].stamp > item.stamp
            invariant
                place <= sorted.len(),
                before == sorted.deep_view(),
                forall|k: int| place <= k < sorted.len() ==> before[k].stamp > item.stamp,
            decreases place,
        {
            assert(before[place - 1] == sorted@[place - 1]@);
            place = place - 1;
        }
        proof {
            if place > 0 {
                assert(before[place - 1] == sorted@[place - 1]@);
            }
            lemma_insert_place(before, item@, place as int);
            let upto = items.deep_view().take(i + 1);
            assert(upto.drop_last() =~= items.deep_view().take(i as int));
            assert(upto.last() == item@);
        }
        sorted.insert(place, item);
        assert(sorted.deep_view() =~= before.insert(place as int, item@));
        i = i + 1;
    }
    assert(items.deep_view().take(i as int) =~= items.deep_view());
    sorted
}

/// The snapshots to remove, oldest first: all but the youngest
/// `MAX_BACKUPS_COUNT` of the snapshots among `entries`.
pub fn old_snapshots(entries: &Vec<DirEntry>) -> (old: Vec<Snapshot>)
    ensures
        old.deep_view() == doomed(entries.deep_view()),
{
    let found = find_snapshots(entries);
    if found.len() <= MAX_BACKUPS_COUNT {
        let old: Vec<Snapshot> = Vec::new();
        assert(old.deep_view() =~= Seq::<Stamped>::empty());
        return old;
    }
    let mut sorted = sort_oldest_first(&found);
    proof {
        lemma_oldest_first(found.deep_view());
    }
    let ghost all = sorted.deep_view();
    sorted.truncate(found.len() - MAX_BACKUPS_COUNT);
    assert(sorted.deep_view() =~= all.take(found.len() - MAX_BACKUPS_COUNT));
    sorted
}

/// Pruning keeps the youngest snapshots: what it removes and what it leaves
/// are together the snapshots that were there, it leaves `MAX_BACKUPS_COUNT`
/// of them, or all where there are fewer, and none that it removes is
/// younger than one that it leaves.
pub proof fn lemma_retention(entries: Seq<Entry>)
    ensures
        doomed(entries).to_multiset().add(kept(entries).to_multiset()) == snapshots(
            entries,
        ).to_multiset(),
        kept(entries).len() == if snapshots(entries).len() <= MAX_BACKUPS_COUNT {
            snapshots(entries).len()
        } else {
            MAX_BACKUPS_COUNT as nat
        },
        forall|i: int, j: int|
            0 <= i < doomed(entries).len() && 0 <= j < kept(entries).len() ==> doomed(
                entries,
            )[i].stamp <= kept(entries)[j].stamp,
        by_age(doomed(entries)),
{
    let found = snapshots(entries);
    if found.len() <= MAX_BACKUPS_COUNT {
        vstd::seq_lib::lemma_multiset_commutative(Seq::<Stamped>::empty(), found);
        assert(Seq::<Stamped>::empty() + found =~= found);
    } else {
        lemma_oldest_first(found);
        let sorted = oldest_first(found);
        let cut = found.len() - MAX_BACKUPS_COUNT;
        assert(sorted.take(cut) + sorted.skip(cut) =~= sorted);
        vstd::seq_lib::lemma_multiset_commutative(sorted.take(cut), sorted.skip(cut));
        assert forall|i: int, j: int|
            0 <= i < doomed(entries).len() && 0 <= j < kept(entries).len() implies doomed(
            entries,
        )[i].stamp <= kept(entries)[j].stamp by {
            assert(sorted[i].stamp <= sorted[cut + j].stamp);
        }
        assert forall|i: int, j: int| 0 <= i <= j < doomed(entries).len() implies doomed(
            entries,
        )[i].stamp <= doomed(entries)[j].stamp by {
            assert(sorted[i].stamp <= sorted[j].stamp);
        }
    }
}

} // verus!
