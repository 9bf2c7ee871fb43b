//! What holds of every plan, proved from the definitions that the sorter's
//! contracts use.

use vstd::prelude::*;
use crate::entry::EntryView;
use crate::error::ErrorKind;
use crate::paths::{joined, lemma_join_keeps_part};
use crate::plan::{
    destination_of, entries_of, files_before, folder_of, folders_through, opens, operation_for,
    operation_of, operations_for, pair_of, pairs_of, passes, plan_of, refusal, refused,
    relocated, seen_through, stops_at, OperationView, Pair, Sighting,
};

verus! {

/// Planning never forgets a folder and never reorders them: the folders made
/// before stay in front, and new ones are added behind.
pub proof fn lemma_seen_extends(
    dst: Seq<char>,
    seen: Seq<Seq<char>>,
    entries: Seq<EntryView>,
    n: int,
)
    requires
        0 <= n <= entries.len(),
    ensures
        seen.len() <= seen_through(dst, seen, entries, n).len(),
        seen_through(dst, seen, entries, n).take(seen.len() as int) == seen,
    decreases n,
{
    if n > 0 {
        lemma_seen_extends(dst, seen, entries, n - 1);
    }
}

/// A folder counts as made after `n` entries exactly if it was made before
/// the run or one of those entries is a file that belongs into it.
pub proof fn lemma_seen_membership(
    dst: Seq<char>,
    seen: Seq<Seq<char>>,
    entries: Seq<EntryView>,
    n: int,
    folder: Seq<char>,
)
    requires
        0 <= n <= entries.len(),
    ensures
        seen_through(dst, seen, entries, n).contains(folder) <==> (seen.contains(folder) || exists|
            i: int,
        |
            0 <= i < n && folder_of(dst, #[trigger] entries[i]) == Some(folder)),
    decreases n,
{
    if n > 0 {
        lemma_seen_membership(dst, seen, entries, n - 1, folder);
        let before = seen_through(dst, seen, entries, n - 1);
        let after = seen_through(dst, seen, entries, n);
        let last = entries[n - 1];
        if opens(dst, before, last) {
            assert(after[before.len() as int] == folder_of(dst, last)->0);
            if before.contains(folder) {
                let j = choose|j: int| 0 <= j < before.len() && before[j] == folder;
                assert(after[j] == folder);
            }
        }
    }
}

/// Planning makes no folder twice: if no folder was recorded twice before,
/// none is after `n` entries.
pub proof fn lemma_seen_distinct(
    dst: Seq<char>,
    seen: Seq<Seq<char>>,
    entries: Seq<EntryView>,
    n: int,
)
    requires
        0 <= n <= entries.len(),
        seen.no_duplicates(),
    ensures
        seen_through(dst, seen, entries, n).no_duplicates(),
    decreases n,
{
    if n > 0 {
        lemma_seen_distinct(dst, seen, entries, n - 1);
    }
}

/// Whether the operation at the place `k` is that of the relocated `entry`:
/// it takes the entry from its own path to its destination.
pub open spec fn owns(
    entry: EntryView,
    k: int,
    operations: Seq<OperationView>,
    move_files: bool,
    dst: Seq<char>,
) -> bool {
    &&& relocated(entry)
    &&& 0 <= k < operations.len()
    &&& operations[k] == operation_for(move_files, (entry.path, destination_of(dst, entry)->0))
}

/// The folders that a run adds are new: none of them was made before, and
/// none is added twice.
proof fn lemma_added_folders_new(
    dst: Seq<char>,
    seen: Seq<Seq<char>>,
    entries: Seq<EntryView>,
    n: int,
)
    requires
        0 <= n <= entries.len(),
    ensures
        seen_through(dst, seen, entries, n).skip(seen.len() as int).no_duplicates(),
        forall|folder: Seq<char>|
            #![trigger seen.contains(folder)]
            seen_through(dst, seen, entries, n).skip(seen.len() as int).contains(folder)
                ==> !seen.contains(folder),
    decreases n,
{
    let after = seen_through(dst, seen, entries, n);
    let added = after.skip(seen.len() as int);
    lemma_seen_extends(dst, seen, entries, n);
    if n > 0 {
        lemma_added_folders_new(dst, seen, entries, n - 1);
        lemma_seen_extends(dst, seen, entries, n - 1);
        let before = seen_through(dst, seen, entries, n - 1);
        let earlier = before.skip(seen.len() as int);
        if opens(dst, before, entries[n - 1]) {
            let new = folder_of(dst, entries[n - 1])->0;
            assert(added =~= earlier.push(new));
            assert forall|j: int| 0 <= j < earlier.len() implies earlier[j] != new by {
                assert(earlier[j] == before[j + seen.len()]);
            }
            assert forall|folder: Seq<char>| added.contains(folder) implies !seen.contains(
                folder,
            ) by {
                if folder == new && seen.contains(folder) {
                    let m = choose|m: int| 0 <= m < seen.len() && seen[m] == folder;
                    assert(before[m] == before.take(seen.len() as int)[m]);
                }
            }
        }
    }
}

/// One folder per day: the folders that a plan orders are all different, and
/// a folder is ordered exactly if the run has not made it before and some
/// relocated entry belongs into it. So however many files share a day, their
/// folder is made once.
pub proof fn lemma_one_folder_per_day(
    dst: Seq<char>,
    seen: Seq<Seq<char>>,
    entries: Seq<EntryView>,
)
    ensures
        plan_of(dst, seen, entries).directories.no_duplicates(),
        forall|folder: Seq<char>|
            #![trigger plan_of(dst, seen, entries).directories.contains(folder)]
            plan_of(dst, seen, entries).directories.contains(folder) <==> (!seen.contains(folder)
                && exists|i: int|
                0 <= i < entries.len() && folder_of(dst, #[trigger] entries[i]) == Some(folder)),
{
    let n = entries.len() as int;
    let after = seen_through(dst, seen, entries, n);
    let added = plan_of(dst, seen, entries).directories;
    lemma_added_folders_new(dst, seen, entries, n);
    lemma_seen_extends(dst, seen, entries, n);
    assert forall|folder: Seq<char>|
        #![trigger added.contains(folder)]
        added.contains(folder) <==> (!seen.contains(folder) && exists|i: int|
            0 <= i < entries.len() && folder_of(dst, #[trigger] entries[i]) == Some(folder)) by {
        lemma_seen_membership(dst, seen, entries, n, folder);
        if added.contains(folder) {
            let j = choose|j: int| 0 <= j < added.len() && added[j] == folder;
            assert(after[j + seen.len()] == folder);
        }
        if after.contains(folder) && !seen.contains(folder) {
            let j = choose|j: int| 0 <= j < after.len() && after[j] == folder;
            if j < seen.len() {
                assert(seen[j] == after.take(seen.len() as int)[j]);
            } else {
                assert(added[j - seen.len()] == folder);
            }
        }
    }
}

/// Exactly one order for each day: where a relocated entry's folder was not
/// made before the run, the plan orders it at one place and at no other,
/// however many entries share that day.
pub proof fn lemma_folder_ordered_once(
    dst: Seq<char>,
    seen: Seq<Seq<char>>,
    entries: Seq<EntryView>,
    i: int,
) -> (k: int)
    requires
        0 <= i < entries.len(),
        relocated(entries[i]),
        !seen.contains(folder_of(dst, entries[i])->0),
    ensures
        0 <= k < plan_of(dst, seen, entries).directories.len(),
        plan_of(dst, seen, entries).directories[k] == folder_of(dst, entries[i])->0,
        forall|j: int|
            0 <= j < plan_of(dst, seen, entries).directories.len() && #[trigger] plan_of(
                dst,
                seen,
                entries,
            ).directories[j] == folder_of(dst, entries[i])->0 ==> j == k,
{
    let ordered = plan_of(dst, seen, entries).directories;
    let folder = folder_of(dst, entries[i])->0;
    lemma_one_folder_per_day(dst, seen, entries);
    assert(ordered.contains(folder));
    choose|k: int| 0 <= k < ordered.len() && ordered[k] == folder
}

/// Every folder is there before it is used: the folder of each relocated
/// entry was either made before the run or is among those that the plan
/// orders.
pub proof fn lemma_folders_ready(
    dst: Seq<char>,
    seen: Seq<Seq<char>>,
    entries: Seq<EntryView>,
    i: int,
)
    requires
        0 <= i < entries.len(),
        relocated(entries[i]),
    ensures
        seen.contains(folder_of(dst, entries[i])->0) || plan_of(
            dst,
            seen,
            entries,
        ).directories.contains(folder_of(dst, entries[i])->0),
{
    lemma_one_folder_per_day(dst, seen, entries);
}

/// The plan follows the entries one for one: a directory is passed over, and
/// a file goes from its own path to its file name inside the folder of its
/// day, below the destination root.
pub proof fn lemma_plan_follows_entries(
    dst: Seq<char>,
    seen: Seq<Seq<char>>,
    entries: Seq<EntryView>,
    i: int,
)
    requires
        0 <= i < entries.len(),
    ensures
        plan_of(dst, seen, entries).files.len() == entries.len(),
        entries[i].is_dir ==> plan_of(dst, seen, entries).files[i] is None,
        relocated(entries[i]) ==> plan_of(dst, seen, entries).files[i] == Some(
            (entries[i].path, joined(joined(dst, entries[i].date->0), entries[i].file_name)),
        ),
{
}

/// The operations for the first `n` items of a plan, one per relocated entry
/// and in the entries' order: the entry `i` has the operation at the place
/// `files_before(entries, i)`.
proof fn lemma_operations_prefix(move_files: bool, dst: Seq<char>, entries: Seq<EntryView>, n: int)
    requires
        0 <= n <= entries.len(),
    ensures
        operations_for(move_files, pairs_of(dst, entries).take(n)).len() == files_before(
            entries,
            n,
        ),
        forall|i: int|
            #![trigger entries[i]]
            0 <= i < n && relocated(entries[i]) ==> owns(
                entries[i],
                files_before(entries, i),
                operations_for(move_files, pairs_of(dst, entries).take(n)),
                move_files,
                dst,
            ),
    decreases n,
{
    let files = pairs_of(dst, entries);
    if n > 0 {
        lemma_operations_prefix(move_files, dst, entries, n - 1);
        files.lemma_filter_map_take_succ(operation_of(move_files), n - 1);
        let shorter = operations_for(move_files, files.take(n - 1));
        let longer = operations_for(move_files, files.take(n));
        if relocated(entries[n - 1]) {
            assert(longer =~= shorter.push(
                operation_for(move_files, pair_of(dst, entries[n - 1])->0),
            ));
        } else {
            assert(longer =~= shorter);
        }
        assert forall|i: int|
            #![trigger entries[i]]
            0 <= i < n - 1 && relocated(entries[i]) implies owns(
            entries[i],
            files_before(entries, i),
            longer,
            move_files,
            dst,
        ) by {
            assert(owns(entries[i], files_before(entries, i), shorter, move_files, dst));
        }
    } else {
        assert(files.take(0) =~= Seq::<Option<Pair>>::empty());
    }
}

/// The count of relocated entries never falls along the entries.
proof fn lemma_files_before_grows(entries: Seq<EntryView>, i: int, j: int)
    requires
        0 <= i <= j,
    ensures
        0 <= files_before(entries, i) <= files_before(entries, j),
    decreases j,
{
    if i < j {
        lemma_files_before_grows(entries, i, j - 1);
    } else if j > 0 {
        lemma_files_before_grows(entries, 0, j - 1);
    }
}

/// Each file is put into place exactly once: the operations of a plan are as
/// many as the relocated entries; the entry `i` owns the operation at the
/// place `files_before(entries, i)`; and no later entry has that place.
pub proof fn lemma_one_operation_per_file(
    move_files: bool,
    dst: Seq<char>,
    seen: Seq<Seq<char>>,
    entries: Seq<EntryView>,
    i: int,
)
    requires
        0 <= i < entries.len(),
        relocated(entries[i]),
    ensures
        operations_for(move_files, plan_of(dst, seen, entries).files).len() == files_before(
            entries,
            entries.len() as int,
        ),
        owns(
            entries[i],
            files_before(entries, i),
            operations_for(move_files, plan_of(dst, seen, entries).files),
            move_files,
            dst,
        ),
        forall|j: int|
            i < j < entries.len() ==> files_before(entries, i) < #[trigger] files_before(
                entries,
                j,
            ),
{
    let n = entries.len() as int;
    let files = plan_of(dst, seen, entries).files;
    lemma_operations_prefix(move_files, dst, entries, n);
    assert(files.take(n) =~= files);
    assert forall|j: int| i < j < entries.len() implies files_before(entries, i)
        < #[trigger] files_before(entries, j) by {
        lemma_files_before_grows(entries, i + 1, j);
    }
}

/// No operation without a file: the operation at the place `k` is owned by a
/// relocated entry, the `k`-th of them. So nothing is done to a directory.
pub proof fn lemma_operation_has_owner(
    move_files: bool,
    dst: Seq<char>,
    seen: Seq<Seq<char>>,
    entries: Seq<EntryView>,
    k: int,
) -> (i: int)
    requires
        0 <= k < operations_for(move_files, plan_of(dst, seen, entries).files).len(),
    ensures
        0 <= i < entries.len(),
        files_before(entries, i) == k,
        owns(
            entries[i],
            k,
            operations_for(move_files, plan_of(dst, seen, entries).files),
            move_files,
            dst,
        ),
{
    let n = entries.len() as int;
    let files = plan_of(dst, seen, entries).files;
    lemma_operations_prefix(move_files, dst, entries, n);
    assert(files.take(n) =~= files);
    lemma_kth_file(entries, n, k)
}

/// Among the first `n` entries, the relocated one that has `k` relocated
/// entries before it.
proof fn lemma_kth_file(entries: Seq<EntryView>, n: int, k: int) -> (i: int)
    requires
        0 <= n <= entries.len(),
        0 <= k < files_before(entries, n),
    ensures
        0 <= i < n,
        relocated(entries[i]),
        files_before(entries, i) == k,
    decreases n,
{
    if k < files_before(entries, n - 1) {
        lemma_kth_file(entries, n - 1, k)
    } else {
        n - 1
    }
}

/// The mode decides every operation: where files are copied each operation
/// is a copy, which leaves its source in place, and where files are moved
/// each is a rename. Each goes from and to what one item of the plan says.
pub proof fn lemma_mode_decides(move_files: bool, files: Seq<Option<Pair>>, k: int)
    requires
        0 <= k < operations_for(move_files, files).len(),
    ensures
        match operations_for(move_files, files)[k] {
            OperationView::Copy { from, to } => !move_files && files.contains(Some((from, to))),
            OperationView::Rename { from, to } => move_files && files.contains(Some((from, to))),
        },
{
    let operations = operations_for(move_files, files);
    assert(operations.contains(operations[k]));
    files.lemma_filter_map_contains(operation_of(move_files), operations[k]);
}

/// No two files of a run go to the same place: two relocated entries whose
/// file names differ, and hold no `/`, have different destinations.
pub proof fn lemma_destinations_differ(dst: Seq<char>, one: EntryView, other: EntryView)
    requires
        relocated(one),
        relocated(other),
        one.file_name != other.file_name,
        !one.file_name.contains('/'),
        !other.file_name.contains('/'),
    ensures
        destination_of(dst, one) != destination_of(dst, other),
{
    if destination_of(dst, one) == destination_of(dst, other) {
        lemma_join_keeps_part(
            folder_of(dst, one)->0,
            one.file_name,
            folder_of(dst, other)->0,
            other.file_name,
        );
    }
}

/// Planning stops at one place only.
pub proof fn lemma_stop_is_unique(sightings: Seq<Sighting>, j: int, k: int)
    requires
        stops_at(sightings, j),
        stops_at(sightings, k),
    ensures
        j == k,
{
    if j < k {
        assert(!refused(sightings[j].0, sightings[j].1));
    } else if k < j {
        assert(!refused(sightings[k].0, sightings[k].1));
    }
}

/// Planning stops as soon as it can: where any sighting is refused, there is
/// a first one, and planning stops there.
pub proof fn lemma_first_refusal(sightings: Seq<Sighting>, i: int) -> (k: int)
    requires
        0 <= i < sightings.len(),
        refused(sightings[i].0, sightings[i].1),
    ensures
        0 <= k <= i,
        stops_at(sightings, k),
    decreases i,
{
    if exists|j: int| 0 <= j < i && refused(sightings[j].0, sightings[j].1) {
        let j = choose|j: int| 0 <= j < i && refused(sightings[j].0, sightings[j].1);
        lemma_first_refusal(sightings, j)
    } else {
        i
    }
}

/// Entries that are not relocated open no folder.
proof fn lemma_no_file_no_folder(
    dst: Seq<char>,
    seen: Seq<Seq<char>>,
    entries: Seq<EntryView>,
    n: int,
)
    requires
        0 <= n <= entries.len(),
        forall|i: int| 0 <= i < n ==> !relocated(#[trigger] entries[i]),
    ensures
        seen_through(dst, seen, entries, n) == seen,
    decreases n,
{
    if n > 0 {
        lemma_no_file_no_folder(dst, seen, entries, n - 1);
        assert(!relocated(entries[n - 1]));
    }
}

/// A second run over the same source collides: if a first run got through,
/// and the same entries are sighted again with something at the destination
/// of every file, then planning stops at the first file with a destination
/// collision, reported at the place where the first run put that file. No
/// folder has been ordered by then, so the second run changes nothing.
pub proof fn lemma_second_run_collides(
    dst: Seq<char>,
    seen: Seq<Seq<char>>,
    first: Seq<Sighting>,
    second: Seq<Sighting>,
) -> (k: int)
    requires
        passes(first),
        entries_of(second) == entries_of(first),
        forall|i: int|
            #![trigger second[i]]
            0 <= i < second.len() && !second[i].0.is_dir ==> second[i].1,
        exists|i: int| 0 <= i < first.len() && !(#[trigger] first[i]).0.is_dir,
    ensures
        stops_at(second, k),
        forall|j: int| stops_at(second, j) ==> j == k,
        !second[k].0.is_dir,
        refusal(dst, second[k].0).kind == ErrorKind::DestinationCollision,
        plan_of(dst, seen, entries_of(first)).files[k] == Some(
            (first[k].0.path, refusal(dst, second[k].0).path),
        ),
        folders_through(dst, seen, entries_of(second), k) == Seq::<Seq<char>>::empty(),
{
    let i = choose|i: int| 0 <= i < first.len() && !(#[trigger] first[i]).0.is_dir;
    assert(entries_of(first).len() == first.len());
    assert(entries_of(second).len() == second.len());
    assert forall|j: int| 0 <= j < second.len() implies second[j].0 == first[j].0 by {
        assert(entries_of(first)[j] == first[j].0);
        assert(entries_of(second)[j] == second[j].0);
    }
    let k = lemma_first_refusal(second, i);
    assert(!refused(first[k].0, first[k].1));
    assert forall|j: int| stops_at(second, j) implies j == k by {
        lemma_stop_is_unique(second, j, k);
    }
    assert forall|j: int| 0 <= j < k implies !relocated(#[trigger] entries_of(second)[j]) by {
        assert(!refused(second[j].0, second[j].1));
    }
    lemma_no_file_no_folder(dst, seen, entries_of(second), k);
    assert(folders_through(dst, seen, entries_of(second), k) =~= Seq::<Seq<char>>::empty());
    k
}

} // verus!
