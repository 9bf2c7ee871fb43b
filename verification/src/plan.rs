//! What a run decides, stated over plain values: where an entry goes, when
//! it stops the run, and which folders a sequence of entries opens.

use vstd::prelude::*;
use crate::entry::EntryView;
use crate::error::{ErrorKind, SortErrorView};
use crate::paths::joined;

verus! {

/// A source path and the path it is relocated to.
pub type Pair = (Seq<char>, Seq<char>);

/// An entry together with whether something already exists at the place it
/// would go to.
pub type Sighting = (EntryView, bool);

/// Whether the entry is one that gets relocated: a file whose date is known.
pub open spec fn relocated(entry: EntryView) -> bool {
    entry.date is Some && !entry.is_dir
}

/// The folder that collects the entry's day, below the root `dst`. Entries
/// that are not relocated belong to none.
pub open spec fn folder_of(dst: Seq<char>, entry: EntryView) -> Option<Seq<char>> {
    if relocated(entry) {
        Some(joined(dst, entry.date->0))
    } else {
        None
    }
}

/// The path the entry is relocated to: its file name inside its folder.
pub open spec fn destination_of(dst: Seq<char>, entry: EntryView) -> Option<Seq<char>> {
    match folder_of(dst, entry) {
        Some(folder) => Some(joined(folder, entry.file_name)),
        None => None,
    }
}

/// The relocation planned for the entry: none for one that is passed over.
pub open spec fn pair_of(dst: Seq<char>, entry: EntryView) -> Option<Pair> {
    match destination_of(dst, entry) {
        Some(to) => Some((entry.path, to)),
        None => None,
    }
}

/// One thing that the executor does: copy a file, or rename it.
pub enum OperationView {
    Copy { from: Seq<char>, to: Seq<char> },
    Rename { from: Seq<char>, to: Seq<char> },
}

/// How a planned pair is put into place: renamed where files are moved,
/// copied where they are not.
pub open spec fn operation_for(move_files: bool, pair: Pair) -> OperationView {
    if move_files {
        OperationView::Rename { from: pair.0, to: pair.1 }
    } else {
        OperationView::Copy { from: pair.0, to: pair.1 }
    }
}

/// The operation, if any, that an item of a plan calls for.
pub open spec fn operation_of(move_files: bool) -> spec_fn(Option<Pair>) -> Option<OperationView> {
    |file: Option<Pair>|
        match file {
            Some(pair) => Some(operation_for(move_files, pair)),
            None => None,
        }
}

/// The operations that put a plan into place: one for each planned pair, in
/// the plan's order. Entries that were passed over call for none.
pub open spec fn operations_for(move_files: bool, files: Seq<Option<Pair>>) -> Seq<OperationView> {
    files.filter_map(operation_of(move_files))
}

/// Whether the entry stops the run: its date is missing, or it is a file and
/// its destination is taken.
pub open spec fn refused(entry: EntryView, occupied: bool) -> bool {
    entry.date is None || (!entry.is_dir && occupied)
}

/// The error with which a refused entry stops the run. A missing date is
/// reported at the entry's own path, a collision at the destination.
pub open spec fn refusal(dst: Seq<char>, entry: EntryView) -> SortErrorView {
    match destination_of(dst, entry) {
        Some(to) => SortErrorView { kind: ErrorKind::DestinationCollision, path: to },
        None => SortErrorView { kind: ErrorKind::MetadataUnavailable, path: entry.path },
    }
}

/// Whether the entry's folder still has to be made, given the folders `seen`
/// that were made before.
pub open spec fn opens(dst: Seq<char>, seen: Seq<Seq<char>>, entry: EntryView) -> bool {
    folder_of(dst, entry) matches Some(folder) && !seen.contains(folder)
}

/// The folders made once the entry has been planned.
pub open spec fn seen_after(dst: Seq<char>, seen: Seq<Seq<char>>, entry: EntryView) -> Seq<
    Seq<char>,
> {
    if opens(dst, seen, entry) {
        seen.push(folder_of(dst, entry)->0)
    } else {
        seen
    }
}

/// What has to happen for one entry that was let through.
pub struct StepView {
    /// The folder to make first, if it is new.
    pub create_dir: Option<Seq<char>>,
    /// The entry's relocation; none for an entry that is passed over.
    pub pair: Option<Pair>,
}

/// The step that an entry calls for, given the folders made before it.
pub open spec fn step_for(dst: Seq<char>, seen: Seq<Seq<char>>, entry: EntryView) -> StepView {
    StepView {
        create_dir: if opens(dst, seen, entry) {
            folder_of(dst, entry)
        } else {
            None
        },
        pair: pair_of(dst, entry),
    }
}

/// The folders made once the first `n` of `entries` have been planned, in the
/// order in which they were made, starting from `seen`.
pub open spec fn seen_through(
    dst: Seq<char>,
    seen: Seq<Seq<char>>,
    entries: Seq<EntryView>,
    n: int,
) -> Seq<Seq<char>>
    decreases n,
{
    if n <= 0 {
        seen
    } else {
        seen_after(dst, seen_through(dst, seen, entries, n - 1), entries[n - 1])
    }
}

/// What planning hands to the executor.
pub struct PlanView {
    /// The folders to make, in the order in which they are first needed.
    pub directories: Seq<Seq<char>>,
    /// For each entry, in order, its relocation; none for a directory.
    pub files: Seq<Option<Pair>>,
}

/// The folders that the first `n` of `entries` open, in the order in which
/// they are first needed: those that were not among `seen` before.
pub open spec fn folders_through(
    dst: Seq<char>,
    seen: Seq<Seq<char>>,
    entries: Seq<EntryView>,
    n: int,
) -> Seq<Seq<char>> {
    seen_through(dst, seen, entries, n).skip(seen.len() as int)
}

/// The relocation of each of `entries`, in their order.
pub open spec fn pairs_of(dst: Seq<char>, entries: Seq<EntryView>) -> Seq<Option<Pair>> {
    Seq::new(entries.len(), |i: int| pair_of(dst, entries[i]))
}

/// The plan for `entries`, none of which is refused, in a run that had made
/// the folders `seen` before: every entry's own relocation, and the folders
/// that were not there yet.
pub open spec fn plan_of(
    dst: Seq<char>,
    seen: Seq<Seq<char>>,
    entries: Seq<EntryView>,
) -> PlanView {
    PlanView {
        directories: folders_through(dst, seen, entries, entries.len() as int),
        files: pairs_of(dst, entries),
    }
}

/// How planning broke off.
pub struct AbortedView {
    /// Why the run stops.
    pub error: SortErrorView,
    /// The folders that were ordered before planning stopped.
    pub directories: Seq<Seq<char>>,
}

/// How planning breaks off at the entry `k`: with that entry's error, and
/// with the folders that the entries before it have opened.
pub open spec fn aborted_at(
    dst: Seq<char>,
    seen: Seq<Seq<char>>,
    entries: Seq<EntryView>,
    k: int,
) -> AbortedView {
    AbortedView {
        error: refusal(dst, entries[k]),
        directories: folders_through(dst, seen, entries, k),
    }
}

/// The entries of a sequence of sightings.
pub open spec fn entries_of(sightings: Seq<Sighting>) -> Seq<EntryView> {
    Seq::new(sightings.len(), |i: int| sightings[i].0)
}

/// How many of the first `n` entries are relocated.
pub open spec fn files_before(entries: Seq<EntryView>, n: int) -> int
    decreases n,
{
    if n <= 0 {
        0
    } else {
        files_before(entries, n - 1) + if relocated(entries[n - 1]) {
            1int
        } else {
            0int
        }
    }
}

/// Whether `k` is the sighting at which planning stops: the first that is
/// refused.
pub open spec fn stops_at(sightings: Seq<Sighting>, k: int) -> bool {
    &&& 0 <= k < sightings.len()
    &&& refused(sightings[k].0, sightings[k].1)
    &&& forall|j: int|
        #![trigger sightings[j]]
        0 <= j < k ==> !refused(sightings[j].0, sightings[j].1)
}

/// Whether planning gets through all sightings.
pub open spec fn passes(sightings: Seq<Sighting>) -> bool {
    forall|j: int|
        #![trigger sightings[j]]
        0 <= j < sightings.len() ==> !refused(sightings[j].0, sightings[j].1)
}

} // verus!
