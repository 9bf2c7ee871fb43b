//! The sorter: the state of one run and the decisions it takes.

use vstd::prelude::*;
use crate::entry::Entry;
use crate::error::{ErrorKind, SortError, SortErrorView};
use crate::paths::join;
use crate::plan::{
    aborted_at, destination_of, entries_of, folders_through, operation_for, operation_of,
    operations_for, pair_of, pairs_of, passes, plan_of, refusal, refused, seen_after,
    seen_through, step_for, stops_at, AbortedView, OperationView, PlanView, StepView,
};

verus! {

/// What a run is asked to do.
#[derive(Clone, Debug, PartialEq, Eq)]
pub struct Args {
    /// Source directory to look for files to sort.
    pub src: String,
    /// Destination directory where folders will be created.
    pub dst: String,
    /// Move files instead of copying them.
    pub move_files: bool,
}

impl Args {
    /// What has to be done before a run can start, given whether the source
    /// and the destination root exist.
    ///
    /// Without the source there is no run, and nothing is to be made. With it,
    /// the destination root is to be made, with its parents, unless it exists.
    pub fn prepare(&self, src_exists: bool, dst_exists: bool) -> (result: Result<
        Option<String>,
        SortError,
    >)
        ensures
            match result {
                Ok(root) => src_exists && root.deep_view() == if dst_exists {
                    None
                } else {
                    Some(self.dst@)
                },
                Err(error) => !src_exists && error@ == (SortErrorView {
                    kind: ErrorKind::InvalidSource,
                    path: self.src@,
                }),
            },
    {
        if !src_exists {
            return Err(SortError { kind: ErrorKind::InvalidSource, path: self.src.clone() });
        }
        if dst_exists {
            Ok(None)
        } else {
            Ok(Some(self.dst.clone()))
        }
    }
}

/// What has to happen for one entry that was let through.
#[derive(Clone, Debug, PartialEq, Eq)]
pub struct Step {
    /// The folder to make before anything is put into it, if it is new.
    pub create_dir: Option<String>,
    /// Where the entry goes from and to; `None` for a directory.
    pub pair: Option<(String, String)>,
}

impl View for Step {
    type V = StepView;

    open spec fn view(&self) -> StepView {
        StepView { create_dir: self.create_dir.deep_view(), pair: self.pair.deep_view() }
    }
}

/// What planning hands to the executor.
#[derive(Clone, Debug, PartialEq, Eq)]
pub struct Plan {
    /// The folders to make, each once, in the order in which they are first
    /// needed. All of them have to exist before any file is put into place.
    pub directories: Vec<String>,
    /// For each entry, in order, where it goes from and to; `None` for a
    /// directory.
    pub files: Vec<Option<(String, String)>>,
}

impl View for Plan {
    type V = PlanView;

    open spec fn view(&self) -> PlanView {
        PlanView { directories: self.directories.deep_view(), files: self.files.deep_view() }
    }
}

/// How planning broke off.
#[derive(Clone, Debug, PartialEq, Eq)]
pub struct Aborted {
    /// Why the run stops.
    pub error: SortError,
    /// The folders that were ordered before planning stopped. A run that
    /// breaks off does not take back what it has done, so these are made all
    /// the same.
    pub directories: Vec<String>,
}

impl View for Aborted {
    type V = AbortedView;

    open spec fn view(&self) -> AbortedView {
        AbortedView { error: self.error@, directories: self.directories.deep_view() }
    }
}

/// One thing that the executor does to the file system.
#[derive(Clone, Debug, PartialEq, Eq)]
pub enum Operation {
    /// Duplicate the content of `from` at `to`; `from` stays.
    Copy { from: String, to: String },
    /// Rename `from` to `to`; `from` is gone afterwards.
    Rename { from: String, to: String },
}

impl View for Operation {
    type V = OperationView;

    open spec fn view(&self) -> OperationView {
        match self {
            Operation::Copy { from, to } => OperationView::Copy { from: from@, to: to@ },
            Operation::Rename { from, to } => OperationView::Rename { from: from@, to: to@ },
        }
    }
}

impl DeepView for Operation {
    type V = OperationView;

    open spec fn deep_view(&self) -> OperationView {
        self@
    }
}

/// The state of one run: what was asked, and the folders made so far.
pub struct Sorter {
    args: Args,
    seen_dirs: Vec<String>,
}

impl Sorter {
    /// The source directory.
    pub closed spec fn src(&self) -> Seq<char> {
        self.args.src@
    }

    /// The destination root.
    pub closed spec fn dst(&self) -> Seq<char> {
        self.args.dst@
    }

    /// Whether files are moved rather than copied.
    pub closed spec fn move_files(&self) -> bool {
        self.args.move_files
    }

    /// The folders made so far in this run, oldest first.
    pub closed spec fn seen(&self) -> Seq<Seq<char>> {
        self.seen_dirs.deep_view()
    }

    /// No folder is recorded twice. This holds of a new sorter, and every
    /// method keeps it.
    pub open spec fn wf(&self) -> bool {
        self.seen().no_duplicates()
    }

    /// A sorter that has made no folder yet.
    pub fn new(args: Args) -> (sorter: Sorter)
        ensures
            sorter.src() == args.src@,
            sorter.dst() == args.dst@,
            sorter.move_files() == args.move_files,
            sorter.seen() == Seq::<Seq<char>>::empty(),
            sorter.wf(),
    {
        Sorter { args, seen_dirs: Vec::new() }
    }

    /// Plans a whole batch of sightings, in their order.
    ///
    /// Where every sighting is let through, the plan holds the relocation of
    /// each entry and the folders that this run has not made before. Planning
    /// stops at the first sighting that is refused: no file is planned then,
    /// and the error comes with the folders that the entries before it had
    /// opened. Either way the sorter counts the folders it handed out as made.
    pub fn run(&mut self, sightings: &Vec<(Entry, bool)>) -> (result: Result<Plan, Aborted>)
        ensures
            final(self).src() == old(self).src(),
            final(self).dst() == old(self).dst(),
            final(self).move_files() == old(self).move_files(),
            old(self).wf() ==> final(self).wf(),
            match result {
                Ok(plan) => {
                    &&& passes(sightings.deep_view())
                    &&& plan@ == plan_of(
                        old(self).dst(),
                        old(self).seen(),
                        entries_of(sightings.deep_view()),
                    )
                    &&& final(self).seen() == old(self).seen() + plan@.directories
                },
                Err(aborted) => {
                    &&& exists|k: int|
                        stops_at(sightings.deep_view(), k) && aborted@ == aborted_at(
                            old(self).dst(),
                            old(self).seen(),
                            entries_of(sightings.deep_view()),
                            k,
                        )
                    &&& final(self).seen() == old(self).seen() + aborted@.directories
                },
            },
    {
        let ghost dst = self.dst();
        let ghost seen = self.seen();
        let ghost all = sightings.deep_view();
        let ghost entries = entries_of(all);
        let mut directories: Vec<String> = Vec::new();
        let mut files: Vec<Option<(String, String)>> = Vec::new();
        let mut i: usize = 0;
        while i < sightings.len()
            invariant
                i <= sightings.len(),
                all == sightings.deep_view(),
                entries == entries_of(all),
                dst == old(self).dst(),
                self.dst() == dst,
                self.src() == old(self).src(),
                self.move_files() == old(self).move_files(),
                old(self).wf() ==> self.wf(),
                seen == old(self).seen(),
                forall|j: int| #![trigger all[j]] 0 <= j < i ==> !refused(all[j].0, all[j].1),
                self.seen() == seen_through(dst, seen, entries, i as int),
                self.seen() == seen + directories.deep_view(),
                files.deep_view() == pairs_of(dst, entries).take(i as int),
            decreases sightings.len() - i,
        {
            let ghost made = directories.deep_view();
            let ghost planned = files.deep_view();
            assert(all[i as int] == (sightings[i as int].0@, sightings[i as int].1));
            assert(made =~= folders_through(dst, seen, entries, i as int));
            match self.init_directory_and_paths(&sightings[i].0, sightings[i].1) {
                Ok(step) => {
                    if let Some(dir) = step.create_dir {
                        directories.push(dir);
                        assert(directories.deep_view() =~= made.push(dir@));
                    }
                    files.push(step.pair);
                    assert(files.deep_view() =~= planned.push(pair_of(dst, entries[i as int])));
                },
                Err(error) => {
                    assert(stops_at(all, i as int));
                    return Err(Aborted { error, directories });
                },
            }
            i += 1;
        }
        assert(directories.deep_view() =~= folders_through(dst, seen, entries, i as int));
        assert(files.deep_view() =~= pairs_of(dst, entries));
        Ok(Plan { directories, files })
    }

    /// Decides what happens to one entry. `occupied` says whether something
    /// already exists at the entry's destination.
    ///
    /// An entry without a date stops the run, whatever it is. A directory is
    /// passed over. A file whose destination is taken stops the run. Any other
    /// file is planned, and its folder is ordered to be made unless this run
    /// has made it before.
    pub fn init_directory_and_paths(&mut self, entry: &Entry, occupied: bool) -> (result: Result<
        Step,
        SortError,
    >)
        ensures
            final(self).src() == old(self).src(),
            final(self).dst() == old(self).dst(),
            final(self).move_files() == old(self).move_files(),
            old(self).wf() ==> final(self).wf(),
            match result {
                Ok(step) => {
                    &&& !refused(entry@, occupied)
                    &&& step@ == step_for(old(self).dst(), old(self).seen(), entry@)
                    &&& final(self).seen() == seen_after(old(self).dst(), old(self).seen(), entry@)
                },
                Err(error) => {
                    &&& refused(entry@, occupied)
                    &&& error@ == refusal(old(self).dst(), entry@)
                    &&& final(self).seen() == old(self).seen()
                },
            },
    {
        let date = match &entry.date {
            Some(date) => date,
            None => {
                return Err(
                    SortError { kind: ErrorKind::MetadataUnavailable, path: entry.path.clone() },
                );
            },
        };
        if entry.is_dir {
            return Ok(Step { create_dir: None, pair: None });
        }
        let dir = join(self.args.dst.as_str(), date.as_str());
        let new_path = join(dir.as_str(), entry.file_name.as_str());
        if occupied {
            return Err(SortError { kind: ErrorKind::DestinationCollision, path: new_path });
        }
        let create_dir = if self.has_seen(&dir) {
            None
        } else {
            let ghost before = self.seen_dirs.deep_view();
            self.seen_dirs.push(dir.clone());
            assert(self.seen_dirs.deep_view() =~= before.push(dir@));
            Some(dir)
        };
        Ok(Step { create_dir, pair: Some((entry.path.clone(), new_path)) })
    }

    /// Where the entry would be relocated to: `None` for a directory and for
    /// an entry without a date. The caller looks there before it has the
    /// entry planned.
    pub fn destination(&self, entry: &Entry) -> (path: Option<String>)
        ensures
            path.deep_view() == destination_of(self.dst(), entry@),
    {
        match &entry.date {
            Some(date) if !entry.is_dir => {
                let dir = join(self.args.dst.as_str(), date.as_str());
                Some(join(dir.as_str(), entry.file_name.as_str()))
            },
            _ => None,
        }
    }

    /// The operations that put the planned files into place, in the order of
    /// the plan.
    pub fn sort(&self, files: &Vec<Option<(String, String)>>) -> (operations: Vec<Operation>)
        ensures
            operations.deep_view() == operations_for(self.move_files(), files.deep_view()),
    {
        let ghost pick = operation_of(self.move_files());
        let mut operations: Vec<Operation> = Vec::new();
        let mut i: usize = 0;
        while i < files.len()
            invariant
                i <= files.len(),
                pick == operation_of(self.move_files()),
                operations.deep_view() == files.deep_view().take(i as int).filter_map(pick),
            decreases files.len() - i,
        {
            proof {
                files.deep_view().lemma_filter_map_take_succ(pick, i as int);
            }
            let ghost before = operations.deep_view();
            if let Some((old_path, new_path)) = &files[i] {
                let operation = self.move_into_place(old_path, new_path);
                operations.push(operation);
                assert(operations.deep_view() =~= before.push(operation@));
            }
            i += 1;
        }
        assert(files.deep_view().take(i as int) =~= files.deep_view());
        operations
    }

    /// How one planned file is put into place.
    pub fn move_into_place(&self, old_path: &String, new_path: &String) -> (operation: Operation)
        ensures
            operation@ == operation_for(self.move_files(), (old_path@, new_path@)),
    {
        if self.args.move_files {
            Operation::Rename { from: old_path.clone(), to: new_path.clone() }
        } else {
            Operation::Copy { from: old_path.clone(), to: new_path.clone() }
        }
    }

    /// What the run was asked to do.
    pub fn args(&self) -> (args: &Args)
        ensures
            args.src@ == self.src(),
            args.dst@ == self.dst(),
            args.move_files == self.move_files(),
    {
        &self.args
    }

    /// The folders made so far in this run, oldest first.
    pub fn seen_dirs(&self) -> (dirs: &Vec<String>)
        ensures
            dirs.deep_view() == self.seen(),
    {
        &self.seen_dirs
    }

    /// Whether the folder `dir` was made in this run.
    fn has_seen(&self, dir: &String) -> (found: bool)
        ensures
            found == self.seen().contains(dir@),
    {
        let mut i: usize = 0;
        while i < self.seen_dirs.len()
            invariant
                i <= self.seen_dirs.len(),
                forall|j: int| 0 <= j < i ==> self.seen()[j] != dir@,
            decreases self.seen_dirs.len() - i,
        {
            if self.seen_dirs[i] == *dir {
                assert(self.seen()[i as int] == dir@);
                return true;
            }
            i += 1;
        }
        false
    }
}

} // verus!
