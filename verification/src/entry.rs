//! What is known of one entry of the source directory.

use vstd::prelude::*;
use crate::calendar::{bucket_name, utc_date_text};

verus! {

/// One item found directly inside the source directory, as it was observed.
#[derive(Clone, Debug, PartialEq, Eq)]
pub struct Entry {
    /// Where the entry lies.
    pub path: String,
    /// The last component of `path`.
    pub file_name: String,
    /// The UTC date of the last modification, which names the folder the
    /// entry belongs to; `None` where that date could not be had.
    pub date: Option<String>,
    /// Whether the entry is itself a directory.
    pub is_dir: bool,
}

/// An [`Entry`] as contracts see it.
pub struct EntryView {
    pub path: Seq<char>,
    pub file_name: Seq<char>,
    pub date: Option<Seq<char>>,
    pub is_dir: bool,
}

impl View for Entry {
    type V = EntryView;

    open spec fn view(&self) -> EntryView {
        EntryView {
            path: self.path@,
            file_name: self.file_name@,
            date: self.date.deep_view(),
            is_dir: self.is_dir,
        }
    }
}

impl DeepView for Entry {
    type V = EntryView;

    open spec fn deep_view(&self) -> EntryView {
        self@
    }
}

/// The date that an entry gets from its modification time, given in whole
/// seconds since the Unix epoch: none without a time, else what the calendar
/// makes of it.
pub open spec fn date_of(modified: Option<i64>) -> Option<Seq<char>> {
    match modified {
        Some(secs) => utc_date_text(secs as int),
        None => None,
    }
}

impl Entry {
    /// Records an entry. `modified` is its modification time in whole seconds
    /// since the Unix epoch, rounded down, or `None` if it could not be read.
    pub fn observe(path: String, file_name: String, modified: Option<i64>, is_dir: bool) -> (entry:
        Entry)
        ensures
            entry@ == (EntryView {
                path: path@,
                file_name: file_name@,
                date: date_of(modified),
                is_dir,
            }),
    {
        let date = match modified {
            Some(secs) => bucket_name(secs),
            None => None,
        };
        Entry { path, file_name, date, is_dir }
    }
}

} // verus!
