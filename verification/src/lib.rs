//! Sorting the files of a directory into folders named after the day on which
//! each file was last modified.
//!
//! The library holds the decisions of such a run: where an entry goes, whether
//! its folder still has to be made, when the run has to stop, and how each
//! planned file is put into place. Reading directories and touching files is
//! left to the caller, who reports what it saw as plain values.

pub mod calendar;
pub mod entry;
pub mod error;
pub mod laws;
pub mod paths;
pub mod plan;
pub mod sorter;
