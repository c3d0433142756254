//! Core of a desktop front end for an external storage command-line tool.
//!
//! The library owns everything that can be stated and proved: splitting a
//! child process's byte streams into lines, recognising transient progress
//! lines, maintaining the status text shown to a polling consumer, building
//! the argument vector for each action, extracting links and hashes from the
//! final output, and validating credential and upload-record files.  The
//! thin shell around it (process spawning, threads, file dialogs, rendering)
//! lives outside and only hands plain values in and out.

pub mod creds;
pub mod demux;
pub mod encdec;
pub mod extract;
pub mod format;
pub mod launcher;
pub mod panels;
pub mod records;
pub mod progress;
pub mod status;
pub mod wallet;
pub mod text;

use vstd::prelude::*;

verus! {

} // verus!
