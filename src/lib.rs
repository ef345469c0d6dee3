//! Window-session bookkeeping for a multi-window document editor: which file
//! each window is bound to, and the content handed to a window that was opened
//! to show a file.
use vstd::prelude::*;

pub mod commands;
pub mod handoff;
pub mod identity;
pub mod label_map;
pub mod paths;
pub mod registry;
pub mod title;

verus! {

} // verus!
