//! Installs a JDK: finds the release archive in a catalog, unpacks it, moves
//! the runtime it holds into place and puts its binaries on the search path.
//!
//! The library holds the decisions of each step as verified functions: the
//! catalog query and the lookup of the download link, the extraction plan
//! and its path checks, the search for the runtime root and the relocation
//! plan, the search-path update, and the order of the steps. Carrying out
//! the plans on disk, the network and the process environment is left to
//! the caller.
use vstd::prelude::*;

pub mod archive;
pub mod catalog;
pub mod extract;
pub mod install;
pub mod paths;
pub mod pipeline;
pub mod search_path;

verus! {

} // verus!
