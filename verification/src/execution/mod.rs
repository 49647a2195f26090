//! Execution of a process inside a sandbox.

pub mod child;
pub mod child_laws;
pub mod environment;
pub mod launch;
pub mod launch_laws;
pub mod lookup_laws;
pub mod path_search;
pub mod process;
pub mod program_laws;
pub mod setup_laws;
pub mod spawn_laws;
