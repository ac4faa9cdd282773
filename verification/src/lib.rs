//! Entering another process's mount namespace and coming back: the decisions,
//! with the system calls left to the caller.

pub mod error;
pub mod namespace;
pub mod pid;
pub mod status;
pub mod thread;

pub use error::Error;
pub use namespace::{mntns_path, status_path, Action, NsInfo, Outcome, Progress};
pub use pid::Pid;
pub use status::get_nspid;
