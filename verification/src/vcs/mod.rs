//! Version control: file statuses, the service that caches them, and its refresh timer.
pub mod auto_refresh;
pub mod cache;
pub mod git;
pub mod laws;
pub mod relative;
pub mod status;
