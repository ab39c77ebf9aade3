//! Editor-side Git status tracking and runtime diagnostics.
//!
//! - [`vcs`] classifies Git status flags, keeps the per-file status cache of an
//!   opened workspace and decides when that cache is refreshed.
//! - [`diag`] holds the rules of the runtime diagnostics: which trace lines are
//!   written, and what they say. [`frames`] measures how long frames take.
//! - [`paths`], [`text`] and [`clock`] are what both stand on.
//!
//! Nothing here touches the disk. Where a repository, a file or the environment
//! has to be asked, the caller asks and hands the answer in.

pub mod clock;
pub mod diag;
pub mod frames;
pub mod paths;
pub mod text;
pub mod vcs;
