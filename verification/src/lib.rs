//! A verified core for a game-launching companion that runs Windows
//! executables inside Wine bottles managed by a CrossOver installation.
//!
//! The crate covers the pieces with real invariants: home-shorthand path
//! resolution, discovery of bottles and game executables on a filesystem
//! snapshot, validation and planning of a launch, and the single completion
//! event a finished game produces. Filesystem reads, the home-directory
//! lookup and process spawning sit behind a handful of trusted wrappers or
//! in the surrounding application; every decision taken on their results is
//! verified here.

pub mod discovery;
pub mod fs_model;
pub mod launch;
pub mod paths;
pub mod storage;
pub mod strings;
pub mod supervise;
