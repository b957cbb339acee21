//! Mod management for a single game installation: classifying an unpacked
//! mod package, routing its files into the game's data directories, and
//! keeping the registry of installed mods.
//!
//! Paths are byte strings with `/` as separator. Whatever touches the disk or
//! the console is left to the caller: the functions here take what was read
//! and say what has to be done next.

pub mod paths;
pub mod errors;
pub mod text;
pub mod records;
pub mod documents;
pub mod classifier;
pub mod router;
pub mod extractor;
pub mod features;
pub mod starting_checks;
pub mod user_interactions;
