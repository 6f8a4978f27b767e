//! Workspace bootstrap for a container-based build-root manager.
//!
//! The crate decides; the caller performs. Every function here works on plain
//! values (strings, integers, recorded observations of the filesystem) and
//! carries a contract that Verus proves. Touching the disk, the terminal or
//! the operating system is left to the program around the library.

pub mod text;
pub mod arch;
pub mod layout;
pub mod locate;
pub mod plan;
pub mod version;
pub mod checksum;
