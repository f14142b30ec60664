//! Directory entries, and the rules by which a directory is read and counted.

pub mod count;
pub mod entry;
pub mod scanner;

pub use entry::FileEntry;
