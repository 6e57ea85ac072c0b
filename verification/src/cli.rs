//! The command-line surface, as plain data: which subcommand was asked for
//! and with which flags. Parsing the process's arguments into these values
//! happens outside the library.

use vstd::prelude::*;

verus! {

/// Flags of the metadata subcommand: export the account's raw metadata.
pub struct MetadataFlags {
    pub username: String,
    pub password: String,
    /// File to write the metadata to.
    pub output: String,
}

/// Flags of the archive subcommand: archive every cached snapshot page.
pub struct ArchiveFlags {
    pub username: String,
    pub password: String,
    /// Directory to save the archived pages under.
    pub output_directory: String,
    /// How many downloads may run at a time.
    pub concurrency: usize,
}

/// One invocation of the tool.
pub enum SubCommand {
    Metadata(MetadataFlags),
    Archive(ArchiveFlags),
}

pub struct Cli {
    pub subcommand: SubCommand,
}

} // verus!
