use vstd::prelude::*;

verus! {

/// A parsed invocation: the command to dispatch and the target database.
/// The shell parses the command line into its own mirror of these types and
/// converts; the library owns the model the dispatch is written against.
#[derive(Debug)]
pub struct Opt {
    pub command: Command,
    pub database_url: Option<String>,
}

#[derive(Debug)]
pub enum Command {
    Database(DatabaseOpt),
    /// Generate query metadata to support offline compile-time checking of
    /// queries.
    Prepare {
        /// Only check whether the metadata is up to date.
        check: bool,
        /// Generate a single top-level metadata file for a workspace.
        merged: bool,
        /// Arguments handed through to the build.
        args: Vec<String>,
    },
    Seeds(SeedsOpt),
}

/// Group of commands for creating and dropping a database.
#[derive(Debug)]
pub struct DatabaseOpt {
    pub command: DatabaseCommand,
}

#[derive(Debug)]
pub enum DatabaseCommand {
    /// Create the target database.
    Create,
    /// Drop the target database, prompting first unless `yes` is set.
    Drop { yes: bool },
    /// Drop and re-create the target database, then run any pending
    /// scripts from `source`.
    Reset { yes: bool, source: String },
    /// Create the target database and run any pending scripts from
    /// `source`.
    Setup { source: String },
}

/// Group of commands for creating and running change scripts.
#[derive(Debug)]
pub struct SeedsOpt {
    /// Path to the folder containing the scripts.
    pub source: String,
    pub command: SeedsCommand,
}

#[derive(Debug)]
pub enum SeedsCommand {
    /// Create a new script with the given description and the current time
    /// as the version: one simple file, or an up and down pair.
    Add { description: String, reversible: bool },
    /// Run all pending scripts.
    Run { dry_run: bool, ignore_missing: bool },
    /// Revert the latest script that has a down file.
    Revert { dry_run: bool, ignore_missing: bool },
    /// List all known scripts.
    Info,
}

} // verus!
