use vstd::prelude::*;

verus! {

/// Shells for which a wrapper script can be printed.
#[derive(Debug, Clone, Copy, PartialEq, Eq, Structural)]
pub enum ShellType {
    Zsh,
    Bash,
}

/// Subcommands of the command line.
#[derive(Debug)]
#[allow(inconsistent_fields)]
pub enum Commands {
    /// Tag the records at or below `path`.
    Tag { tags: Vec<String>, path: String },
    /// Set the alias of the record at `path`.
    Alias { alias: String, path: String },
    /// Build the index from the working copies under `path`.
    Import { path: String },
    /// Refresh the stored records.
    Update { path: Option<String> },
    /// Print the shell wrapper.
    Init { shell: ShellType },
}

/// Parsed command line.
#[derive(Debug)]
pub struct Cli {
    pub command: Option<Commands>,
    pub verbose: bool,
}

/// Settings of a run.
#[derive(Debug)]
pub struct State {
    pub path: Option<String>,
    pub verbose: bool,
}

impl State {
    pub fn new(path: Option<String>, verbose: bool) -> (r: Self)
        ensures
            r.path == path,
            r.verbose == verbose,
    {
        State { path, verbose }
    }
}

} // verus!
