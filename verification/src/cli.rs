//! The command surface of the tool: plain option records, one per
//! subcommand.  They only parameterize daemon-state construction and the
//! file-system collaborators; the process's argument parser fills them in
//! and hands them over.

use vstd::prelude::*;

verus! {

/// Options of the subcommand that lists stored trace files.
#[derive(Clone, Debug)]
pub struct List {
    /// Storage directory; the platform default when absent.
    pub dir: Option<String>,
}

/// Options of the subcommand that deletes stored trace files.
#[derive(Clone, Debug)]
pub struct Clear {
    /// Storage directory; the platform default when absent.
    pub dir: Option<String>,
}

/// Options of the subcommand that prints the storage directory.
#[derive(Clone, Debug)]
pub struct Dir {
    /// Storage directory; the platform default when absent.
    pub dir: Option<String>,
}

/// Options of the daemon subcommand.
#[derive(Clone, Debug)]
pub struct Serve {
    /// Path of the socket to serve on; a default under the temporary
    /// directory when absent.
    pub unix_socket: Option<String>,
    /// Storage directory; the platform default when absent.
    pub dir: Option<String>,
    /// Write every message to this single file: all clients implicitly
    /// share one trace and need not send an open command.
    pub single_file: Option<String>,
    /// Fork to the background on startup.
    pub daemonize: bool,
}

/// Options of the subcommand that converts one stored file to TEF.
#[derive(Clone, Debug)]
pub struct GetTEF {
    /// The file to convert; the word `latest` picks the lexicographically
    /// last stored file.
    pub jsonl_file: String,
    /// Storage directory; the platform default when absent.
    pub dir: Option<String>,
    /// Output file; standard output when absent.
    pub o: Option<String>,
}

/// One parsed command line.
#[derive(Clone, Debug)]
pub enum Command {
    /// List stored trace files.
    List(List),
    /// Delete stored trace files.
    Clear(Clear),
    /// Run the daemon.
    Serve(Serve),
    /// Convert one stored file to TEF.
    GetTEF(GetTEF),
    /// Print the storage directory.
    Dir(Dir),
}

} // verus!
