//! What can go wrong before the server runs, and in a request path.

use vstd::prelude::*;
use vstd::string::StringExecFns;

verus! {

/// An error of the configuration or of a request path.
#[derive(Clone, Copy, Debug, PartialEq, Eq, Structural)]
pub enum Error {
    /// A path of the file system is no UTF-8 text.
    InvalidUtf8,
    /// Neither a bind address nor a data directory is configured.
    MissingBind,
    /// No bind address is configured on a platform without local sockets.
    BindRequired,
    /// No web root is configured.
    MissingWebRoot,
    /// The data directory could not be created; the value is the system's
    /// error number.
    DataDir(i32),
    /// A request path that starts at the root directory.
    RootDir,
    /// A request path with a segment `.`.
    CurDir,
    /// A request path with a segment `..`.
    ParentDir,
}

impl Error {
    /// The text that `message` gives for each error.
    pub open spec fn message_spec(self) -> Seq<char> {
        match self {
            Error::InvalidUtf8 => "Path contains invalid utf8"@,
            Error::MissingBind => "Either bind address or data directory needs to be configured"@,
            Error::BindRequired => "You always have to set -B on windows"@,
            Error::MissingWebRoot => "Missing --web-root argument"@,
            Error::DataDir(_) => "Failed to create data directory"@,
            Error::RootDir => "Invalid component: unix root directory"@,
            Error::CurDir => "Invalid component: current dir"@,
            Error::ParentDir => "Invalid component: parent dir"@,
        }
    }

    /// The error as a line for the log.
    pub fn message(&self) -> (text: String)
        ensures
            text@ == self.message_spec(),
    {
        match self {
            Error::InvalidUtf8 => String::from_str("Path contains invalid utf8"),
            Error::MissingBind => String::from_str(
                "Either bind address or data directory needs to be configured",
            ),
            Error::BindRequired => String::from_str("You always have to set -B on windows"),
            Error::MissingWebRoot => String::from_str("Missing --web-root argument"),
            Error::DataDir(_) => String::from_str("Failed to create data directory"),
            Error::RootDir => String::from_str("Invalid component: unix root directory"),
            Error::CurDir => String::from_str("Invalid component: current dir"),
            Error::ParentDir => String::from_str("Invalid component: parent dir"),
        }
    }
}

} // verus!
