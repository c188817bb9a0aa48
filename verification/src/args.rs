//! The configuration of one process, and what follows from it before anything
//! is started.

use crate::errors::Error;
use crate::platform::Platform;
use crate::utils::{join, join_spec, path_to_string, path_to_string_spec};
use vstd::prelude::*;
use vstd::string::StringSliceAdditionalSpecFns;

verus! {

/// The configuration of one process.
///
/// Paths of the file system are held as the bytes that the system knows them
/// by; they need not be text.
#[derive(Clone, Debug, PartialEq, Eq)]
pub struct Args {
    /// How much is logged.
    pub verbose: u8,
    /// The directory that holds the state of the hidden service; with it the
    /// hidden service is started.
    pub data_dir: Option<Vec<u8>>,
    /// The directory whose files are served.
    pub web_root: Option<String>,
    /// Whether a directory without an `index.html` is listed.
    pub list_directories: bool,
    /// Where the server listens: a network address, or the path of a local
    /// socket.
    pub bind: Option<String>,
    /// The user that the process becomes after setup.
    pub user: Option<String>,
    /// The directory that becomes the root of the file system before the
    /// server starts.
    pub chroot: Option<Vec<u8>>,
    /// Set in a child: its configuration came over its standard input.
    pub child_process: bool,
    /// Whether the server runs in a child even where nothing requires it.
    pub always_multi_process: bool,
}

/// Where the server listens.
#[derive(Clone, Debug, PartialEq, Eq)]
pub enum BindTarget {
    /// A network address, as host and port.
    Address(String),
    /// The path of a local socket.
    Unix(String),
}

/// A `BindTarget` with its text as a sequence of characters.
pub enum BindTargetView {
    Address(Seq<char>),
    Unix(Seq<char>),
}

impl View for BindTarget {
    type V = BindTargetView;

    open spec fn view(&self) -> BindTargetView {
        match self {
            BindTarget::Address(address) => BindTargetView::Address(address@),
            BindTarget::Unix(path) => BindTargetView::Unix(path@),
        }
    }
}

/// The name of the local socket in the data directory.
pub open spec fn socket_name() -> Seq<u8> {
    "narnia.sock".spec_bytes()
}

/// Whether a bind address is written as a path: it starts with `.` or `/`.
pub open spec fn is_path_like(bind: Seq<char>) -> bool {
    bind.len() > 0 && (bind[0] == '.' || bind[0] == '/')
}

impl Args {
    /// Whether the server has to run in a child of its own: where that is
    /// asked for, and where a data directory and a new root are both
    /// configured, since the process that enters the new root cannot reach the
    /// data directory any more.
    pub open spec fn needs_child_spec(&self) -> bool {
        self.always_multi_process || (self.data_dir is Some && self.chroot is Some)
    }

    /// Whether the server has to run in a child of its own.
    #[verifier::when_used_as_spec(needs_child_spec)]
    pub fn needs_child(&self) -> (r: bool)
        ensures
            r == self.needs_child_spec(),
    {
        self.always_multi_process || (self.data_dir.is_some() && self.chroot.is_some())
    }

    /// Where the server listens, or why that cannot be said.
    ///
    /// A configured bind address decides: on a Unix one that is written as a
    /// path names a local socket, every other a network address. Without one,
    /// the server listens on the socket `narnia.sock` in the data directory,
    /// which needs a Unix, a data directory, and a path that is text.
    pub open spec fn bind_addr_spec(&self, platform: Platform) -> Result<BindTargetView, Error> {
        match self.bind {
            Some(bind) => if platform.is_unix() && is_path_like(bind@) {
                Ok(BindTargetView::Unix(bind@))
            } else {
                Ok(BindTargetView::Address(bind@))
            },
            None => match self.data_dir {
                Some(dir) => if platform.is_unix() {
                    match path_to_string_spec(join_spec(dir@, socket_name())) {
                        Ok(path) => Ok(BindTargetView::Unix(path)),
                        Err(e) => Err(e),
                    }
                } else {
                    Err(Error::BindRequired)
                },
                None => Err(Error::MissingBind),
            },
        }
    }

    /// Where the server listens.
    pub fn bind_addr(&self, platform: Platform) -> (r: Result<BindTarget, Error>)
        ensures
            match r {
                Ok(target) => self.bind_addr_spec(platform) == Ok::<BindTargetView, Error>(
                    target@,
                ),
                Err(e) => self.bind_addr_spec(platform) == Err::<BindTargetView, Error>(e),
            },
    {
        match &self.bind {
            Some(bind) => {
                let text = bind.as_str();
                if platform.is_unix() && !text.is_empty() && (text.get_char(0) == '.'
                    || text.get_char(0) == '/') {
                    Ok(BindTarget::Unix(bind.clone()))
                } else {
                    Ok(BindTarget::Address(bind.clone()))
                }
            },
            None => match &self.data_dir {
                Some(dir) => {
                    if platform.is_unix() {
                        let path = join(dir.as_slice(), "narnia.sock".as_bytes());
                        match path_to_string(path) {
                            Ok(text) => Ok(BindTarget::Unix(text)),
                            Err(e) => Err(e),
                        }
                    } else {
                        Err(Error::BindRequired)
                    }
                },
                None => Err(Error::MissingBind),
            },
        }
    }

    /// The configuration that a child is given: the same, but that it is
    /// neither told to start a child of its own nor told of the data
    /// directory, and that it is not yet marked as a child.
    pub open spec fn for_child_spec(self) -> Args {
        Args { child_process: false, always_multi_process: false, data_dir: None, ..self }
    }

    /// The configuration that a child is given.
    pub fn for_child(self) -> (child: Args)
        ensures
            child == self.for_child_spec(),
            !child.needs_child(),
    {
        let mut child = self;
        child.child_process = false;
        child.always_multi_process = false;
        child.data_dir = None;
        child
    }

    /// The configuration that a child runs with, made of the one that it
    /// received: the same, marked as that of a child.
    pub fn as_child(self) -> (child: Args)
        ensures
            child == (Args { child_process: true, ..self }),
    {
        let mut child = self;
        child.child_process = true;
        child
    }

    /// The log filter that the verbosity selects.
    pub open spec fn log_level_spec(&self) -> Seq<char> {
        if self.verbose == 0 {
            "warn"@
        } else if self.verbose == 1 {
            "info"@
        } else if self.verbose == 2 {
            "debug"@
        } else {
            "trace"@
        }
    }

    /// The log filter that the verbosity selects.
    pub fn log_level(&self) -> (level: &'static str)
        ensures
            level@ == self.log_level_spec(),
    {
        if self.verbose == 0 {
            "warn"
        } else if self.verbose == 1 {
            "info"
        } else if self.verbose == 2 {
            "debug"
        } else {
            "trace"
        }
    }
}

} // verus!
