//! What the operating system offers for locking a process down.

use vstd::prelude::*;

verus! {

/// The kind of system that the server runs on.
#[derive(Clone, Copy, Debug, PartialEq, Eq, Structural)]
pub enum Platform {
    /// Linux: a Unix with capabilities.
    Linux,
    /// OpenBSD: a Unix with `pledge` and `unveil`.
    OpenBsd,
    /// Any other Unix.
    Unix,
    /// Windows.
    Windows,
}

impl Platform {
    /// Whether this is a Unix: a system with local sockets, `chroot`, and
    /// users and groups that a process can change to.
    pub open spec fn spec_is_unix(&self) -> bool {
        !(self is Windows)
    }

    /// Whether a process holds capabilities that it can clear.
    pub open spec fn spec_has_capabilities(&self) -> bool {
        self is Linux
    }

    /// Whether a process can declare, once and for all, the paths and the
    /// kinds of system calls that it will use.
    pub open spec fn spec_has_pledge(&self) -> bool {
        self is OpenBsd
    }

    /// Whether this is a Unix.
    #[verifier::when_used_as_spec(spec_is_unix)]
    pub fn is_unix(&self) -> (r: bool)
        ensures
            r == self.spec_is_unix(),
    {
        match self {
            Platform::Windows => false,
            _ => true,
        }
    }

    /// Whether a process holds capabilities that it can clear.
    #[verifier::when_used_as_spec(spec_has_capabilities)]
    pub fn has_capabilities(&self) -> (r: bool)
        ensures
            r == self.spec_has_capabilities(),
    {
        match self {
            Platform::Linux => true,
            _ => false,
        }
    }

    /// Whether a process can declare what it will use.
    #[verifier::when_used_as_spec(spec_has_pledge)]
    pub fn has_pledge(&self) -> (r: bool)
        ensures
            r == self.spec_has_pledge(),
    {
        match self {
            Platform::OpenBsd => true,
            _ => false,
        }
    }
}

} // verus!
