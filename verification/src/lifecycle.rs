//! When the process ends: at the first word from any of the parts that run
//! beside the main thread.

use crate::args::Args;
use crate::security::Hardened;
use vstd::prelude::*;

verus! {

/// A part of the process whose end is the end of the process.
#[derive(Clone, Copy, Debug, PartialEq, Eq, Structural)]
pub enum ShutdownSource {
    /// The file server in this process has stopped.
    Service,
    /// The child that runs the file server has exited.
    Child,
    /// The parent of this child has closed the channel, or is gone.
    ParentLost,
    /// The hidden service has stopped.
    HiddenService,
}

/// The parts that are started beside the main thread, in the order in which
/// they are started: the file server, in this process or in a child; in a
/// child, the watch on its parent; with a data directory, the hidden service.
pub open spec fn sources_spec(args: Args) -> Seq<ShutdownSource> {
    seq![
        if args.needs_child() {
            ShutdownSource::Child
        } else {
            ShutdownSource::Service
        },
    ] + (if args.child_process {
        seq![ShutdownSource::ParentLost]
    } else {
        Seq::empty()
    }) + (if args.data_dir is Some {
        seq![ShutdownSource::HiddenService]
    } else {
        Seq::empty()
    })
}

/// The parts that are started beside the main thread. None of them is
/// started before the process is locked down, so the caller shows the word
/// that it is.
pub fn sources(args: &Args, _hardened: &Hardened) -> (started: Vec<ShutdownSource>)
    ensures
        started@ == sources_spec(*args),
{
    let mut started: Vec<ShutdownSource> = Vec::new();
    if args.needs_child() {
        started.push(ShutdownSource::Child);
    } else {
        started.push(ShutdownSource::Service);
    }
    if args.child_process {
        started.push(ShutdownSource::ParentLost);
    }
    if args.data_dir.is_some() {
        started.push(ShutdownSource::HiddenService);
    }
    assert(started@ =~= sources_spec(*args));
    started
}

/// What a read from the channel to the parent shows.
#[derive(Clone, Copy, Debug, PartialEq, Eq, Structural)]
pub enum Liveness {
    /// The parent holds the channel open.
    Alive,
    /// The channel has ended: the parent closed it, or is gone.
    Closed,
    /// The channel could not be read.
    Failed,
}

/// What a read shows: `read` is the number of bytes that it gave, or nothing
/// if it failed.
pub open spec fn watch_parent_spec(read: Option<usize>) -> Liveness {
    match read {
        Some(n) => if n == 0 {
            Liveness::Closed
        } else {
            Liveness::Alive
        },
        None => Liveness::Failed,
    }
}

/// Judges one read from the channel on which a child received its
/// configuration. The child goes on reading while the result is `Alive`, and
/// shuts down otherwise: the end of the channel is the one word of the parent
/// that ends a child, and it is no error.
pub fn watch_parent(read: Option<usize>) -> (seen: Liveness)
    ensures
        seen == watch_parent_spec(read),
        seen is Closed <==> read == Some(0usize),
        seen is Failed <==> read is None,
{
    match read {
        Some(n) => {
            if n == 0 {
                Liveness::Closed
            } else {
                Liveness::Alive
            }
        },
        None => Liveness::Failed,
    }
}

/// The signal that ends the process. It is given once; what comes after the
/// first time changes nothing.
#[derive(Debug)]
pub struct ShutdownSignal {
    first: Option<ShutdownSource>,
}

/// The cause that stands after `source` has signalled: the one that stood
/// before, if there was one.
pub open spec fn fire_spec(cause: Option<ShutdownSource>, source: ShutdownSource) -> Option<
    ShutdownSource,
> {
    match cause {
        Some(first) => Some(first),
        None => Some(source),
    }
}

/// The cause that stands after each of `sources` has signalled in turn.
pub open spec fn fire_all(cause: Option<ShutdownSource>, sources: Seq<ShutdownSource>) -> Option<
    ShutdownSource,
>
    decreases sources.len(),
{
    if sources.len() == 0 {
        cause
    } else {
        fire_spec(fire_all(cause, sources.drop_last()), sources.last())
    }
}

impl ShutdownSignal {
    /// The part that signalled first, if any has.
    pub closed spec fn cause_spec(&self) -> Option<ShutdownSource> {
        self.first
    }

    /// The signal before anything has signalled.
    pub fn new() -> (signal: ShutdownSignal)
        ensures
            signal.cause() is None,
    {
        ShutdownSignal { first: None }
    }

    /// The part that signalled first, if any has.
    #[verifier::when_used_as_spec(cause_spec)]
    pub fn cause(&self) -> (cause: Option<ShutdownSource>)
        ensures
            cause == self.cause_spec(),
    {
        self.first
    }

    /// Whether the process is to end.
    pub fn is_fired(&self) -> (fired: bool)
        ensures
            fired == self.cause() is Some,
    {
        self.first.is_some()
    }

    /// Takes the signal of `source`; tells whether it is the first, and so
    /// the one that ends the process.
    pub fn fire(&mut self, source: ShutdownSource) -> (first: bool)
        ensures
            first == old(self).cause() is None,
            final(self).cause() == fire_spec(old(self).cause(), source),
    {
        match self.first {
            Some(_) => false,
            None => {
                self.first = Some(source);
                true
            },
        }
    }
}

/// Whatever signals, in whatever order, the process ends for the first: later
/// signals do not change the cause.
pub proof fn law_first_signal_ends_the_process(sources: Seq<ShutdownSource>)
    requires
        sources.len() > 0,
    ensures
        fire_all(None, sources) == Some(sources[0]),
    decreases sources.len(),
{
    let before = sources.drop_last();
    if sources.len() > 1 {
        law_first_signal_ends_the_process(before);
        assert(before[0] == sources[0]);
    } else {
        assert(fire_all(None, before) == None::<ShutdownSource>);
    }
}

/// A process that was started as a child watches its parent, and no other
/// process does.
pub proof fn law_child_watches_parent(args: Args)
    ensures
        sources_spec(args).contains(ShutdownSource::ParentLost) <==> args.child_process,
{
    let started = sources_spec(args);
    if args.child_process {
        assert(started[1] == ShutdownSource::ParentLost);
    }
}

} // verus!
