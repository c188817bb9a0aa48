//! How the server is brought up: in this process, or in a child that is given
//! its configuration over a private channel.

use crate::args::{Args, BindTarget, BindTargetView};
use crate::errors::Error;
use crate::platform::Platform;
use vstd::prelude::*;
use vstd::slice::slice_to_vec;
use vstd::string::StringExecFns;

verus! {

/// What is done to listen.
#[derive(Clone, Debug, PartialEq, Eq)]
pub struct Bind {
    /// The directory that is created first, for its owner alone, if any.
    pub private_dir: Option<Vec<u8>>,
    /// Where the server then listens.
    pub target: BindTarget,
}

/// A `Bind` with its path and texts as sequences.
pub struct BindView {
    pub private_dir: Option<Seq<u8>>,
    pub target: BindTargetView,
}

impl View for Bind {
    type V = BindView;

    open spec fn view(&self) -> BindView {
        BindView {
            private_dir: match self.private_dir {
                Some(dir) => Some(dir@),
                None => None,
            },
            target: self.target@,
        }
    }
}

impl Bind {
    /// What is done to listen: the data directory, where one is configured,
    /// is created privately, and the server listens where `bind_addr` says.
    pub open spec fn setup_spec(args: Args, platform: Platform) -> Result<BindView, Error> {
        match args.bind_addr_spec(platform) {
            Ok(target) => Ok(
                BindView {
                    private_dir: match args.data_dir {
                        Some(dir) => Some(dir@),
                        None => None,
                    },
                    target,
                },
            ),
            Err(e) => Err(e),
        }
    }

    /// Decides what is done to listen.
    pub fn setup(args: &Args, platform: Platform) -> (r: Result<Bind, Error>)
        ensures
            match r {
                Ok(bind) => Bind::setup_spec(*args, platform) == Ok::<BindView, Error>(bind@),
                Err(e) => Bind::setup_spec(*args, platform) == Err::<BindView, Error>(e),
            },
    {
        match args.bind_addr(platform) {
            Ok(target) => {
                let private_dir = match &args.data_dir {
                    Some(dir) => Some(slice_to_vec(dir.as_slice())),
                    None => None,
                };
                Ok(Bind { private_dir, target })
            },
            Err(e) => Err(e),
        }
    }
}

/// The two ways in which the server runs.
#[derive(Clone, Debug, PartialEq, Eq)]
pub enum ServerType {
    /// In this process, listening as the `Bind` says and serving the files
    /// below the web root.
    Thread(Bind, String),
    /// In a child, which is started with `CHILD_FLAG` and is sent the
    /// configuration of the `Server` as one record.
    Child,
}

/// A `ServerType` with its paths and texts as sequences.
pub enum ServerTypeView {
    Thread(BindView, Seq<char>),
    Child,
}

impl View for ServerType {
    type V = ServerTypeView;

    open spec fn view(&self) -> ServerTypeView {
        match self {
            ServerType::Thread(bind, web_root) => ServerTypeView::Thread(bind@, web_root@),
            ServerType::Child => ServerTypeView::Child,
        }
    }
}

/// A server that is decided on and not yet started.
#[derive(Clone, Debug, PartialEq, Eq)]
pub struct Server {
    /// How it runs.
    pub inner: ServerType,
    /// The configuration it runs with.
    pub args: Args,
}

/// A `Server` with its paths and texts as sequences.
pub struct ServerView {
    pub inner: ServerTypeView,
    pub args: Args,
}

impl View for Server {
    type V = ServerView;

    open spec fn view(&self) -> ServerView {
        ServerView { inner: self.inner@, args: self.args }
    }
}

/// The flag that tells a new process to read its configuration from its
/// standard input.
pub const CHILD_FLAG: &'static str = "-M";

impl Server {
    /// The server for a configuration.
    ///
    /// Where the configuration needs a child, the server runs in a child with
    /// the configuration that `for_child` makes of it. Where it does not, the
    /// server runs in this process; that takes a place to listen and a web
    /// root.
    pub open spec fn setup_spec(args: Args, platform: Platform) -> Result<ServerView, Error> {
        if args.needs_child() {
            Ok(ServerView { inner: ServerTypeView::Child, args: args.for_child_spec() })
        } else {
            match Bind::setup_spec(args, platform) {
                Ok(bind) => match args.web_root {
                    Some(web_root) => Ok(
                        ServerView { inner: ServerTypeView::Thread(bind, web_root@), args },
                    ),
                    None => Err(Error::MissingWebRoot),
                },
                Err(e) => Err(e),
            }
        }
    }

    /// Decides how the server runs.
    pub fn setup(args: Args, platform: Platform) -> (r: Result<Server, Error>)
        ensures
            match r {
                Ok(server) => Server::setup_spec(args, platform) == Ok::<ServerView, Error>(
                    server@,
                ),
                Err(e) => Server::setup_spec(args, platform) == Err::<ServerView, Error>(e),
            },
    {
        if args.needs_child() {
            Ok(Server { inner: ServerType::Child, args: args.for_child() })
        } else {
            match Bind::setup(&args, platform) {
                Ok(bind) => {
                    let web_root = match &args.web_root {
                        Some(web_root) => web_root.clone(),
                        None => {
                            return Err(Error::MissingWebRoot);
                        },
                    };
                    Ok(Server { inner: ServerType::Thread(bind, web_root), args })
                },
                Err(e) => Err(e),
            }
        }
    }
}

/// The record that is written to the child: the serialized configuration,
/// ended by a line feed.
pub fn frame_record(record: &str) -> (framed: String)
    ensures
        framed@ == record@.push('\n'),
{
    proof {
        reveal_strlit("\n");
    }
    let mut framed = String::from_str(record);
    framed.append("\n");
    assert(framed@ =~= record@.push('\n'));
    framed
}

/// A data directory together with a new root always takes a child: the
/// process that enters the new root could not reach the directory.
pub proof fn law_jail_with_data_dir_runs_in_child(args: Args, platform: Platform)
    requires
        args.data_dir is Some,
        args.chroot is Some,
    ensures
        args.needs_child(),
        Server::setup_spec(args, platform) matches Ok(server) && server.inner is Child,
{
}

/// With neither a data directory nor a new root, no child is started unless
/// the configuration asks for one.
pub proof fn law_plain_configuration_runs_in_process(args: Args, platform: Platform)
    requires
        args.data_dir is None,
        args.chroot is None,
        !args.always_multi_process,
    ensures
        !args.needs_child(),
        Server::setup_spec(args, platform) matches Ok(server) ==> server.inner is Thread,
{
}

/// A child is never told to start a child of its own, and is never told of
/// the data directory.
pub proof fn law_child_runs_in_process(args: Args, platform: Platform)
    requires
        args.needs_child(),
    ensures
        Server::setup_spec(args, platform) matches Ok(server) && !server.args.needs_child()
            && server.args.data_dir is None,
{
}

} // verus!
