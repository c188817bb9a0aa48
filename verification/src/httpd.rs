//! The answers of the file server: one request is answered in steps, between
//! which the caller looks at the file system.

pub mod escape;
pub mod listing;
pub mod order;
pub mod resolve;

pub use self::listing::{list_directory, listed_name};
pub use self::order::DirEntry;
pub use self::resolve::{resolve_path_fs, resolve_path_req, PathProbe, ResolvedPath};

use self::listing::list_directory_spec;
use self::order::views;
use self::resolve::{resolve_path_fs_spec, resolve_path_req_spec, ResolvedPathView};
use crate::utils::SEPARATOR;
use vstd::prelude::*;
use vstd::slice::slice_to_vec;
use vstd::string::StringExecFns;
use vstd::utf8::encode_utf8;

verus! {

/// What the file server is set up with.
pub struct Config {
    /// The directory whose files are served.
    pub web_root: String,
    /// Whether a directory without an `index.html` is listed.
    pub list_directories: bool,
}

impl Config {
    /// The configuration that serves `web_root`.
    pub fn new(web_root: String, list_directories: bool) -> (cfg: Config)
        ensures
            cfg.web_root == web_root,
            cfg.list_directories == list_directories,
    {
        Config { web_root, list_directories }
    }
}

/// An answer that the server writes itself.
#[derive(Clone, Debug, PartialEq, Eq)]
pub struct Response {
    /// The status code.
    pub status: u16,
    /// The value of the header `Content-Type`, if it is sent.
    pub content_type: Option<String>,
    /// The value of the header `Location`, if it is sent.
    pub location: Option<String>,
    /// The body.
    pub body: String,
}

/// A `Response` with its texts as sequences of characters.
pub struct ResponseView {
    pub status: u16,
    pub content_type: Option<Seq<char>>,
    pub location: Option<Seq<char>>,
    pub body: Seq<char>,
}

impl View for Response {
    type V = ResponseView;

    open spec fn view(&self) -> ResponseView {
        ResponseView {
            status: self.status,
            content_type: match self.content_type {
                Some(text) => Some(text@),
                None => None,
            },
            location: match self.location {
                Some(text) => Some(text@),
                None => None,
            },
            body: self.body@,
        }
    }
}

/// An answer in plain text.
pub open spec fn plain_spec(status: u16, body: Seq<char>) -> ResponseView {
    ResponseView {
        status,
        content_type: Some("text/plain; charset=utf-8"@),
        location: None,
        body,
    }
}

/// The answer to a request that cannot be understood.
pub open spec fn bad_request_spec() -> ResponseView {
    plain_spec(400, "400 - bad request\n"@)
}

/// The answer to a request for what is not handed out.
pub open spec fn forbidden_spec() -> ResponseView {
    plain_spec(403, "403 - forbidden\n"@)
}

/// The answer to a request for what is not there.
pub open spec fn not_found_spec() -> ResponseView {
    plain_spec(404, "404 - not found\n"@)
}

/// The answer when the server itself fails.
pub open spec fn internal_error_spec() -> ResponseView {
    plain_spec(500, "500 - internal server error\n"@)
}

/// The answer that sends the client to `location`.
pub open spec fn found_spec(location: Seq<char>) -> ResponseView {
    ResponseView { status: 302, content_type: None, location: Some(location), body: Seq::empty() }
}

/// The answer that carries the page of a listing.
pub open spec fn page_spec(page: Seq<char>) -> ResponseView {
    ResponseView {
        status: 200,
        content_type: Some("text/html; charset=utf-8"@),
        location: None,
        body: page,
    }
}

fn plain(status: u16, body: &str) -> (r: Response)
    ensures
        r@ == plain_spec(status, body@),
{
    Response {
        status,
        content_type: Some(String::from_str("text/plain; charset=utf-8")),
        location: None,
        body: String::from_str(body),
    }
}

/// The answer to a request that cannot be understood.
pub fn bad_request() -> (r: Response)
    ensures
        r@ == bad_request_spec(),
{
    plain(400, "400 - bad request\n")
}

/// The answer to a request for what is not handed out.
pub fn forbidden() -> (r: Response)
    ensures
        r@ == forbidden_spec(),
{
    plain(403, "403 - forbidden\n")
}

/// The answer to a request for what is not there.
pub fn not_found() -> (r: Response)
    ensures
        r@ == not_found_spec(),
{
    plain(404, "404 - not found\n")
}

/// The answer when the server itself fails.
pub fn internal_error() -> (r: Response)
    ensures
        r@ == internal_error_spec(),
{
    plain(500, "500 - internal server error\n")
}

/// Where the answering of one request stands.
#[derive(Clone, Debug, PartialEq, Eq)]
pub enum Request {
    /// Nothing has been done yet.
    Received,
    /// The caller looks at what is at this path.
    Probing(Vec<u8>),
    /// The caller sends the file at this path.
    Sending(Vec<u8>),
    /// The caller reads the directory at this path.
    Listing(Vec<u8>),
    /// The answer is decided.
    Answered,
}

/// A `Request` with its paths as sequences of bytes.
pub enum RequestView {
    Received,
    Probing(Seq<u8>),
    Sending(Seq<u8>),
    Listing(Seq<u8>),
    Answered,
}

impl View for Request {
    type V = RequestView;

    open spec fn view(&self) -> RequestView {
        match self {
            Request::Received => RequestView::Received,
            Request::Probing(path) => RequestView::Probing(path@),
            Request::Sending(path) => RequestView::Sending(path@),
            Request::Listing(path) => RequestView::Listing(path@),
            Request::Answered => RequestView::Answered,
        }
    }
}

/// What the caller reports of the step it was asked for.
#[derive(Clone, Debug, PartialEq, Eq)]
pub enum Event {
    /// The request has arrived.
    Arrived,
    /// What the file system holds at the path that was to be probed.
    Probed(PathProbe),
    /// The file could not be opened.
    OpenFailed,
    /// The file was opened, but no answer could be made of it.
    SendFailed,
    /// The entries of the directory, each with a name that is text.
    Listed(Vec<DirEntry>),
    /// The directory could not be read.
    ListFailed,
}

/// What the caller does next for a request.
#[derive(Clone, Debug, PartialEq, Eq)]
pub enum Action {
    /// Look at what the file system holds at this path and report `Probed`.
    Probe(Vec<u8>),
    /// Answer with the file at this path; report only a failure.
    Send(Vec<u8>),
    /// Read the entries of the directory at this path and report them.
    List(Vec<u8>),
    /// Send this answer.
    Respond(Response),
}

/// An `Action` with its paths and texts as sequences.
pub enum ActionView {
    Probe(Seq<u8>),
    Send(Seq<u8>),
    List(Seq<u8>),
    Respond(ResponseView),
}

impl View for Action {
    type V = ActionView;

    open spec fn view(&self) -> ActionView {
        match self {
            Action::Probe(path) => ActionView::Probe(path@),
            Action::Send(path) => ActionView::Send(path@),
            Action::List(path) => ActionView::List(path@),
            Action::Respond(response) => ActionView::Respond(response@),
        }
    }
}

/// A directory is listed only under a path that ends in a separator, so that
/// the links of the page lead into it. The root, asked for by the empty path,
/// needs none.
pub open spec fn needs_redirect(req_path: Seq<char>) -> bool {
    let bytes = encode_utf8(req_path);
    bytes.len() > 0 && bytes.last() != SEPARATOR
}

/// The place to which a request for a directory is sent on: its own path
/// between two separators.
pub open spec fn redirect_target(req_path: Seq<char>) -> Seq<char> {
    "/"@ + req_path + "/"@
}

/// The next state and the next action of a request for `req_path`.
pub open spec fn index_spec(cfg: Config, req_path: Seq<char>, state: Request, event: Event) -> (
    RequestView,
    ActionView,
) {
    match (state, event) {
        (Request::Received, Event::Arrived) => match resolve_path_req_spec(
            encode_utf8(cfg.web_root@),
            encode_utf8(req_path),
        ) {
            Ok(path) => (RequestView::Probing(path), ActionView::Probe(path)),
            Err(_) => (RequestView::Answered, ActionView::Respond(bad_request_spec())),
        },
        (Request::Probing(path), Event::Probed(probe)) => match resolve_path_fs_spec(
            path@,
            probe,
            cfg.list_directories,
        ) {
            ResolvedPathView::File(file) => (RequestView::Sending(file), ActionView::Send(file)),
            ResolvedPathView::ListDir(dir) => if needs_redirect(req_path) {
                (
                    RequestView::Answered,
                    ActionView::Respond(found_spec(redirect_target(req_path))),
                )
            } else {
                (RequestView::Listing(dir), ActionView::List(dir))
            },
            ResolvedPathView::Forbidden => (
                RequestView::Answered,
                ActionView::Respond(forbidden_spec()),
            ),
            ResolvedPathView::NotFound => (
                RequestView::Answered,
                ActionView::Respond(not_found_spec()),
            ),
        },
        (Request::Sending(_), Event::OpenFailed) => (
            RequestView::Answered,
            ActionView::Respond(forbidden_spec()),
        ),
        (Request::Sending(_), Event::SendFailed) => (
            RequestView::Answered,
            ActionView::Respond(internal_error_spec()),
        ),
        (Request::Listing(_), Event::Listed(entries)) => (
            RequestView::Answered,
            ActionView::Respond(page_spec(list_directory_spec(views(entries@), req_path))),
        ),
        (Request::Listing(_), Event::ListFailed) => (
            RequestView::Answered,
            ActionView::Respond(forbidden_spec()),
        ),
        _ => (RequestView::Answered, ActionView::Respond(internal_error_spec())),
    }
}

/// Takes one step in answering the request for `req_path`.
///
/// The request starts in `Request::Received` with `Event::Arrived`. Each step
/// gives the next state and what the caller is to do; the caller does it and
/// comes back with the state and what it found, until the action is `Respond`
/// or a `Send` that went well.
///
/// A path that does not resolve below the web root is a bad request. What is
/// missing is not found. A file, or the `index.html` of a directory, is sent;
/// if it cannot be opened the answer is forbidden, and if no answer can be
/// made of it, an internal error. A directory without `index.html` is
/// forbidden unless directories are listed; if they are, a request whose path
/// does not end in a separator is sent on to the path that does, and any other
/// is answered with the page of the listing, or as forbidden if the directory
/// cannot be read. An event that does not fit the state is an internal error.
pub fn index(cfg: &Config, req_path: &str, state: Request, event: Event) -> (next: (
    Request,
    Action,
))
    ensures
        (next.0@, next.1@) == index_spec(*cfg, req_path@, state, event),
{
    match (state, event) {
        (Request::Received, Event::Arrived) => {
            match resolve_path_req(cfg.web_root.as_str(), req_path.as_bytes()) {
                Ok(path) => {
                    let probed = slice_to_vec(path.as_slice());
                    (Request::Probing(probed), Action::Probe(path))
                },
                Err(_) => (Request::Answered, Action::Respond(bad_request())),
            }
        },
        (Request::Probing(path), Event::Probed(probe)) => {
            match resolve_path_fs(path, probe, cfg.list_directories) {
                ResolvedPath::File(file) => {
                    let sent = slice_to_vec(file.as_slice());
                    (Request::Sending(sent), Action::Send(file))
                },
                ResolvedPath::ListDir(dir) => {
                    let bytes = req_path.as_bytes();
                    if bytes.len() > 0 && bytes[bytes.len() - 1] != SEPARATOR {
                        let mut location = String::from_str("/");
                        location.append(req_path);
                        location.append("/");
                        let response = Response {
                            status: 302,
                            content_type: None,
                            location: Some(location),
                            body: String::new(),
                        };
                        (Request::Answered, Action::Respond(response))
                    } else {
                        let listed = slice_to_vec(dir.as_slice());
                        (Request::Listing(listed), Action::List(dir))
                    }
                },
                ResolvedPath::Forbidden => (Request::Answered, Action::Respond(forbidden())),
                ResolvedPath::NotFound => (Request::Answered, Action::Respond(not_found())),
            }
        },
        (Request::Sending(_), Event::OpenFailed) => (
            Request::Answered,
            Action::Respond(forbidden()),
        ),
        (Request::Sending(_), Event::SendFailed) => (
            Request::Answered,
            Action::Respond(internal_error()),
        ),
        (Request::Listing(_), Event::Listed(entries)) => {
            let page = list_directory(entries, req_path);
            let response = Response {
                status: 200,
                content_type: Some(String::from_str("text/html; charset=utf-8")),
                location: None,
                body: page,
            };
            (Request::Answered, Action::Respond(response))
        },
        (Request::Listing(_), Event::ListFailed) => (
            Request::Answered,
            Action::Respond(forbidden()),
        ),
        _ => (Request::Answered, Action::Respond(internal_error())),
    }
}

} // verus!
