use narnia::httpd::{
    bad_request, forbidden, index, internal_error, not_found, Action, Config, DirEntry, Event,
    PathProbe, Request, Response,
};

fn config(list_directories: bool) -> Config {
    Config::new(String::from("/srv/site"), list_directories)
}

fn plain(status: u16, body: &str) -> Response {
    Response {
        status,
        content_type: Some(String::from("text/plain; charset=utf-8")),
        location: None,
        body: String::from(body),
    }
}

fn entry(name: &str, size: u64) -> DirEntry {
    DirEntry { name: String::from(name), size }
}

#[test]
fn config_keeps_what_it_is_given() {
    let cfg = Config::new(String::from("/srv/site"), true);
    assert_eq!(cfg.web_root, "/srv/site");
    assert!(cfg.list_directories);
}

#[test]
fn error_answers() {
    assert_eq!(bad_request(), plain(400, "400 - bad request\n"));
    assert_eq!(forbidden(), plain(403, "403 - forbidden\n"));
    assert_eq!(not_found(), plain(404, "404 - not found\n"));
    assert_eq!(internal_error(), plain(500, "500 - internal server error\n"));
}

#[test]
fn present_file_is_sent() {
    let cfg = config(false);
    let (state, action) = index(&cfg, "index.html", Request::Received, Event::Arrived);
    assert_eq!(state, Request::Probing(b"/srv/site/index.html".to_vec()));
    assert_eq!(action, Action::Probe(b"/srv/site/index.html".to_vec()));
    let (state, action) = index(&cfg, "index.html", state, Event::Probed(PathProbe::File));
    assert_eq!(state, Request::Sending(b"/srv/site/index.html".to_vec()));
    assert_eq!(action, Action::Send(b"/srv/site/index.html".to_vec()));
}

#[test]
fn absent_file_is_not_found() {
    let cfg = config(true);
    let (state, action) = index(&cfg, "missing.txt", Request::Received, Event::Arrived);
    assert_eq!(action, Action::Probe(b"/srv/site/missing.txt".to_vec()));
    let (state, action) = index(&cfg, "missing.txt", state, Event::Probed(PathProbe::Missing));
    assert_eq!(state, Request::Answered);
    assert_eq!(action, Action::Respond(not_found()));
}

#[test]
fn directory_is_listed_with_sizes_in_the_order_of_the_names() {
    let cfg = config(true);
    let (state, action) = index(&cfg, "sub/", Request::Received, Event::Arrived);
    assert_eq!(action, Action::Probe(b"/srv/site/sub".to_vec()));
    let (state, action) =
        index(&cfg, "sub/", state, Event::Probed(PathProbe::Directory { index: false }));
    assert_eq!(state, Request::Listing(b"/srv/site/sub".to_vec()));
    assert_eq!(action, Action::List(b"/srv/site/sub".to_vec()));
    let entries = vec![entry("notes", 20), entry("data", 4096), entry("b", 1)];
    let (state, action) = index(&cfg, "sub/", state, Event::Listed(entries));
    assert_eq!(state, Request::Answered);
    let page = format!(
        "<html>\n<head><title>Index of /sub/</title></head>\n<body>\n<h1>Index of /sub/</h1><hr><pre>\n\
         <a href=\"../\">../</a>\n\
         <a href=\"b\">b</a>{} 1\n\
         <a href=\"data\">data</a>{} 4096\n\
         <a href=\"notes\">notes</a>{} 20\n\
         </pre><hr></body>\n</html>\n",
        " ".repeat(49),
        " ".repeat(46),
        " ".repeat(45)
    );
    assert_eq!(
        action,
        Action::Respond(Response {
            status: 200,
            content_type: Some(String::from("text/html; charset=utf-8")),
            location: None,
            body: page,
        })
    );
}

#[test]
fn directory_with_index_is_sent_as_that_file() {
    for list in [false, true] {
        let cfg = config(list);
        let (state, _) = index(&cfg, "sub/", Request::Received, Event::Arrived);
        let (state, action) =
            index(&cfg, "sub/", state, Event::Probed(PathProbe::Directory { index: true }));
        assert_eq!(state, Request::Sending(b"/srv/site/sub/index.html".to_vec()));
        assert_eq!(action, Action::Send(b"/srv/site/sub/index.html".to_vec()));
    }
}

#[test]
fn directory_is_forbidden_without_listing() {
    let cfg = config(false);
    let (state, _) = index(&cfg, "sub/", Request::Received, Event::Arrived);
    let (state, action) =
        index(&cfg, "sub/", state, Event::Probed(PathProbe::Directory { index: false }));
    assert_eq!(state, Request::Answered);
    assert_eq!(action, Action::Respond(forbidden()));
}

#[test]
fn directory_without_final_separator_is_sent_on() {
    let cfg = config(true);
    let (state, _) = index(&cfg, "a/sub", Request::Received, Event::Arrived);
    let (state, action) =
        index(&cfg, "a/sub", state, Event::Probed(PathProbe::Directory { index: false }));
    assert_eq!(state, Request::Answered);
    assert_eq!(
        action,
        Action::Respond(Response {
            status: 302,
            content_type: None,
            location: Some(String::from("/a/sub/")),
            body: String::new(),
        })
    );
}

#[test]
fn root_is_listed_without_being_sent_on() {
    let cfg = config(true);
    let (state, action) = index(&cfg, "", Request::Received, Event::Arrived);
    assert_eq!(action, Action::Probe(b"/srv/site".to_vec()));
    let (state, action) =
        index(&cfg, "", state, Event::Probed(PathProbe::Directory { index: false }));
    assert_eq!(state, Request::Listing(b"/srv/site".to_vec()));
    assert_eq!(action, Action::List(b"/srv/site".to_vec()));
}

#[test]
fn path_that_leads_out_is_a_bad_request() {
    let cfg = config(true);
    for req in ["../etc/passwd", "a/../../b", "./x", "/etc/passwd", ".", "a/./b"] {
        let (state, action) = index(&cfg, req, Request::Received, Event::Arrived);
        assert_eq!(state, Request::Answered);
        assert_eq!(action, Action::Respond(bad_request()));
    }
}

#[test]
fn file_that_cannot_be_opened_is_forbidden() {
    let cfg = config(false);
    let state = Request::Sending(b"/srv/site/x".to_vec());
    assert_eq!(
        index(&cfg, "x", state, Event::OpenFailed),
        (Request::Answered, Action::Respond(forbidden()))
    );
}

#[test]
fn file_that_makes_no_answer_is_an_internal_error() {
    let cfg = config(false);
    let state = Request::Sending(b"/srv/site/x".to_vec());
    assert_eq!(
        index(&cfg, "x", state, Event::SendFailed),
        (Request::Answered, Action::Respond(internal_error()))
    );
}

#[test]
fn directory_that_cannot_be_read_is_forbidden() {
    let cfg = config(true);
    let state = Request::Listing(b"/srv/site/sub".to_vec());
    assert_eq!(
        index(&cfg, "sub/", state, Event::ListFailed),
        (Request::Answered, Action::Respond(forbidden()))
    );
}

#[test]
fn event_that_does_not_fit_is_an_internal_error() {
    let cfg = config(true);
    let wrong = (Request::Answered, Action::Respond(internal_error()));
    assert_eq!(index(&cfg, "x", Request::Received, Event::Probed(PathProbe::File)), wrong);
    assert_eq!(index(&cfg, "x", Request::Answered, Event::Arrived), wrong);
    assert_eq!(index(&cfg, "x", Request::Probing(b"/srv/site/x".to_vec()), Event::Arrived), wrong);
    assert_eq!(
        index(&cfg, "x", Request::Sending(b"/srv/site/x".to_vec()), Event::Listed(Vec::new())),
        wrong
    );
    assert_eq!(
        index(&cfg, "x", Request::Listing(b"/srv/site/x".to_vec()), Event::OpenFailed),
        wrong
    );
}
