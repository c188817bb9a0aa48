use narnia::errors::Error;
use narnia::utils::{join, mkprivdir, path_to_string, MkdirOutcome, PRIVATE_DIR_MODE, SEPARATOR};
use std::path::Path;

#[test]
fn join_adds_one_separator() {
    assert_eq!(join(b"/var/lib", b"narnia.sock"), b"/var/lib/narnia.sock".to_vec());
    assert_eq!(join(b"/var/lib/", b"narnia.sock"), b"/var/lib/narnia.sock".to_vec());
    assert_eq!(join(b"", b"hs"), b"hs".to_vec());
    assert_eq!(join(b"/", b"hs"), b"/hs".to_vec());
    assert_eq!(join(b"a", b""), b"a/".to_vec());
}

#[test]
fn join_with_a_rooted_name_gives_the_name() {
    assert_eq!(join(b"/var/lib", b"/etc"), b"/etc".to_vec());
}

#[test]
fn join_agrees_with_std() {
    for (base, name) in [
        ("/var/lib", "x"),
        ("/var/lib/", "x"),
        ("", "x"),
        ("a", ""),
        ("a", "/b"),
        ("a/b", "c/d"),
    ] {
        let ours = String::from_utf8(join(base.as_bytes(), name.as_bytes())).unwrap();
        let theirs = Path::new(base).join(name);
        assert_eq!(ours, theirs.to_str().unwrap());
    }
}

#[test]
fn text_path_is_its_text() {
    assert_eq!(path_to_string(b"/var/lib/narnia".to_vec()), Ok(String::from("/var/lib/narnia")));
    assert_eq!(
        path_to_string("/srv/caf\u{e9}".as_bytes().to_vec()),
        Ok(String::from("/srv/caf\u{e9}"))
    );
    assert_eq!(path_to_string(Vec::new()), Ok(String::new()));
}

#[test]
fn path_that_is_no_text_is_an_error() {
    assert_eq!(path_to_string(vec![0x2f, 0xff, 0xfe]), Err(Error::InvalidUtf8));
    assert_eq!(path_to_string(vec![0xc3]), Err(Error::InvalidUtf8));
    assert_eq!(path_to_string(vec![0xed, 0xa0, 0x80]), Err(Error::InvalidUtf8));
}

#[test]
fn existing_directory_is_as_good_as_new() {
    assert_eq!(mkprivdir(MkdirOutcome::Created), Ok(()));
    assert_eq!(mkprivdir(MkdirOutcome::Exists), Ok(()));
}

#[test]
fn other_failure_keeps_its_number() {
    assert_eq!(mkprivdir(MkdirOutcome::Failed(13)), Err(Error::DataDir(13)));
    assert_eq!(mkprivdir(MkdirOutcome::Failed(2)), Err(Error::DataDir(2)));
}

#[test]
fn path_constants() {
    assert_eq!(SEPARATOR, b'/');
    assert_eq!(PRIVATE_DIR_MODE, 0o700);
}

#[test]
fn error_messages() {
    assert_eq!(Error::InvalidUtf8.message(), "Path contains invalid utf8");
    assert_eq!(
        Error::MissingBind.message(),
        "Either bind address or data directory needs to be configured"
    );
    assert_eq!(Error::BindRequired.message(), "You always have to set -B on windows");
    assert_eq!(Error::MissingWebRoot.message(), "Missing --web-root argument");
    assert_eq!(Error::DataDir(13).message(), "Failed to create data directory");
    assert_eq!(Error::RootDir.message(), "Invalid component: unix root directory");
    assert_eq!(Error::CurDir.message(), "Invalid component: current dir");
    assert_eq!(Error::ParentDir.message(), "Invalid component: parent dir");
}
