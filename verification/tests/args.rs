use narnia::args::{Args, BindTarget};
use narnia::errors::Error;
use narnia::platform::Platform;

fn args() -> Args {
    Args {
        verbose: 0,
        data_dir: None,
        web_root: Some(String::from("/srv/site")),
        list_directories: false,
        bind: None,
        user: None,
        chroot: None,
        child_process: false,
        always_multi_process: false,
    }
}

#[test]
fn plain_configuration_needs_no_child() {
    assert!(!args().needs_child());
}

#[test]
fn child_on_request() {
    let a = Args { always_multi_process: true, ..args() };
    assert!(a.needs_child());
}

#[test]
fn data_dir_with_chroot_needs_a_child() {
    let a = Args {
        data_dir: Some(b"/var/lib/narnia".to_vec()),
        chroot: Some(b"/srv".to_vec()),
        ..args()
    };
    assert!(a.needs_child());
}

#[test]
fn data_dir_or_chroot_alone_needs_no_child() {
    assert!(!Args { data_dir: Some(b"/var/lib/narnia".to_vec()), ..args() }.needs_child());
    assert!(!Args { chroot: Some(b"/srv".to_vec()), ..args() }.needs_child());
}

#[test]
fn bind_address_is_a_network_address() {
    let a = Args { bind: Some(String::from("127.0.0.1:8080")), ..args() };
    assert_eq!(
        a.bind_addr(Platform::Linux),
        Ok(BindTarget::Address(String::from("127.0.0.1:8080")))
    );
    let a = Args { bind: Some(String::from("[::1]:80")), ..args() };
    assert_eq!(a.bind_addr(Platform::OpenBsd), Ok(BindTarget::Address(String::from("[::1]:80"))));
}

#[test]
fn bind_address_written_as_a_path_is_a_local_socket() {
    let a = Args { bind: Some(String::from("/run/narnia.sock")), ..args() };
    assert_eq!(
        a.bind_addr(Platform::Linux),
        Ok(BindTarget::Unix(String::from("/run/narnia.sock")))
    );
    let a = Args { bind: Some(String::from("./narnia.sock")), ..args() };
    assert_eq!(a.bind_addr(Platform::Unix), Ok(BindTarget::Unix(String::from("./narnia.sock"))));
}

#[test]
fn bind_address_wins_over_data_dir() {
    let a = Args {
        bind: Some(String::from("127.0.0.1:8080")),
        data_dir: Some(b"/var/lib/narnia".to_vec()),
        ..args()
    };
    assert_eq!(
        a.bind_addr(Platform::Linux),
        Ok(BindTarget::Address(String::from("127.0.0.1:8080")))
    );
}

#[test]
fn empty_bind_address_is_a_network_address() {
    let a = Args { bind: Some(String::new()), ..args() };
    assert_eq!(a.bind_addr(Platform::Linux), Ok(BindTarget::Address(String::new())));
}

#[test]
fn without_local_sockets_every_bind_address_is_a_network_address() {
    let a = Args { bind: Some(String::from("/run/narnia.sock")), ..args() };
    assert_eq!(
        a.bind_addr(Platform::Windows),
        Ok(BindTarget::Address(String::from("/run/narnia.sock")))
    );
}

#[test]
fn data_dir_gives_the_socket_in_it() {
    let a = Args { data_dir: Some(b"/var/lib/narnia".to_vec()), ..args() };
    assert_eq!(
        a.bind_addr(Platform::Linux),
        Ok(BindTarget::Unix(String::from("/var/lib/narnia/narnia.sock")))
    );
    let a = Args { data_dir: Some(b"data/".to_vec()), ..args() };
    assert_eq!(
        a.bind_addr(Platform::Linux),
        Ok(BindTarget::Unix(String::from("data/narnia.sock")))
    );
}

#[test]
fn data_dir_that_is_no_text_gives_no_socket() {
    let a = Args { data_dir: Some(vec![0x2f, 0xff]), ..args() };
    assert_eq!(a.bind_addr(Platform::Linux), Err(Error::InvalidUtf8));
}

#[test]
fn without_local_sockets_a_bind_address_is_required() {
    let a = Args { data_dir: Some(b"C:/narnia".to_vec()), ..args() };
    assert_eq!(a.bind_addr(Platform::Windows), Err(Error::BindRequired));
}

#[test]
fn neither_bind_address_nor_data_dir_is_an_error() {
    for platform in [Platform::Linux, Platform::OpenBsd, Platform::Unix, Platform::Windows] {
        assert_eq!(args().bind_addr(platform), Err(Error::MissingBind));
    }
}

#[test]
fn child_configuration_is_restricted() {
    let a = Args {
        verbose: 2,
        data_dir: Some(b"/var/lib/narnia".to_vec()),
        web_root: Some(String::from("/srv/site")),
        list_directories: true,
        bind: Some(String::from("/run/narnia.sock")),
        user: Some(String::from("www")),
        chroot: Some(b"/srv".to_vec()),
        child_process: true,
        always_multi_process: true,
    };
    let child = a.clone().for_child();
    assert_eq!(
        child,
        Args { data_dir: None, child_process: false, always_multi_process: false, ..a }
    );
    assert!(!child.needs_child());
}

#[test]
fn received_configuration_is_marked() {
    let received = Args { user: Some(String::from("www")), ..args() };
    let child = received.clone().as_child();
    assert_eq!(child, Args { child_process: true, ..received });
}

#[test]
fn log_levels() {
    assert_eq!(Args { verbose: 0, ..args() }.log_level(), "warn");
    assert_eq!(Args { verbose: 1, ..args() }.log_level(), "info");
    assert_eq!(Args { verbose: 2, ..args() }.log_level(), "debug");
    assert_eq!(Args { verbose: 3, ..args() }.log_level(), "trace");
    assert_eq!(Args { verbose: 255, ..args() }.log_level(), "trace");
}

#[test]
fn platforms() {
    assert!(Platform::Linux.is_unix() && Platform::OpenBsd.is_unix() && Platform::Unix.is_unix());
    assert!(!Platform::Windows.is_unix());
    assert!(Platform::Linux.has_capabilities());
    assert!(!Platform::OpenBsd.has_capabilities() && !Platform::Unix.has_capabilities());
    assert!(!Platform::Windows.has_capabilities());
    assert!(Platform::OpenBsd.has_pledge());
    assert!(!Platform::Linux.has_pledge() && !Platform::Unix.has_pledge());
    assert!(!Platform::Windows.has_pledge());
}
