use narnia::args::{Args, BindTarget};
use narnia::errors::Error;
use narnia::platform::Platform;
use narnia::tor::{
    hidden_service, HiddenService, HIDDEN_SERVICE_PORT, HIDDEN_SERVICE_VERSION, SOCKS_PORT,
};

fn args() -> Args {
    Args {
        verbose: 0,
        data_dir: Some(b"/var/lib/narnia".to_vec()),
        web_root: Some(String::from("/srv/site")),
        list_directories: false,
        bind: None,
        user: None,
        chroot: None,
        child_process: false,
        always_multi_process: false,
    }
}

#[test]
fn service_forwards_to_the_socket_in_the_data_dir() {
    assert_eq!(
        hidden_service(&args(), b"/var/lib/narnia", Platform::Linux),
        Ok(HiddenService {
            data_dir: String::from("/var/lib/narnia"),
            socks_port: 0,
            service_dir: String::from("/var/lib/narnia/hs"),
            version: 3,
            port: 80,
            target: BindTarget::Unix(String::from("/var/lib/narnia/narnia.sock")),
        })
    );
}

#[test]
fn service_forwards_to_the_bind_address() {
    let a = Args { bind: Some(String::from("127.0.0.1:8080")), ..args() };
    let service = hidden_service(&a, b"/var/lib/narnia/", Platform::Linux).unwrap();
    assert_eq!(service.target, BindTarget::Address(String::from("127.0.0.1:8080")));
    assert_eq!(service.service_dir, "/var/lib/narnia/hs");
    assert_eq!(service.data_dir, "/var/lib/narnia/");
}

#[test]
fn no_service_without_a_place_to_listen() {
    let a = Args { data_dir: None, ..args() };
    assert_eq!(hidden_service(&a, b"/var/lib/narnia", Platform::Linux), Err(Error::MissingBind));
    assert_eq!(
        hidden_service(&args(), b"/var/lib/narnia", Platform::Windows),
        Err(Error::BindRequired)
    );
}

#[test]
fn no_service_in_a_directory_that_is_no_text() {
    let a = Args { bind: Some(String::from("127.0.0.1:8080")), ..args() };
    assert_eq!(hidden_service(&a, &[0x2f, 0xff], Platform::Linux), Err(Error::InvalidUtf8));
}

#[test]
fn hidden_service_constants() {
    assert_eq!(HIDDEN_SERVICE_PORT, 80);
    assert_eq!(HIDDEN_SERVICE_VERSION, 3);
    assert_eq!(SOCKS_PORT, 0);
}
