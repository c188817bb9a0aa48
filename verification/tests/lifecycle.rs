use narnia::args::Args;
use narnia::lifecycle::{sources, watch_parent, Liveness, ShutdownSignal, ShutdownSource};
use narnia::platform::Platform;
use narnia::security::{setup, Hardened};

fn args() -> Args {
    Args {
        verbose: 0,
        data_dir: None,
        web_root: Some(String::from("/srv/site")),
        list_directories: false,
        bind: Some(String::from("127.0.0.1:8080")),
        user: None,
        chroot: None,
        child_process: false,
        always_multi_process: false,
    }
}

fn hardened(args: &Args) -> Hardened {
    setup(args, Platform::Linux, |_| true).unwrap()
}

#[test]
fn end_of_input_ends_the_child() {
    assert_eq!(watch_parent(Some(0)), Liveness::Closed);
}

#[test]
fn input_keeps_the_child_alive() {
    assert_eq!(watch_parent(Some(1)), Liveness::Alive);
    assert_eq!(watch_parent(Some(128)), Liveness::Alive);
    assert_eq!(watch_parent(Some(usize::MAX)), Liveness::Alive);
}

#[test]
fn failed_read_is_told_apart() {
    assert_eq!(watch_parent(None), Liveness::Failed);
}

#[test]
fn first_signal_wins() {
    let mut signal = ShutdownSignal::new();
    assert!(!signal.is_fired());
    assert_eq!(signal.cause(), None);
    assert!(signal.fire(ShutdownSource::ParentLost));
    assert!(signal.is_fired());
    assert_eq!(signal.cause(), Some(ShutdownSource::ParentLost));
    assert!(!signal.fire(ShutdownSource::Service));
    assert!(!signal.fire(ShutdownSource::ParentLost));
    assert!(!signal.fire(ShutdownSource::HiddenService));
    assert_eq!(signal.cause(), Some(ShutdownSource::ParentLost));
    assert!(signal.is_fired());
}

#[test]
fn plain_process_runs_the_service() {
    assert_eq!(sources(&args(), &hardened(&args())), vec![ShutdownSource::Service]);
}

#[test]
fn child_watches_its_parent() {
    let a = Args { child_process: true, ..args() };
    assert_eq!(
        sources(&a, &hardened(&a)),
        vec![ShutdownSource::Service, ShutdownSource::ParentLost]
    );
}

#[test]
fn parent_waits_for_child_and_hidden_service() {
    let a = Args {
        data_dir: Some(b"/var/lib/narnia".to_vec()),
        chroot: Some(b"/srv".to_vec()),
        ..args()
    };
    assert_eq!(
        sources(&a, &hardened(&a)),
        vec![ShutdownSource::Child, ShutdownSource::HiddenService]
    );
}

#[test]
fn data_dir_starts_the_hidden_service() {
    let a = Args { data_dir: Some(b"/var/lib/narnia".to_vec()), ..args() };
    assert_eq!(
        sources(&a, &hardened(&a)),
        vec![ShutdownSource::Service, ShutdownSource::HiddenService]
    );
}
