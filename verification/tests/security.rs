use narnia::args::Args;
use narnia::platform::Platform;
use narnia::security::HardeningStep::{
    ChangeDir, ClearEffective, ClearGroups, ClearPermitted, EnterJail, Pledge, ResolveUser,
    SetGroup, SetUser, Unveil as DeclarePaths,
};
use narnia::security::{
    become_user, chroot, drop_caps, plan, pledge, setup, unveil, HardenError, HardeningState,
    HardeningStep, Sequencer, Unveil,
};
use std::cell::RefCell;

fn args() -> Args {
    Args {
        verbose: 0,
        data_dir: None,
        web_root: Some(String::from("/srv/site")),
        list_directories: false,
        bind: Some(String::from("127.0.0.1:8080")),
        user: None,
        chroot: None,
        child_process: false,
        always_multi_process: false,
    }
}

fn full() -> Args {
    Args { user: Some(String::from("www")), chroot: Some(b"/srv".to_vec()), ..args() }
}

#[test]
fn stages() {
    assert_eq!(chroot(), vec![EnterJail, ChangeDir]);
    assert_eq!(become_user(), vec![ClearGroups, SetGroup, SetUser]);
    assert_eq!(drop_caps(), vec![ClearEffective, ClearPermitted]);
}

#[test]
fn plain_plan_only_drops_capabilities() {
    assert_eq!(plan(&args(), Platform::Linux), vec![ClearEffective, ClearPermitted]);
    assert_eq!(plan(&args(), Platform::Unix), Vec::<HardeningStep>::new());
    assert_eq!(plan(&args(), Platform::Windows), Vec::<HardeningStep>::new());
}

#[test]
fn full_plan_is_in_the_fixed_order() {
    assert_eq!(
        plan(&full(), Platform::Linux),
        vec![
            ResolveUser,
            EnterJail,
            ChangeDir,
            ClearGroups,
            SetGroup,
            SetUser,
            ClearEffective,
            ClearPermitted
        ]
    );
    assert_eq!(
        plan(&full(), Platform::OpenBsd),
        vec![
            ResolveUser,
            EnterJail,
            ChangeDir,
            ClearGroups,
            SetGroup,
            SetUser,
            DeclarePaths,
            Pledge
        ]
    );
    assert_eq!(
        plan(&full(), Platform::Unix),
        vec![ResolveUser, EnterJail, ChangeDir, ClearGroups, SetGroup, SetUser]
    );
}

#[test]
fn no_jail_beside_a_data_dir() {
    let a = Args { data_dir: Some(b"/var/lib/narnia".to_vec()), ..full() };
    assert_eq!(
        plan(&a, Platform::Linux),
        vec![ResolveUser, ClearGroups, SetGroup, SetUser, ClearEffective, ClearPermitted]
    );
}

#[test]
fn jail_without_user() {
    let a = Args { chroot: Some(b"/srv".to_vec()), ..args() };
    assert_eq!(
        plan(&a, Platform::Linux),
        vec![EnterJail, ChangeDir, ClearEffective, ClearPermitted]
    );
}

#[test]
fn sequence_that_goes_well() {
    let a = Args { chroot: Some(b"/srv".to_vec()), ..args() };
    let mut seq = Sequencer::new(&a, Platform::Linux).unwrap();
    assert_eq!(seq.state(), HardeningState::Unhardened);
    assert!(!seq.is_complete());
    assert_eq!(seq.next(), Some(EnterJail));
    assert_eq!(seq.report(EnterJail, true), Ok(HardeningState::Unhardened));
    assert_eq!(seq.next(), Some(ChangeDir));
    assert_eq!(seq.report(ChangeDir, true), Ok(HardeningState::Jailed));
    assert_eq!(seq.report(ClearEffective, true), Ok(HardeningState::Jailed));
    assert!(!seq.is_complete());
    assert_eq!(seq.report(ClearPermitted, true), Ok(HardeningState::PermissionsDropped));
    assert!(seq.is_complete());
    assert!(!seq.has_failed());
    assert_eq!(seq.next(), None);
    assert_eq!(seq.state(), HardeningState::PermissionsDropped);
}

#[test]
fn states_of_the_full_sequence() {
    let mut seq = Sequencer::new(&full(), Platform::OpenBsd).unwrap();
    let mut states = Vec::new();
    while let Some(step) = seq.next() {
        states.push(seq.report(step, true).unwrap());
    }
    assert_eq!(
        states,
        vec![
            HardeningState::Unhardened,
            HardeningState::Unhardened,
            HardeningState::Jailed,
            HardeningState::Jailed,
            HardeningState::Jailed,
            HardeningState::IdentitySwitched,
            HardeningState::IdentitySwitched,
            HardeningState::MacDeclared,
        ]
    );
    assert!(seq.is_complete());
}

#[test]
fn failed_step_fails_the_sequence_for_good() {
    let a = Args { chroot: Some(b"/srv".to_vec()), ..args() };
    let mut seq = Sequencer::new(&a, Platform::Linux).unwrap();
    assert_eq!(seq.report(EnterJail, false), Err(HardenError::Failed(EnterJail)));
    assert!(seq.has_failed());
    assert!(!seq.is_complete());
    assert_eq!(seq.next(), None);
    assert_eq!(seq.report(EnterJail, true), Err(HardenError::OutOfOrder(EnterJail)));
    assert_eq!(seq.report(ChangeDir, true), Err(HardenError::OutOfOrder(ChangeDir)));
    assert_eq!(seq.report(ClearEffective, true), Err(HardenError::OutOfOrder(ClearEffective)));
    assert_eq!(seq.report(ClearPermitted, true), Err(HardenError::OutOfOrder(ClearPermitted)));
    assert!(!seq.is_complete());
    assert_eq!(seq.state(), HardeningState::Unhardened);
}

#[test]
fn step_out_of_turn_fails_the_sequence() {
    let a = Args { chroot: Some(b"/srv".to_vec()), ..args() };
    let mut seq = Sequencer::new(&a, Platform::Linux).unwrap();
    assert_eq!(seq.report(ClearEffective, true), Err(HardenError::OutOfOrder(ClearEffective)));
    assert!(seq.has_failed());
    assert_eq!(seq.report(EnterJail, true), Err(HardenError::OutOfOrder(EnterJail)));
    assert!(!seq.is_complete());
}

#[test]
fn step_taken_twice_fails_the_sequence() {
    let a = Args { chroot: Some(b"/srv".to_vec()), ..args() };
    let mut seq = Sequencer::new(&a, Platform::Linux).unwrap();
    assert_eq!(seq.report(EnterJail, true), Ok(HardeningState::Unhardened));
    assert_eq!(seq.report(EnterJail, true), Err(HardenError::OutOfOrder(EnterJail)));
    assert!(seq.has_failed());
}

#[test]
fn step_after_the_end_fails_the_sequence() {
    let mut seq = Sequencer::new(&args(), Platform::Linux).unwrap();
    assert_eq!(seq.report(ClearEffective, true), Ok(HardeningState::Unhardened));
    assert_eq!(seq.report(ClearPermitted, true), Ok(HardeningState::PermissionsDropped));
    assert!(seq.is_complete());
    assert_eq!(seq.report(ClearPermitted, true), Err(HardenError::OutOfOrder(ClearPermitted)));
    assert!(!seq.is_complete());
}

#[test]
fn empty_plan_is_complete_at_once() {
    let seq = Sequencer::new(&args(), Platform::Unix).unwrap();
    assert!(seq.is_complete());
    assert_eq!(seq.next(), None);
    assert_eq!(seq.state(), HardeningState::Unhardened);
}

#[test]
fn what_the_platform_lacks_is_refused() {
    let a = Args { user: Some(String::from("www")), ..args() };
    assert_eq!(
        Sequencer::new(&a, Platform::Windows).err(),
        Some(HardenError::Unsupported(ResolveUser))
    );
    let a = Args { chroot: Some(b"/srv".to_vec()), ..args() };
    assert_eq!(
        Sequencer::new(&a, Platform::Windows).err(),
        Some(HardenError::Unsupported(EnterJail))
    );
    assert_eq!(
        Sequencer::new(&full(), Platform::Windows).err(),
        Some(HardenError::Unsupported(ResolveUser))
    );
    assert!(Sequencer::new(&args(), Platform::Windows).is_ok());
}

#[test]
fn setup_takes_every_step_in_order() {
    let taken = RefCell::new(Vec::new());
    let result = setup(&full(), Platform::Linux, |step| {
        taken.borrow_mut().push(step);
        true
    });
    assert_eq!(result.map(|word| word.state()), Ok(HardeningState::PermissionsDropped));
    assert_eq!(taken.into_inner(), plan(&full(), Platform::Linux));
}

#[test]
fn setup_without_steps_is_done_at_once() {
    let result = setup(&args(), Platform::Unix, |_| false);
    assert_eq!(result.map(|word| word.state()), Ok(HardeningState::Unhardened));
}

#[test]
fn no_word_before_the_sequence_is_complete() {
    let a = Args { chroot: Some(b"/srv".to_vec()), ..args() };
    let mut seq = Sequencer::new(&a, Platform::Linux).unwrap();
    for step in plan(&a, Platform::Linux) {
        assert!(seq.hardened().is_none());
        assert!(seq.report(step, true).is_ok());
    }
    assert_eq!(seq.hardened().map(|word| word.state()), Some(HardeningState::PermissionsDropped));
    assert!(seq.report(ClearPermitted, true).is_err());
    assert!(seq.hardened().is_none());
}

#[test]
fn no_word_after_a_failure() {
    let mut seq = Sequencer::new(&args(), Platform::Linux).unwrap();
    assert!(seq.report(ClearEffective, false).is_err());
    assert!(seq.hardened().is_none());
    assert!(seq.report(ClearEffective, true).is_err());
    assert!(seq.report(ClearPermitted, true).is_err());
    assert!(seq.hardened().is_none());
}

#[test]
fn setup_stops_at_the_first_failure() {
    for failing in plan(&full(), Platform::Linux) {
        let taken = RefCell::new(Vec::new());
        let result = setup(&full(), Platform::Linux, |step| {
            taken.borrow_mut().push(step);
            step != failing
        });
        assert_eq!(result.err(), Some(HardenError::Failed(failing)));
        let taken = taken.into_inner();
        assert_eq!(taken.last(), Some(&failing));
        let all = plan(&full(), Platform::Linux);
        assert_eq!(taken[..], all[..taken.len()]);
    }
}

#[test]
fn setup_refuses_what_the_platform_lacks() {
    let taken = RefCell::new(Vec::new());
    let result = setup(&full(), Platform::Windows, |step| {
        taken.borrow_mut().push(step);
        true
    });
    assert_eq!(result.err(), Some(HardenError::Unsupported(ResolveUser)));
    assert!(taken.into_inner().is_empty());
}

#[test]
fn jail_never_ends_with_capabilities() {
    let a = Args { chroot: Some(b"/srv".to_vec()), ..args() };
    let steps = plan(&a, Platform::Linux);
    for failing in 0..steps.len() {
        for wrong in [None, Some(EnterJail), Some(ClearPermitted)] {
            let mut seq = Sequencer::new(&a, Platform::Linux).unwrap();
            for (i, step) in steps.iter().enumerate() {
                if i == failing {
                    match wrong {
                        None => assert!(seq.report(*step, false).is_err()),
                        Some(other) if other != *step => assert!(seq.report(other, true).is_err()),
                        Some(_) => assert!(seq.report(*step, false).is_err()),
                    }
                } else {
                    let _ = seq.report(*step, true);
                }
            }
            assert!(!seq.is_complete());
            assert_ne!(seq.state(), HardeningState::PermissionsDropped);
        }
    }
}

#[test]
fn unveil_declarations() {
    let a = Args { data_dir: Some(b"/var/lib/narnia".to_vec()), ..args() };
    assert_eq!(
        unveil(&a),
        vec![
            Unveil { path: b"/srv/site".to_vec(), permissions: String::from("r") },
            Unveil { path: b"/var/lib/narnia".to_vec(), permissions: String::from("rwc") },
            Unveil { path: Vec::new(), permissions: String::new() },
        ]
    );
    assert_eq!(
        unveil(&args()),
        vec![
            Unveil { path: b"/srv/site".to_vec(), permissions: String::from("r") },
            Unveil { path: Vec::new(), permissions: String::new() },
        ]
    );
    let a = Args { web_root: None, ..args() };
    assert_eq!(unveil(&a), vec![Unveil { path: Vec::new(), permissions: String::new() }]);
}

#[test]
fn pledge_promises() {
    assert_eq!(pledge(&args()), "stdio dns inet rpath unix");
    let a = Args { data_dir: Some(b"/var/lib/narnia".to_vec()), ..args() };
    assert_eq!(pledge(&a), "stdio dns inet rpath unix wpath cpath flock");
    let a = Args { user: Some(String::from("www")), ..args() };
    assert_eq!(pledge(&a), "stdio dns inet rpath unix id");
    let a = Args { chroot: Some(b"/srv".to_vec()), ..args() };
    assert_eq!(pledge(&a), "stdio dns inet rpath unix id");
    let a = Args { data_dir: Some(b"/var/lib/narnia".to_vec()), ..full() };
    assert_eq!(pledge(&a), "stdio dns inet rpath unix wpath cpath id flock");
}

#[test]
fn harden_error_messages() {
    assert_eq!(HardenError::Failed(ResolveUser).message(), "Could not find user");
    assert_eq!(HardenError::Failed(EnterJail).message(), "Failed to chroot");
    assert_eq!(HardenError::Failed(ChangeDir).message(), "Failed to chdir after chroot");
    assert_eq!(
        HardenError::Failed(ClearGroups).message(),
        "Failed to clear supplementary groups"
    );
    assert_eq!(HardenError::Failed(SetGroup).message(), "Failed to set gid");
    assert_eq!(HardenError::Failed(SetUser).message(), "Failed to set uid");
    assert_eq!(HardenError::Failed(DeclarePaths).message(), "Failed to setup unveil");
    assert_eq!(HardenError::Failed(Pledge).message(), "Failed to pledge");
    assert_eq!(
        HardenError::Failed(ClearEffective).message(),
        "Failed to clear effective capability set"
    );
    assert_eq!(
        HardenError::Failed(ClearPermitted).message(),
        "Failed to clear permitted capability set"
    );
    assert_eq!(HardenError::Unsupported(EnterJail).message(), "Not supported on this platform");
    assert_eq!(HardenError::OutOfOrder(EnterJail).message(), "Hardening step out of order");
}

fn rank(state: HardeningState) -> u8 {
    match state {
        HardeningState::Unhardened => 0,
        HardeningState::Jailed => 1,
        HardeningState::IdentitySwitched => 2,
        HardeningState::MacDeclared => 3,
        HardeningState::PermissionsDropped => 4,
    }
}

#[test]
fn states_are_reached_in_one_order() {
    for platform in [Platform::Linux, Platform::OpenBsd, Platform::Unix] {
        for a in [args(), full(), Args { chroot: Some(b"/srv".to_vec()), ..args() }] {
            let mut seq = Sequencer::new(&a, platform).unwrap();
            let mut last = rank(seq.state());
            while let Some(step) = seq.next() {
                let now = rank(seq.report(step, true).unwrap());
                assert!(last <= now);
                last = now;
            }
            assert!(seq.is_complete());
        }
    }
}
