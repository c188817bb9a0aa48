//! Giving up privileges, in a fixed order and once.
//!
//! The steps change the process for good, so the caller performs them and the
//! `Sequencer` keeps the account: which step is next, and whether every step
//! went well.

pub mod sequencer;

pub use self::sequencer::{Hardened, Sequencer};

use self::sequencer::{
    law_completion_takes_every_step, law_reports_follow_plan, state_after, Progress,
};
use crate::args::Args;
use crate::platform::Platform;
use vstd::prelude::*;
use vstd::slice::slice_to_vec;
use vstd::string::StringExecFns;
use vstd::utf8::encode_utf8;

verus! {

/// One step of locking the process down.
#[derive(Clone, Copy, Debug, PartialEq, Eq, Structural)]
pub enum HardeningStep {
    /// Find the numbers of the configured user and of its primary group.
    ResolveUser,
    /// Make the configured directory the root of the file system.
    EnterJail,
    /// Make the new root the working directory.
    ChangeDir,
    /// Leave all supplementary groups.
    ClearGroups,
    /// Take the primary group of the user.
    SetGroup,
    /// Become the user.
    SetUser,
    /// Declare the paths of `unveil`, and close the list.
    Unveil,
    /// Declare the promises of `pledge`.
    Pledge,
    /// Clear the capabilities that are in effect.
    ClearEffective,
    /// Clear the capabilities that could be put into effect again.
    ClearPermitted,
}

impl HardeningStep {
    /// The place of the step in the one order in which steps are taken.
    pub open spec fn rank(self) -> int {
        match self {
            HardeningStep::ResolveUser => 0,
            HardeningStep::EnterJail => 1,
            HardeningStep::ChangeDir => 2,
            HardeningStep::ClearGroups => 3,
            HardeningStep::SetGroup => 4,
            HardeningStep::SetUser => 5,
            HardeningStep::Unveil => 6,
            HardeningStep::Pledge => 7,
            HardeningStep::ClearEffective => 8,
            HardeningStep::ClearPermitted => 9,
        }
    }
}

/// How far the process is locked down.
#[derive(Clone, Copy, Debug, PartialEq, Eq, Structural)]
pub enum HardeningState {
    /// Nothing has changed yet.
    Unhardened,
    /// The process lives below its new root.
    Jailed,
    /// The process runs as the configured user.
    IdentitySwitched,
    /// The process has declared what it will use.
    MacDeclared,
    /// The process holds no capabilities.
    PermissionsDropped,
}

impl HardeningState {
    /// The place of the state in the one order in which states are reached.
    pub open spec fn rank(self) -> int {
        match self {
            HardeningState::Unhardened => 0,
            HardeningState::Jailed => 1,
            HardeningState::IdentitySwitched => 2,
            HardeningState::MacDeclared => 3,
            HardeningState::PermissionsDropped => 4,
        }
    }
}

/// Why the process is not locked down.
#[derive(Clone, Copy, Debug, PartialEq, Eq, Structural)]
pub enum HardenError {
    /// The configuration asks for a step that the platform does not have.
    Unsupported(HardeningStep),
    /// The step was tried and failed.
    Failed(HardeningStep),
    /// The step was reported when it was not its turn: before its turn, a
    /// second time, or after the sequence had ended or failed.
    OutOfOrder(HardeningStep),
}

impl HardenError {
    /// The text that `message` gives for each error.
    pub open spec fn message_spec(self) -> Seq<char> {
        match self {
            HardenError::Unsupported(_) => "Not supported on this platform"@,
            HardenError::OutOfOrder(_) => "Hardening step out of order"@,
            HardenError::Failed(step) => match step {
                HardeningStep::ResolveUser => "Could not find user"@,
                HardeningStep::EnterJail => "Failed to chroot"@,
                HardeningStep::ChangeDir => "Failed to chdir after chroot"@,
                HardeningStep::ClearGroups => "Failed to clear supplementary groups"@,
                HardeningStep::SetGroup => "Failed to set gid"@,
                HardeningStep::SetUser => "Failed to set uid"@,
                HardeningStep::Unveil => "Failed to setup unveil"@,
                HardeningStep::Pledge => "Failed to pledge"@,
                HardeningStep::ClearEffective => "Failed to clear effective capability set"@,
                HardeningStep::ClearPermitted => "Failed to clear permitted capability set"@,
            },
        }
    }

    /// The error as a line for the log. It names the step that failed.
    pub fn message(&self) -> (text: String)
        ensures
            text@ == self.message_spec(),
    {
        match self {
            HardenError::Unsupported(_) => String::from_str("Not supported on this platform"),
            HardenError::OutOfOrder(_) => String::from_str("Hardening step out of order"),
            HardenError::Failed(step) => match step {
                HardeningStep::ResolveUser => String::from_str("Could not find user"),
                HardeningStep::EnterJail => String::from_str("Failed to chroot"),
                HardeningStep::ChangeDir => String::from_str("Failed to chdir after chroot"),
                HardeningStep::ClearGroups => String::from_str(
                    "Failed to clear supplementary groups",
                ),
                HardeningStep::SetGroup => String::from_str("Failed to set gid"),
                HardeningStep::SetUser => String::from_str("Failed to set uid"),
                HardeningStep::Unveil => String::from_str("Failed to setup unveil"),
                HardeningStep::Pledge => String::from_str("Failed to pledge"),
                HardeningStep::ClearEffective => String::from_str(
                    "Failed to clear effective capability set",
                ),
                HardeningStep::ClearPermitted => String::from_str(
                    "Failed to clear permitted capability set",
                ),
            },
        }
    }
}

/// Whether the configuration asks for a new root in this process: a directory
/// is configured for it, and the process keeps no data directory, which would
/// lie outside.
pub open spec fn wants_jail(args: Args) -> bool {
    args.data_dir is None && args.chroot is Some
}

/// The steps that enter the new root.
pub open spec fn chroot_spec() -> Seq<HardeningStep> {
    seq![HardeningStep::EnterJail, HardeningStep::ChangeDir]
}

/// The steps that change the user: the group before the user, because the
/// user may not change its group any more.
pub open spec fn become_user_spec() -> Seq<HardeningStep> {
    seq![HardeningStep::ClearGroups, HardeningStep::SetGroup, HardeningStep::SetUser]
}

/// The steps that declare what the process will use.
pub open spec fn declare_spec() -> Seq<HardeningStep> {
    seq![HardeningStep::Unveil, HardeningStep::Pledge]
}

/// The steps that give up all capabilities.
pub open spec fn drop_caps_spec() -> Seq<HardeningStep> {
    seq![HardeningStep::ClearEffective, HardeningStep::ClearPermitted]
}

/// The steps that lock a process with this configuration down, in the order
/// in which they are taken.
///
/// The user is looked up first, while the files that name it can still be
/// read. Then the process enters its new root, changes its user, declares what
/// it will use, and gives up its capabilities: each of these where the
/// configuration asks for it and the platform has it, and the capabilities
/// last, because the steps before may need them.
pub open spec fn plan_spec(args: Args, platform: Platform) -> Seq<HardeningStep> {
    (if args.user is Some {
        seq![HardeningStep::ResolveUser]
    } else {
        Seq::empty()
    }) + (if wants_jail(args) {
        chroot_spec()
    } else {
        Seq::empty()
    }) + (if args.user is Some {
        become_user_spec()
    } else {
        Seq::empty()
    }) + (if platform.has_pledge() {
        declare_spec()
    } else {
        Seq::empty()
    }) + (if platform.has_capabilities() {
        drop_caps_spec()
    } else {
        Seq::empty()
    })
}

/// A step that the configuration asks for and the platform lacks, if there is
/// one: off Unix there is no user to become and no root to enter.
pub open spec fn unsupported(args: Args, platform: Platform) -> Option<HardeningStep> {
    if platform.is_unix() {
        None
    } else if args.user is Some {
        Some(HardeningStep::ResolveUser)
    } else if wants_jail(args) {
        Some(HardeningStep::EnterJail)
    } else {
        None
    }
}

/// Every step stands before the steps of higher rank, and none stands twice.
pub open spec fn is_ordered(plan: Seq<HardeningStep>) -> bool {
    forall|i: int, j: int| 0 <= i < j < plan.len() ==> plan[i].rank() < plan[j].rank()
}

/// The steps that enter the new root.
pub fn chroot() -> (steps: Vec<HardeningStep>)
    ensures
        steps@ == chroot_spec(),
{
    let mut steps: Vec<HardeningStep> = Vec::new();
    steps.push(HardeningStep::EnterJail);
    steps.push(HardeningStep::ChangeDir);
    assert(steps@ =~= chroot_spec());
    steps
}

/// The steps that change the user.
pub fn become_user() -> (steps: Vec<HardeningStep>)
    ensures
        steps@ == become_user_spec(),
{
    let mut steps: Vec<HardeningStep> = Vec::new();
    steps.push(HardeningStep::ClearGroups);
    steps.push(HardeningStep::SetGroup);
    steps.push(HardeningStep::SetUser);
    assert(steps@ =~= become_user_spec());
    steps
}

/// The steps that give up all capabilities.
pub fn drop_caps() -> (steps: Vec<HardeningStep>)
    ensures
        steps@ == drop_caps_spec(),
{
    let mut steps: Vec<HardeningStep> = Vec::new();
    steps.push(HardeningStep::ClearEffective);
    steps.push(HardeningStep::ClearPermitted);
    assert(steps@ =~= drop_caps_spec());
    steps
}

/// The steps that lock a process with this configuration down.
pub fn plan(args: &Args, platform: Platform) -> (steps: Vec<HardeningStep>)
    ensures
        steps@ == plan_spec(*args, platform),
{
    let mut steps: Vec<HardeningStep> = Vec::new();
    if args.user.is_some() {
        steps.push(HardeningStep::ResolveUser);
    }
    if args.data_dir.is_none() && args.chroot.is_some() {
        let mut jail = chroot();
        steps.append(&mut jail);
    }
    if args.user.is_some() {
        let mut identity = become_user();
        steps.append(&mut identity);
    }
    if platform.has_pledge() {
        steps.push(HardeningStep::Unveil);
        steps.push(HardeningStep::Pledge);
    }
    if platform.has_capabilities() {
        let mut caps = drop_caps();
        steps.append(&mut caps);
    }
    assert(steps@ =~= plan_spec(*args, platform));
    steps
}

/// One path that the process declares it will use, and what for.
#[derive(Clone, Debug, PartialEq, Eq)]
pub struct Unveil {
    /// The path; empty in the declaration that closes the list.
    pub path: Vec<u8>,
    /// What is done below the path: of `r` reading, `w` writing, `c` creating
    /// and removing.
    pub permissions: String,
}

/// An `Unveil` with its path and text as sequences.
pub struct UnveilView {
    pub path: Seq<u8>,
    pub permissions: Seq<char>,
}

impl View for Unveil {
    type V = UnveilView;

    open spec fn view(&self) -> UnveilView {
        UnveilView { path: self.path@, permissions: self.permissions@ }
    }
}

/// The views of the declarations, in their order.
pub open spec fn unveil_views(rules: Seq<Unveil>) -> Seq<UnveilView> {
    rules.map_values(|rule: Unveil| rule@)
}

/// The paths that the process declares: the web root for reading, the data
/// directory for reading, writing and creating, each where it is configured,
/// and last the empty declaration, after which no path can be added.
pub open spec fn unveil_spec(args: Args) -> Seq<UnveilView> {
    (match args.web_root {
        Some(web_root) => seq![UnveilView { path: encode_utf8(web_root@), permissions: "r"@ }],
        None => Seq::empty(),
    }) + (match args.data_dir {
        Some(dir) => seq![UnveilView { path: dir@, permissions: "rwc"@ }],
        None => Seq::empty(),
    }) + seq![UnveilView { path: Seq::empty(), permissions: ""@ }]
}

/// The paths that the process declares it will use, in the order in which
/// they are declared.
pub fn unveil(args: &Args) -> (rules: Vec<Unveil>)
    ensures
        unveil_views(rules@) == unveil_spec(*args),
{
    let mut rules: Vec<Unveil> = Vec::new();
    match &args.web_root {
        Some(web_root) => {
            rules.push(
                Unveil {
                    path: slice_to_vec(web_root.as_str().as_bytes()),
                    permissions: String::from_str("r"),
                },
            );
        },
        None => {},
    }
    match &args.data_dir {
        Some(dir) => {
            rules.push(
                Unveil { path: slice_to_vec(dir.as_slice()), permissions: String::from_str("rwc") },
            );
        },
        None => {},
    }
    rules.push(Unveil { path: Vec::new(), permissions: String::from_str("") });
    assert(unveil_views(rules@) =~= unveil_spec(*args));
    rules
}

/// The kinds of system calls that the process declares: those of a server
/// that reads files always; writing, creating and locking files with a data
/// directory; changing user and group only where a user or a new root is
/// configured.
pub open spec fn pledge_spec(args: Args) -> Seq<char> {
    "stdio dns inet rpath unix"@ + (if args.data_dir is Some {
        " wpath cpath"@
    } else {
        Seq::empty()
    }) + (if args.user is Some || args.chroot is Some {
        " id"@
    } else {
        Seq::empty()
    }) + (if args.data_dir is Some {
        " flock"@
    } else {
        Seq::empty()
    })
}

/// The kinds of system calls that the process declares it will use. What it
/// starts gets none.
pub fn pledge(args: &Args) -> (promises: String)
    ensures
        promises@ == pledge_spec(*args),
{
    let mut promises = String::from_str("stdio dns inet rpath unix");
    if args.data_dir.is_some() {
        promises.append(" wpath cpath");
    }
    if args.user.is_some() || args.chroot.is_some() {
        promises.append(" id");
    }
    if args.data_dir.is_some() {
        promises.append(" flock");
    }
    assert(promises@ =~= pledge_spec(*args));
    promises
}

/// Whether `perform` can have said of each of `steps` that it went well.
pub open spec fn went_well<F: Fn(HardeningStep) -> bool>(
    perform: F,
    steps: Seq<HardeningStep>,
) -> bool {
    forall|i: int| 0 <= i < steps.len() ==> call_ensures(perform, (#[trigger] steps[i],), true)
}

/// Locks the process down: has `perform` take each step that the
/// configuration asks for, in order, and stops at the first that fails.
///
/// `perform` takes the step it is given and says whether it went well. The
/// result is `Ok` only if every step of the plan was taken and went well;
/// otherwise the error names the step that the platform lacks, in which case
/// no step was taken, or the step that failed after all before it had gone
/// well. After an error the process must not go on to serve.
pub fn setup<F: Fn(HardeningStep) -> bool>(args: &Args, platform: Platform, perform: F) -> (r:
    Result<Hardened, HardenError>)
    requires
        forall|step: HardeningStep| call_requires(perform, (step,)),
    ensures
        match r {
            Ok(hardened) => {
                &&& unsupported(*args, platform) is None
                &&& went_well(perform, plan_spec(*args, platform))
                &&& hardened.state() == state_after(plan_spec(*args, platform))
            },
            Err(HardenError::Unsupported(step)) => unsupported(*args, platform) == Some(step),
            Err(HardenError::Failed(step)) => {
                &&& unsupported(*args, platform) is None
                &&& exists|at: int|
                    0 <= at < plan_spec(*args, platform).len() && #[trigger] plan_spec(
                        *args,
                        platform,
                    )[at] == step && went_well(perform, plan_spec(*args, platform).take(at))
                &&& call_ensures(perform, (step,), false)
            },
            Err(HardenError::OutOfOrder(_)) => false,
        },
{
    let mut sequencer = match Sequencer::new(args, platform) {
        Ok(sequencer) => sequencer,
        Err(e) => {
            return Err(e);
        },
    };
    let ghost steps = plan_spec(*args, platform);
    loop
        invariant
            forall|step: HardeningStep| call_requires(perform, (step,)),
            unsupported(*args, platform) is None,
            steps == plan_spec(*args, platform),
            sequencer@ == (Progress { done: sequencer@.done, ..Progress::start(steps) }),
            sequencer@.done <= steps.len(),
            went_well(perform, steps.take(sequencer@.done as int)),
        decreases steps.len() - sequencer@.done,
    {
        let ghost at = sequencer@.done as int;
        let step = match sequencer.next() {
            Some(step) => step,
            None => {
                assert(steps.take(at) =~= steps);
                return Ok(sequencer.finish());
            },
        };
        let ok = perform(step);
        match sequencer.report(step, ok) {
            Ok(_) => {
                assert(steps.take(at + 1) =~= steps.take(at).push(step));
            },
            Err(e) => {
                assert(steps[at] == step);
                return Err(e);
            },
        }
    }
}

/// The plan of every configuration is in the one fixed order, and holds no
/// step twice.
pub proof fn law_plan_is_ordered(args: Args, platform: Platform)
    ensures
        is_ordered(plan_spec(args, platform)),
{
}

/// Where there are capabilities, giving them up ends the plan, whatever else
/// the configuration asks for.
pub proof fn law_capabilities_go_last(args: Args, platform: Platform)
    requires
        platform.has_capabilities(),
    ensures
        ({
            let plan = plan_spec(args, platform);
            &&& plan.len() >= 2
            &&& plan[plan.len() - 2] == HardeningStep::ClearEffective
            &&& plan[plan.len() - 1] == HardeningStep::ClearPermitted
        }),
{
}

/// A process that was to enter a new root on a platform with capabilities,
/// and whose sequence is complete, holds no capabilities: the two sets were
/// cleared after the root was entered, as the last steps of all, and each
/// went well. No failure and no report out of turn leads to a complete
/// sequence.
pub proof fn law_jailed_process_holds_no_capabilities(
    args: Args,
    platform: Platform,
    reports: Seq<(HardeningStep, bool)>,
)
    requires
        wants_jail(args),
        platform.has_capabilities(),
        Progress::start(plan_spec(args, platform)).run(reports).is_complete(),
    ensures
        Progress::start(plan_spec(args, platform)).run(reports).state()
            == HardeningState::PermissionsDropped,
        reports.len() >= 4,
        reports[reports.len() - 2] == (HardeningStep::ClearEffective, true),
        reports[reports.len() - 1] == (HardeningStep::ClearPermitted, true),
        exists|i: int|
            0 <= i < reports.len() - 2 && #[trigger] reports[i] == (HardeningStep::EnterJail, true),
        forall|i: int| 0 <= i < reports.len() ==> (#[trigger] reports[i]).1,
{
    let plan = plan_spec(args, platform);
    law_completion_takes_every_step(plan, reports);
    law_reports_follow_plan(plan, reports);
    law_capabilities_go_last(args, platform);
    assert(plan.take(plan.len() as int) =~= plan);
    let at = if args.user is Some {
        1int
    } else {
        0int
    };
    assert(plan[at] == HardeningStep::EnterJail);
    assert(reports[at] == (HardeningStep::EnterJail, true));
}

} // verus!
