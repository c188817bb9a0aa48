//! The account of the steps that lock a process down.

use crate::args::Args;
use crate::platform::Platform;
use crate::security::{
    is_ordered, plan, plan_spec, unsupported, HardenError, HardeningState, HardeningStep,
};
use vstd::prelude::*;

verus! {

/// The state that is reached when these steps are done.
pub open spec fn state_after(done: Seq<HardeningStep>) -> HardeningState
    decreases done.len(),
{
    if done.len() == 0 {
        HardeningState::Unhardened
    } else {
        match done.last() {
            HardeningStep::ChangeDir => HardeningState::Jailed,
            HardeningStep::SetUser => HardeningState::IdentitySwitched,
            HardeningStep::Pledge => HardeningState::MacDeclared,
            HardeningStep::ClearPermitted => HardeningState::PermissionsDropped,
            _ => state_after(done.drop_last()),
        }
    }
}

/// The account of a sequence: its steps, how many of them are done, and
/// whether it has failed.
pub struct Progress {
    pub plan: Seq<HardeningStep>,
    pub done: nat,
    pub failed: bool,
}

impl Progress {
    /// The account before the first step.
    pub open spec fn start(plan: Seq<HardeningStep>) -> Progress {
        Progress { plan, done: 0, failed: false }
    }

    /// The step whose turn it is, while there is one.
    pub open spec fn next(self) -> Option<HardeningStep> {
        if !self.failed && self.done < self.plan.len() {
            Some(self.plan[self.done as int])
        } else {
            None
        }
    }

    /// Every step is done and none has failed.
    pub open spec fn is_complete(self) -> bool {
        !self.failed && self.done == self.plan.len()
    }

    /// How far the process is locked down.
    pub open spec fn state(self) -> HardeningState {
        state_after(self.plan.take(self.done as int))
    }

    /// The account after the report that `step` was tried and went well, or
    /// did not. Only the step whose turn it is can go well; every other
    /// report fails the sequence, and a failed sequence stays failed.
    pub open spec fn report(self, step: HardeningStep, ok: bool) -> Progress {
        if self.next() == Some(step) && ok {
            Progress { done: self.done + 1, ..self }
        } else {
            Progress { failed: true, ..self }
        }
    }

    /// What the one who reports is told.
    pub open spec fn verdict(self, step: HardeningStep, ok: bool) -> Result<
        HardeningState,
        HardenError,
    > {
        if self.next() == Some(step) {
            if ok {
                Ok(self.report(step, ok).state())
            } else {
                Err(HardenError::Failed(step))
            }
        } else {
            Err(HardenError::OutOfOrder(step))
        }
    }

    /// The account after a series of reports.
    pub open spec fn run(self, reports: Seq<(HardeningStep, bool)>) -> Progress
        decreases reports.len(),
    {
        if reports.len() == 0 {
            self
        } else {
            self.run(reports.drop_last()).report(reports.last().0, reports.last().1)
        }
    }
}

/// The word that a process is locked down. It is only made of a sequence
/// that is complete, and what serves asks for it.
#[derive(Debug)]
pub struct Hardened {
    state: HardeningState,
}

impl Hardened {
    /// How far the process is locked down.
    pub closed spec fn state_spec(&self) -> HardeningState {
        self.state
    }

    /// How far the process is locked down.
    #[verifier::when_used_as_spec(state_spec)]
    pub fn state(&self) -> (state: HardeningState)
        ensures
            state == self.state_spec(),
    {
        self.state
    }
}

/// The account of locking one process down.
pub struct Sequencer {
    plan: Vec<HardeningStep>,
    done: usize,
    failed: bool,
}

impl View for Sequencer {
    type V = Progress;

    closed spec fn view(&self) -> Progress {
        Progress { plan: self.plan@, done: self.done as nat, failed: self.failed }
    }
}

impl Sequencer {
    #[verifier::type_invariant]
    spec fn well_formed(&self) -> bool {
        self.done <= self.plan@.len()
    }

    /// The sequence for a configuration, before its first step; or the step
    /// that the configuration asks for and the platform lacks.
    pub fn new(args: &Args, platform: Platform) -> (r: Result<Sequencer, HardenError>)
        ensures
            match r {
                Ok(seq) => unsupported(*args, platform) is None && seq@ == Progress::start(
                    plan_spec(*args, platform),
                ),
                Err(e) => unsupported(*args, platform) matches Some(step) && e
                    == HardenError::Unsupported(step),
            },
    {
        if !platform.is_unix() {
            if args.user.is_some() {
                return Err(HardenError::Unsupported(HardeningStep::ResolveUser));
            }
            if args.data_dir.is_none() && args.chroot.is_some() {
                return Err(HardenError::Unsupported(HardeningStep::EnterJail));
            }
        }
        Ok(Sequencer { plan: plan(args, platform), done: 0, failed: false })
    }

    /// The step that the caller is to take now; none once the sequence is
    /// complete or has failed.
    pub fn next(&self) -> (step: Option<HardeningStep>)
        ensures
            step == self@.next(),
    {
        proof {
            use_type_invariant(self);
        }
        if !self.failed && self.done < self.plan.len() {
            Some(self.plan[self.done])
        } else {
            None
        }
    }

    /// Whether every step is done and none has failed. Only then may the
    /// process go on to serve.
    pub fn is_complete(&self) -> (r: bool)
        ensures
            r == self@.is_complete(),
    {
        proof {
            use_type_invariant(self);
        }
        !self.failed && self.done == self.plan.len()
    }

    /// Whether the sequence has failed. It then stays failed.
    pub fn has_failed(&self) -> (r: bool)
        ensures
            r == self@.failed,
    {
        self.failed
    }

    /// How far the process is locked down.
    pub fn state(&self) -> (state: HardeningState)
        ensures
            state == self@.state(),
    {
        proof {
            use_type_invariant(self);
        }
        let mut state = HardeningState::Unhardened;
        let mut i: usize = 0;
        assert(self.plan@.take(0) =~= Seq::<HardeningStep>::empty());
        while i < self.done
            invariant
                i <= self.done <= self.plan@.len(),
                state == state_after(self.plan@.take(i as int)),
            decreases self.done - i,
        {
            assert(self.plan@.take(i as int + 1).drop_last() =~= self.plan@.take(i as int));
            match self.plan[i] {
                HardeningStep::ChangeDir => {
                    state = HardeningState::Jailed;
                },
                HardeningStep::SetUser => {
                    state = HardeningState::IdentitySwitched;
                },
                HardeningStep::Pledge => {
                    state = HardeningState::MacDeclared;
                },
                HardeningStep::ClearPermitted => {
                    state = HardeningState::PermissionsDropped;
                },
                _ => {},
            }
            i = i + 1;
        }
        state
    }

    /// Takes the report that `step` was tried, and whether it went well.
    ///
    /// The step must be the one that `next` gave. If it went well the
    /// sequence moves on, and the state that is reached is returned. If it
    /// failed, or if it was not its turn, the sequence has failed for good and
    /// the error says which step it was.
    pub fn report(&mut self, step: HardeningStep, ok: bool) -> (r: Result<
        HardeningState,
        HardenError,
    >)
        ensures
            final(self)@ == old(self)@.report(step, ok),
            r == old(self)@.verdict(step, ok),
    {
        proof {
            use_type_invariant(&*self);
        }
        if !self.failed && self.done < self.plan.len() && self.plan[self.done] == step {
            if ok {
                self.done = self.done + 1;
                Ok(self.state())
            } else {
                self.failed = true;
                Err(HardenError::Failed(step))
            }
        } else {
            self.failed = true;
            Err(HardenError::OutOfOrder(step))
        }
    }

    /// The word that the process is locked down, for a sequence that is
    /// complete.
    pub(crate) fn finish(&self) -> (word: Hardened)
        requires
            self@.is_complete(),
        ensures
            word.state() == self@.state(),
    {
        Hardened { state: self.state() }
    }

    /// The word that the process is locked down, once the sequence is
    /// complete, and not before.
    pub fn hardened(&self) -> (word: Option<Hardened>)
        ensures
            word is Some <==> self@.is_complete(),
            word matches Some(hardened) ==> hardened.state() == self@.state(),
    {
        if self.is_complete() {
            Some(self.finish())
        } else {
            None
        }
    }
}

/// A sequence that has failed stays failed, whatever is reported to it.
pub proof fn law_failure_is_final(progress: Progress, reports: Seq<(HardeningStep, bool)>)
    requires
        progress.failed,
    ensures
        progress.run(reports).failed,
        !progress.run(reports).is_complete(),
    decreases reports.len(),
{
    if reports.len() > 0 {
        law_failure_is_final(progress, reports.drop_last());
    }
}

/// The reports that say of each step of `plan`, in order, that it went well.
pub open spec fn all_well(plan: Seq<HardeningStep>) -> Seq<(HardeningStep, bool)> {
    plan.map_values(|step: HardeningStep| (step, true))
}

/// While a sequence has not failed, what was reported to it is that the
/// steps done so far went well, each once and in the order of the plan.
pub proof fn law_reports_follow_plan(
    plan: Seq<HardeningStep>,
    reports: Seq<(HardeningStep, bool)>,
)
    ensures
        ({
            let progress = Progress::start(plan).run(reports);
            &&& progress.plan == plan
            &&& progress.done <= plan.len()
            &&& !progress.failed ==> progress.done == reports.len() && reports == all_well(
                plan.take(progress.done as int),
            )
        }),
    decreases reports.len(),
{
    if reports.len() == 0 {
        assert(reports =~= all_well(plan.take(0)));
    } else {
        law_reports_follow_plan(plan, reports.drop_last());
        let before = Progress::start(plan).run(reports.drop_last());
        let progress = Progress::start(plan).run(reports);
        if !progress.failed {
            assert(reports =~= all_well(plan.take(progress.done as int))) by {
                assert(reports.drop_last() == all_well(plan.take(before.done as int)));
                assert(reports =~= reports.drop_last().push(reports.last()));
            }
        }
    }
}

/// A sequence is complete only if every step of its plan was reported to
/// have gone well, in order, and nothing else was reported.
pub proof fn law_completion_takes_every_step(
    plan: Seq<HardeningStep>,
    reports: Seq<(HardeningStep, bool)>,
)
    requires
        Progress::start(plan).run(reports).is_complete(),
    ensures
        reports == all_well(plan),
{
    law_reports_follow_plan(plan, reports);
    assert(plan.take(plan.len() as int) =~= plan);
}

/// The furthest state that can hold once `step` is done.
spec fn state_by(step: HardeningStep) -> HardeningState {
    match step {
        HardeningStep::ResolveUser => HardeningState::Unhardened,
        HardeningStep::EnterJail => HardeningState::Unhardened,
        HardeningStep::ChangeDir => HardeningState::Jailed,
        HardeningStep::ClearGroups => HardeningState::Jailed,
        HardeningStep::SetGroup => HardeningState::Jailed,
        HardeningStep::SetUser => HardeningState::IdentitySwitched,
        HardeningStep::Unveil => HardeningState::IdentitySwitched,
        HardeningStep::Pledge => HardeningState::MacDeclared,
        HardeningStep::ClearEffective => HardeningState::MacDeclared,
        HardeningStep::ClearPermitted => HardeningState::PermissionsDropped,
    }
}

/// In the fixed order, the state after some steps is no further than the last
/// of them allows.
proof fn lemma_state_is_bounded(done: Seq<HardeningStep>)
    requires
        is_ordered(done),
        done.len() > 0,
    ensures
        state_after(done).rank() <= state_by(done.last()).rank(),
    decreases done.len(),
{
    let before = done.drop_last();
    if before.len() > 0 {
        assert forall|i: int, j: int| 0 <= i < j < before.len() implies before[i].rank()
            < before[j].rank() by {
            assert(done[i].rank() < done[j].rank());
        }
        lemma_state_is_bounded(before);
        assert(before.last() == done[done.len() - 2]);
        assert(done[done.len() - 2].rank() < done[done.len() - 1].rank());
    } else {
        assert(state_after(before) == HardeningState::Unhardened);
    }
}

/// The states are reached in one order: whatever the plan, a step that is
/// done never takes the process back to a state that it had left.
pub proof fn law_state_never_goes_back(plan: Seq<HardeningStep>, sooner: int, later: int)
    requires
        is_ordered(plan),
        0 <= sooner <= later <= plan.len(),
    ensures
        state_after(plan.take(sooner)).rank() <= state_after(plan.take(later)).rank(),
    decreases later - sooner,
{
    if sooner < later {
        law_state_never_goes_back(plan, sooner, later - 1);
        let before = plan.take(later - 1);
        let after = plan.take(later);
        assert(after.drop_last() =~= before);
        if before.len() > 0 {
            assert forall|i: int, j: int| 0 <= i < j < before.len() implies before[i].rank()
                < before[j].rank() by {
                assert(plan[i].rank() < plan[j].rank());
            }
            lemma_state_is_bounded(before);
            assert(before.last() == plan[later - 2]);
            assert(plan[later - 2].rank() < plan[later - 1].rank());
        } else {
            assert(state_after(before) == HardeningState::Unhardened);
        }
    }
}

} // verus!
