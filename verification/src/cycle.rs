//! One update cycle after its plan has been made: the groups are updated one
//! after the other, each for itself, so that a group that fails keeps no
//! other group from being updated; and the versions on offer are reported at
//! the end whatever the outcome.

use vstd::prelude::*;
use crate::manager::{group_views, CyclePlan, GroupView, ServiceGroup};
use crate::transaction::{
    action_for, action_in, begin, first_phase, lemma_step_progress, next_phase, phase_fits, step,
    steps_left, ActionView, GroupAction, GroupOutcome, Phase, StepResult,
};

verus! {

/// Where a cycle stands: at a phase of the update of one of its groups, at
/// the report, or at its end.
#[derive(Debug, Clone, Copy, PartialEq, Eq, Structural)]
pub enum CycleStage {
    Updating(usize, Phase),
    Reporting,
    Done,
}

/// What the host is to do next in a cycle.
#[derive(Debug)]
pub enum CycleAction {
    /// Carry out this action of the update of the group with this number.
    Step { group: usize, action: GroupAction },
    /// Write the versions on offer to the health registry.
    Report,
    /// Nothing: the cycle has ended.
    Done,
}

/// Mathematical value of a [`CycleAction`].
pub enum CycleActionView {
    Step { group: usize, action: ActionView },
    Report,
    Done,
}

impl View for CycleAction {
    type V = CycleActionView;

    open spec fn view(&self) -> CycleActionView {
        match self {
            CycleAction::Step { group, action } => CycleActionView::Step {
                group: *group,
                action: action@,
            },
            CycleAction::Report => CycleActionView::Report,
            CycleAction::Done => CycleActionView::Done,
        }
    }
}

/// The stage has a group and a phase that the cycle can be in: the group is
/// one of the cycle's, the package in hand one of the group's, and the
/// group's update has not ended.
pub open spec fn stage_fits(stage: CycleStage, groups: Seq<GroupView>) -> bool {
    match stage {
        CycleStage::Updating(g, phase) => g < groups.len() && phase_fits(
            phase,
            groups[g as int].packages.len(),
        ) && !(phase is Finished),
        _ => true,
    }
}

/// The stage that follows the updates.
pub open spec fn after_updates(report: bool) -> CycleStage {
    if report {
        CycleStage::Reporting
    } else {
        CycleStage::Done
    }
}

/// The stage in which the group with number `g` is taken in hand; where
/// there is no such group, the stage that follows the updates.
pub open spec fn entering(groups: Seq<GroupView>, g: int, report: bool) -> CycleStage {
    if 0 <= g < groups.len() {
        CycleStage::Updating(g as usize, first_phase(groups[g].packages.len()))
    } else {
        after_updates(report)
    }
}

/// The stage that follows `stage` when the host reports `result`. While a
/// group's update goes on, the cycle follows it. Once it has ended, however
/// it ended, the next group is taken in hand: a failure stays with its
/// group.
pub open spec fn next_stage(
    stage: CycleStage,
    groups: Seq<GroupView>,
    report: bool,
    result: StepResult,
) -> CycleStage {
    match stage {
        CycleStage::Updating(g, phase) => match next_phase(
            phase,
            groups[g as int].packages.len(),
            result,
        ) {
            Phase::Finished(outcome) => entering(groups, g + 1, report),
            next => CycleStage::Updating(g, next),
        },
        CycleStage::Reporting => CycleStage::Done,
        CycleStage::Done => CycleStage::Done,
    }
}

/// The outcomes of the groups that have ended, once the host has reported
/// `result` in `stage`.
pub open spec fn outcomes_after(
    stage: CycleStage,
    groups: Seq<GroupView>,
    result: StepResult,
    outcomes: Seq<GroupOutcome>,
) -> Seq<GroupOutcome> {
    match stage {
        CycleStage::Updating(g, phase) => match next_phase(
            phase,
            groups[g as int].packages.len(),
            result,
        ) {
            Phase::Finished(outcome) => outcomes.push(outcome),
            _ => outcomes,
        },
        _ => outcomes,
    }
}

/// The action that the host is given in `stage`.
pub open spec fn action_at(stage: CycleStage, groups: Seq<GroupView>) -> CycleActionView {
    match stage {
        CycleStage::Updating(g, phase) => CycleActionView::Step {
            group: g,
            action: action_in(phase, groups[g as int].service, groups[g as int].packages),
        },
        CycleStage::Reporting => CycleActionView::Report,
        CycleStage::Done => CycleActionView::Done,
    }
}

/// The stage reached from `stage` after the host's reports `results`.
pub open spec fn stage_after(
    stage: CycleStage,
    groups: Seq<GroupView>,
    report: bool,
    results: Seq<StepResult>,
) -> CycleStage
    decreases results.len(),
{
    if results.len() == 0 {
        stage
    } else {
        next_stage(
            stage_after(stage, groups, report, results.drop_last()),
            groups,
            report,
            results.last(),
        )
    }
}

/// An upper bound on the reports that the updates of the groups from number
/// `from` on take.
pub open spec fn updates_left(groups: Seq<GroupView>, from: int) -> nat
    decreases groups.len() - from,
{
    if from < 0 || from >= groups.len() {
        0
    } else {
        steps_left(first_phase(groups[from].packages.len()), groups[from].packages.len())
            + updates_left(groups, from + 1)
    }
}

/// An upper bound on the reports that a cycle in `stage` still takes before
/// it has ended.
pub open spec fn cycle_steps_left(stage: CycleStage, groups: Seq<GroupView>) -> nat {
    match stage {
        CycleStage::Updating(g, phase) => steps_left(phase, groups[g as int].packages.len())
            + updates_left(groups, g + 1) + 1,
        CycleStage::Reporting => 1,
        CycleStage::Done => 0,
    }
}

/// The sizes of a cycle's groups are such as a host can hold.
pub open spec fn sizes_fit(groups: Seq<GroupView>) -> bool {
    &&& groups.len() <= usize::MAX
    &&& forall|g: int| 0 <= g < groups.len() ==> (#[trigger] groups[g]).packages.len() <= usize::MAX
}

/// Each report brings a cycle closer to its end.
pub proof fn lemma_cycle_progress(
    stage: CycleStage,
    groups: Seq<GroupView>,
    report: bool,
    result: StepResult,
)
    requires
        sizes_fit(groups),
        stage_fits(stage, groups),
        !(stage is Done),
    ensures
        stage_fits(next_stage(stage, groups, report, result), groups),
        cycle_steps_left(next_stage(stage, groups, report, result), groups) < cycle_steps_left(
            stage,
            groups,
        ),
{
    if let CycleStage::Updating(g, phase) = stage {
        lemma_step_progress(phase, groups[g as int].packages.len(), result);
    }
}

proof fn lemma_cycle_run(
    stage: CycleStage,
    groups: Seq<GroupView>,
    report: bool,
    results: Seq<StepResult>,
)
    requires
        sizes_fit(groups),
        stage_fits(stage, groups),
    ensures
        stage_fits(stage_after(stage, groups, report, results), groups),
        stage_after(stage, groups, report, results) is Done || cycle_steps_left(
            stage_after(stage, groups, report, results),
            groups,
        ) + results.len() <= cycle_steps_left(stage, groups),
    decreases results.len(),
{
    if results.len() > 0 {
        let before = stage_after(stage, groups, report, results.drop_last());
        lemma_cycle_run(stage, groups, report, results.drop_last());
        if !(before is Done) {
            lemma_cycle_progress(before, groups, report, results.last());
        }
    }
}

/// Every cycle ends: after as many reports as [`cycle_steps_left`] allows,
/// whatever they say, it is done.
pub proof fn lemma_cycle_ends(
    stage: CycleStage,
    groups: Seq<GroupView>,
    report: bool,
    results: Seq<StepResult>,
)
    requires
        sizes_fit(groups),
        stage_fits(stage, groups),
        results.len() >= cycle_steps_left(stage, groups),
    ensures
        stage_after(stage, groups, report, results) is Done,
{
    lemma_cycle_run(stage, groups, report, results);
}

/// A cycle whose plan holds no group, as every plan under
/// the manual strategy does, never has the host download, stop, install or
/// start anything. It reports, where it is to report, and is done.
pub proof fn lemma_cycle_without_groups(report: bool, results: Seq<StepResult>)
    ensures
        !(stage_after(
            entering(Seq::<GroupView>::empty(), 0, report),
            Seq::<GroupView>::empty(),
            report,
            results,
        ) is Updating),
        results.len() >= 1 ==> stage_after(
            entering(Seq::<GroupView>::empty(), 0, report),
            Seq::<GroupView>::empty(),
            report,
            results,
        ) is Done,
    decreases results.len(),
{
    if results.len() > 0 {
        lemma_cycle_without_groups(report, results.drop_last());
    }
}

/// Every stage that a cycle reaches is one that it can be in.
pub proof fn lemma_next_stage_fits(
    stage: CycleStage,
    groups: Seq<GroupView>,
    report: bool,
    result: StepResult,
)
    requires
        sizes_fit(groups),
        stage_fits(stage, groups),
    ensures
        stage_fits(next_stage(stage, groups, report, result), groups),
{
    if let CycleStage::Updating(g, phase) = stage {
        crate::transaction::lemma_step_progress(phase, groups[g as int].packages.len(), result);
    }
}

/// The report is never skipped: a cycle that is to report ends only from its
/// report, whatever the outcome of its groups.
pub proof fn lemma_report_is_not_skipped(
    stage: CycleStage,
    groups: Seq<GroupView>,
    result: StepResult,
)
    requires
        !(stage is Done),
        next_stage(stage, groups, true, result) is Done,
    ensures
        stage is Reporting,
{
}

/// A failure stays with its group: once a group's update has ended, with
/// whatever outcome, the cycle takes the next group in hand, from its
/// beginning, and goes on to what follows the updates only after the last
/// group.
pub proof fn lemma_failure_stays_with_its_group(
    g: usize,
    phase: Phase,
    groups: Seq<GroupView>,
    report: bool,
    result: StepResult,
    outcome: GroupOutcome,
)
    requires
        g < groups.len(),
        next_phase(phase, groups[g as int].packages.len(), result) == Phase::Finished(outcome),
    ensures
        g + 1 < groups.len() ==> next_stage(
            CycleStage::Updating(g, phase),
            groups,
            report,
            result,
        ) == CycleStage::Updating(
            (g + 1) as usize,
            first_phase(groups[g + 1].packages.len()),
        ),
        g + 1 == groups.len() ==> next_stage(
            CycleStage::Updating(g, phase),
            groups,
            report,
            result,
        ) == after_updates(report),
{
}

/// Every group of a cycle is taken in hand, whatever the host reports:
/// for each group there is a number of reports after which the cycle stands
/// at the beginning of that group's update.
pub proof fn lemma_every_group_is_entered(
    groups: Seq<GroupView>,
    report: bool,
    results: Seq<StepResult>,
    g: int,
)
    requires
        sizes_fit(groups),
        0 <= g < groups.len(),
        results.len() >= updates_left(groups, 0),
    ensures
        exists|k: int|
            0 <= k <= results.len() && #[trigger] stage_after(
                entering(groups, 0, report),
                groups,
                report,
                results.take(k),
            ) == CycleStage::Updating(g as usize, first_phase(groups[g].packages.len())),
    decreases g,
{
    let start = entering(groups, 0, report);
    if g == 0 {
        assert(results.take(0) =~= Seq::<StepResult>::empty());
        assert(stage_after(start, groups, report, results.take(0)) == start);
    } else {
        lemma_every_group_is_entered(groups, report, results, g - 1);
        let k0 = choose|k: int|
            0 <= k <= results.len() && #[trigger] stage_after(
                start,
                groups,
                report,
                results.take(k),
            ) == CycleStage::Updating(
                (g - 1) as usize,
                first_phase(groups[g - 1].packages.len()),
            );
        lemma_entered_before(groups, report, results, g - 1, k0);
        lemma_group_runs_out(groups, report, results, g - 1, k0);
    }
}

/// The reports that lead to the beginning of group `g` are followed by
/// enough reports for this group and all that come after it.
proof fn lemma_entered_before(
    groups: Seq<GroupView>,
    report: bool,
    results: Seq<StepResult>,
    g: int,
    k: int,
)
    requires
        sizes_fit(groups),
        0 <= g < groups.len(),
        0 <= k <= results.len(),
        results.len() >= updates_left(groups, 0),
        stage_after(entering(groups, 0, report), groups, report, results.take(k))
            == CycleStage::Updating(g as usize, first_phase(groups[g].packages.len())),
    ensures
        results.len() - k >= updates_left(groups, g),
{
    let start = entering(groups, 0, report);
    lemma_cycle_run(start, groups, report, results.take(k));
    lemma_updates_left_from(groups, 0);
    lemma_updates_left_from(groups, g);
}

/// What the groups from `from` on take is what the first of them takes and
/// what the groups after it take.
proof fn lemma_updates_left_from(groups: Seq<GroupView>, from: int)
    requires
        0 <= from < groups.len(),
    ensures
        updates_left(groups, from) == steps_left(
            first_phase(groups[from].packages.len()),
            groups[from].packages.len(),
        ) + updates_left(groups, from + 1),
{
}

/// From a stage within the update of group `g`, with enough reports left,
/// the cycle comes to the beginning of group `g + 1`, where there is one.
proof fn lemma_group_runs_out(
    groups: Seq<GroupView>,
    report: bool,
    results: Seq<StepResult>,
    g: int,
    k: int,
)
    requires
        sizes_fit(groups),
        0 <= g,
        g + 1 < groups.len(),
        0 <= k <= results.len(),
        stage_after(entering(groups, 0, report), groups, report, results.take(k))
            matches CycleStage::Updating(h, phase) && h == g && phase_fits(
            phase,
            groups[g].packages.len(),
        ) && !(phase is Finished) && results.len() - k >= steps_left(
            phase,
            groups[g].packages.len(),
        ),
    ensures
        exists|j: int|
            0 <= j <= results.len() && #[trigger] stage_after(
                entering(groups, 0, report),
                groups,
                report,
                results.take(j),
            ) == CycleStage::Updating(
                (g + 1) as usize,
                first_phase(groups[g + 1].packages.len()),
            ),
    decreases results.len() - k,
{
    let start = entering(groups, 0, report);
    let stage = stage_after(start, groups, report, results.take(k));
    let phase = stage->Updating_1;
    let n = groups[g].packages.len();
    assert(steps_left(phase, n) > 0);
    let upto = results.take(k + 1);
    assert(upto.drop_last() == results.take(k));
    assert(upto.last() == results[k]);
    let next = next_phase(phase, n, results[k]);
    lemma_step_progress(phase, n, results[k]);
    if next is Finished {
        assert(stage_after(start, groups, report, upto) == entering(groups, g + 1, report));
    } else {
        lemma_group_runs_out(groups, report, results, g, k + 1);
    }
}

/// An update cycle in progress.
#[derive(Debug)]
pub struct UpdateCycle {
    groups: Vec<ServiceGroup>,
    report: bool,
    stage: CycleStage,
    outcomes: Vec<GroupOutcome>,
}

/// Mathematical value of an [`UpdateCycle`].
pub struct CycleView {
    pub groups: Seq<GroupView>,
    pub report: bool,
    pub stage: CycleStage,
    pub outcomes: Seq<GroupOutcome>,
}

impl View for UpdateCycle {
    type V = CycleView;

    closed spec fn view(&self) -> CycleView {
        CycleView {
            groups: group_views(self.groups@),
            report: self.report,
            stage: self.stage,
            outcomes: self.outcomes@,
        }
    }
}

impl UpdateCycle {
    /// The cycle is at a stage that it can be in.
    pub open spec fn wf(&self) -> bool {
        stage_fits(self@.stage, self@.groups)
    }

    /// The stage in which group `g` is taken in hand.
    fn enter(groups: &Vec<ServiceGroup>, g: usize, report: bool) -> (r: CycleStage)
        ensures
            r == entering(group_views(groups@), g as int, report),
            stage_fits(r, group_views(groups@)),
    {
        if g < groups.len() {
            CycleStage::Updating(g, begin(groups[g].packages.len()))
        } else if report {
            CycleStage::Reporting
        } else {
            CycleStage::Done
        }
    }

    /// The cycle that carries out `plan`.
    pub fn new(plan: CyclePlan) -> (r: UpdateCycle)
        ensures
            r.wf(),
            r@.groups == group_views(plan.groups@),
            r@.report == plan.report,
            r@.stage == entering(group_views(plan.groups@), 0, plan.report),
            r@.outcomes == Seq::<GroupOutcome>::empty(),
    {
        let stage = UpdateCycle::enter(&plan.groups, 0, plan.report);
        UpdateCycle { groups: plan.groups, report: plan.report, stage, outcomes: Vec::new() }
    }

    /// Where the cycle stands.
    pub fn stage(&self) -> (r: CycleStage)
        ensures
            r == self@.stage,
    {
        self.stage
    }

    /// Whether the cycle has ended.
    pub fn is_done(&self) -> (r: bool)
        ensures
            r == (self@.stage is Done),
    {
        match self.stage {
            CycleStage::Done => true,
            _ => false,
        }
    }

    /// The outcomes of the groups that have ended, in order.
    pub fn outcomes(&self) -> (r: &Vec<GroupOutcome>)
        ensures
            r@ == self@.outcomes,
    {
        &self.outcomes
    }

    /// The action that the host is to carry out now.
    pub fn action(&self) -> (r: CycleAction)
        requires
            self.wf(),
        ensures
            r@ == action_at(self@.stage, self@.groups),
    {
        match self.stage {
            CycleStage::Updating(g, phase) => CycleAction::Step {
                group: g,
                action: action_for(phase, &self.groups[g].service, &self.groups[g].packages),
            },
            CycleStage::Reporting => CycleAction::Report,
            CycleStage::Done => CycleAction::Done,
        }
    }

    /// Takes the host's report on the action in hand and gives the next
    /// action.
    pub fn advance(&mut self, result: StepResult) -> (r: CycleAction)
        requires
            old(self).wf(),
        ensures
            final(self).wf(),
            final(self)@.groups == old(self)@.groups,
            final(self)@.report == old(self)@.report,
            final(self)@.stage == next_stage(
                old(self)@.stage,
                old(self)@.groups,
                old(self)@.report,
                result,
            ),
            final(self)@.outcomes == outcomes_after(
                old(self)@.stage,
                old(self)@.groups,
                result,
                old(self)@.outcomes,
            ),
            r@ == action_at(final(self)@.stage, final(self)@.groups),
    {
        let next = match self.stage {
            CycleStage::Updating(g, phase) => {
                let count = self.groups.len();
                assert(g < count);
                match step(phase, self.groups[g].packages.len(), result) {
                    Phase::Finished(outcome) => {
                        self.outcomes.push(outcome);
                        UpdateCycle::enter(&self.groups, g + 1, self.report)
                    },
                    next => CycleStage::Updating(g, next),
                }
            },
            CycleStage::Reporting => CycleStage::Done,
            CycleStage::Done => CycleStage::Done,
        };
        self.stage = next;
        self.action()
    }
}

} // verus!
