//! The update of one service's packages as a transaction.
//!
//! The host carries out one action at a time and reports how it went; the
//! transaction answers with the next action. All artifacts of the group are
//! downloaded first, and where one download fails those already fetched are
//! discarded and nothing is installed. Then the service is stopped and the
//! artifacts are installed in order. Where the package manager refuses one,
//! every package of the group is taken back to its last installed artifact
//! and the group has failed; where all are installed the service is started
//! again.

use vstd::prelude::*;
use vstd::string::*;
use crate::artifact::{
    artifact_views, package_name, package_of, ArtifactView, ServiceKind, ServiceType,
};

verus! {

/// How the host fared with the action it was given.
#[derive(Debug, Clone, Copy, PartialEq, Eq, Structural)]
pub enum StepResult {
    /// The action was carried out.
    Succeeded,
    /// The action ran and reported failure: the package manager refused the
    /// artifact, or there was nothing to go back to.
    Failed,
    /// The action could not be carried out: a transport or I/O error.
    Error,
}

/// How the update of a group ended.
#[derive(Debug, Clone, Copy, PartialEq, Eq, Structural)]
pub enum GroupOutcome {
    /// Every artifact was installed and the service started again.
    Updated,
    /// A download failed; what had been fetched was discarded.
    DownloadFailed,
    /// The package manager refused an artifact; the packages were taken back
    /// to their last installed artifacts as far as that was possible.
    InstallFailed,
    /// An install could not be carried out at all.
    InstallError,
}

/// Where a transaction stands. The number is that of the package in hand.
#[derive(Debug, Clone, Copy, PartialEq, Eq, Structural)]
pub enum Phase {
    Downloading(usize),
    Discarding(usize),
    Stopping,
    Installing(usize),
    RollingBack(usize),
    Starting,
    Finished(GroupOutcome),
}

/// What the host is to do next.
#[derive(Debug, Clone, PartialEq, Eq)]
pub enum GroupAction {
    /// Bring the artifact `filename` from `url` into the working directory.
    Download { url: String, filename: String },
    /// Delete these artifacts from the working directory.
    Discard { filenames: Vec<String> },
    /// Stop the service.
    StopService { service: ServiceType },
    /// Install the artifact `filename`.
    Install { filename: String },
    /// Reinstall the last installed artifact of `package`.
    Rollback { package: String },
    /// Start the service.
    StartService { service: ServiceType },
    /// Nothing: the transaction has ended.
    Finished { outcome: GroupOutcome },
}

/// Mathematical value of a [`GroupAction`].
pub enum ActionView {
    Download { url: Seq<char>, filename: Seq<char> },
    Discard { filenames: Seq<Seq<char>> },
    StopService { service: ServiceKind },
    Install { filename: Seq<char> },
    Rollback { package: Seq<char> },
    StartService { service: ServiceKind },
    Finished { outcome: GroupOutcome },
}

impl View for GroupAction {
    type V = ActionView;

    open spec fn view(&self) -> ActionView {
        match self {
            GroupAction::Download { url, filename } => ActionView::Download {
                url: url@,
                filename: filename@,
            },
            GroupAction::Discard { filenames } => ActionView::Discard {
                filenames: Seq::new(filenames@.len(), |i: int| filenames@[i]@),
            },
            GroupAction::StopService { service } => ActionView::StopService { service: service@ },
            GroupAction::Install { filename } => ActionView::Install { filename: filename@ },
            GroupAction::Rollback { package } => ActionView::Rollback { package: package@ },
            GroupAction::StartService { service } => ActionView::StartService {
                service: service@,
            },
            GroupAction::Finished { outcome } => ActionView::Finished { outcome: *outcome },
        }
    }
}

/// The phase in which a transaction over `n` packages begins.
pub open spec fn first_phase(n: nat) -> Phase {
    if n > 0 {
        Phase::Downloading(0)
    } else {
        Phase::Stopping
    }
}

/// The package in hand is one of the `n` packages.
pub open spec fn phase_fits(phase: Phase, n: nat) -> bool {
    match phase {
        Phase::Downloading(k) => k < n,
        Phase::Discarding(k) => k < n,
        Phase::Installing(k) => k < n,
        Phase::RollingBack(k) => k < n,
        _ => true,
    }
}

/// The phase that follows `phase` when the host reports `result`, in a
/// transaction over `n` packages.
pub open spec fn next_phase(phase: Phase, n: nat, result: StepResult) -> Phase {
    match phase {
        Phase::Downloading(k) => if result != StepResult::Succeeded {
            Phase::Discarding(k)
        } else if k + 1 < n {
            Phase::Downloading((k + 1) as usize)
        } else {
            Phase::Stopping
        },
        Phase::Discarding(_) => Phase::Finished(GroupOutcome::DownloadFailed),
        Phase::Stopping => if n > 0 {
            Phase::Installing(0)
        } else {
            Phase::Starting
        },
        Phase::Installing(k) => match result {
            StepResult::Succeeded => if k + 1 < n {
                Phase::Installing((k + 1) as usize)
            } else {
                Phase::Starting
            },
            StepResult::Failed => Phase::RollingBack(0),
            StepResult::Error => Phase::Finished(GroupOutcome::InstallError),
        },
        Phase::RollingBack(k) => if k + 1 < n {
            Phase::RollingBack((k + 1) as usize)
        } else {
            Phase::Finished(GroupOutcome::InstallFailed)
        },
        Phase::Starting => Phase::Finished(GroupOutcome::Updated),
        Phase::Finished(outcome) => Phase::Finished(outcome),
    }
}

/// The phase reached from `phase` after the host's reports `results`.
pub open spec fn phase_after(phase: Phase, n: nat, results: Seq<StepResult>) -> Phase
    decreases results.len(),
{
    if results.len() == 0 {
        phase
    } else {
        next_phase(phase_after(phase, n, results.drop_last()), n, results.last())
    }
}

/// The file names of the first `k` artifacts.
pub open spec fn filenames_upto(packages: Seq<ArtifactView>, k: int) -> Seq<Seq<char>> {
    Seq::new(k as nat, |i: int| packages[i].filename)
}

/// The action that the host is given in `phase`.
pub open spec fn action_in(phase: Phase, service: ServiceKind, packages: Seq<ArtifactView>)
    -> ActionView {
    match phase {
        Phase::Downloading(k) => ActionView::Download {
            url: packages[k as int].source_url,
            filename: packages[k as int].filename,
        },
        Phase::Discarding(k) => ActionView::Discard {
            filenames: filenames_upto(packages, k as int),
        },
        Phase::Stopping => ActionView::StopService { service },
        Phase::Installing(k) => ActionView::Install { filename: packages[k as int].filename },
        Phase::RollingBack(k) => ActionView::Rollback {
            package: package_of(packages[k as int].filename),
        },
        Phase::Starting => ActionView::StartService { service },
        Phase::Finished(outcome) => ActionView::Finished { outcome },
    }
}

/// An upper bound on the reports that a transaction in `phase` still takes
/// before it has finished.
pub open spec fn steps_left(phase: Phase, n: nat) -> nat {
    match phase {
        Phase::Downloading(k) => (3 * n + 2 - k) as nat,
        Phase::Discarding(_) => 1,
        Phase::Stopping => 2 * n + 2,
        Phase::Installing(k) => (2 * n + 1 - k) as nat,
        Phase::RollingBack(k) => (n - k) as nat,
        Phase::Starting => 1,
        Phase::Finished(_) => 0,
    }
}

/// Each report brings a transaction closer to its end.
pub proof fn lemma_step_progress(phase: Phase, n: nat, result: StepResult)
    requires
        n <= usize::MAX,
        phase_fits(phase, n),
        !(phase is Finished),
    ensures
        phase_fits(next_phase(phase, n, result), n),
        steps_left(next_phase(phase, n, result), n) < steps_left(phase, n),
{
}

/// A finished transaction stays finished, with the same outcome.
pub proof fn lemma_finished_stays(outcome: GroupOutcome, n: nat, results: Seq<StepResult>)
    ensures
        phase_after(Phase::Finished(outcome), n, results) == Phase::Finished(outcome),
    decreases results.len(),
{
    if results.len() > 0 {
        lemma_finished_stays(outcome, n, results.drop_last());
    }
}

/// Every transaction ends: after as many reports as [`steps_left`] allows,
/// whatever they say, it has finished.
pub proof fn lemma_transaction_ends(phase: Phase, n: nat, results: Seq<StepResult>)
    requires
        n <= usize::MAX,
        phase_fits(phase, n),
        results.len() >= steps_left(phase, n),
    ensures
        phase_after(phase, n, results) is Finished,
{
    lemma_run_progress(phase, n, results);
}

proof fn lemma_run_progress(phase: Phase, n: nat, results: Seq<StepResult>)
    requires
        n <= usize::MAX,
        phase_fits(phase, n),
    ensures
        phase_fits(phase_after(phase, n, results), n),
        phase_after(phase, n, results) is Finished || steps_left(
            phase_after(phase, n, results),
            n,
        ) + results.len() <= steps_left(phase, n),
    decreases results.len(),
{
    if results.len() > 0 {
        let before = phase_after(phase, n, results.drop_last());
        lemma_run_progress(phase, n, results.drop_last());
        if !(before is Finished) {
            lemma_step_progress(before, n, results.last());
        }
    }
}

/// Where the first `k` downloads of a transaction went well
/// and the next one did not, the host is told to discard exactly the `k`
/// artifacts that it fetched, and the transaction then ends as a failed
/// download, whatever else is reported. It never stops the service and
/// never installs.
pub proof fn lemma_failed_download_aborts(n: nat, results: Seq<StepResult>, k: int)
    requires
        n <= usize::MAX,
        0 <= k < n,
        k < results.len(),
        forall|i: int| 0 <= i < k ==> results[i] == StepResult::Succeeded,
        results[k] != StepResult::Succeeded,
    ensures
        phase_after(first_phase(n), n, results.take(k + 1)) == Phase::Discarding(k as usize),
        results.len() > k + 1 ==> phase_after(first_phase(n), n, results) == Phase::Finished(
            GroupOutcome::DownloadFailed,
        ),
    decreases results.len(),
{
    lemma_downloads_so_far(n, results.take(k), k);
    let upto = results.take(k + 1);
    assert(upto.drop_last() == results.take(k));
    assert(upto.last() == results[k]);
    if results.len() > k + 1 {
        let head = results.drop_last();
        if head.len() == k + 1 {
            assert(head == results.take(k + 1));
        } else {
            assert(head.take(k + 1) == results.take(k + 1));
            lemma_failed_download_aborts(n, head, k);
        }
    } else {
        assert(results.take(k + 1) == results);
    }
}

/// After `k` downloads that went well, with more to come, the transaction
/// is at download number `k`.
proof fn lemma_downloads_so_far(n: nat, results: Seq<StepResult>, k: int)
    requires
        n <= usize::MAX,
        0 <= k < n,
        results.len() == k,
        forall|i: int| 0 <= i < k ==> results[i] == StepResult::Succeeded,
    ensures
        phase_after(first_phase(n), n, results) == Phase::Downloading(k as usize),
    decreases k,
{
    if k > 0 {
        lemma_downloads_so_far(n, results.drop_last(), k - 1);
    }
}

/// The phase is one in which packages are installed or have been: an
/// install or a way back is in hand, the service is being started again, or
/// the transaction ended after its installs had begun.
pub open spec fn installs_begun(phase: Phase) -> bool {
    match phase {
        Phase::Installing(_) => true,
        Phase::RollingBack(_) => true,
        Phase::Starting => true,
        Phase::Finished(outcome) => outcome != GroupOutcome::DownloadFailed,
        _ => false,
    }
}

/// A service is never updated while it runs: wherever a transaction
/// installs, goes back or has done so, the host was told to stop the service
/// at an earlier step.
pub proof fn lemma_install_follows_stop(n: nat, results: Seq<StepResult>)
    requires
        n <= usize::MAX,
        installs_begun(phase_after(first_phase(n), n, results)),
    ensures
        exists|j: int|
            0 <= j < results.len() && #[trigger] phase_after(
                first_phase(n),
                n,
                results.take(j),
            ) == Phase::Stopping,
    decreases results.len(),
{
    let first = first_phase(n);
    if results.len() > 0 {
        let head = results.drop_last();
        let before = phase_after(first, n, head);
        assert(head == results.take(results.len() - 1));
        if before == Phase::Stopping {
        } else {
            assert(installs_begun(before));
            lemma_install_follows_stop(n, head);
            let j = choose|j: int|
                0 <= j < head.len() && #[trigger] phase_after(first, n, head.take(j))
                    == Phase::Stopping;
            assert(head.take(j) == results.take(j));
        }
    }
}

/// The phase in which a transaction over `n` packages begins.
pub fn begin(n: usize) -> (r: Phase)
    ensures
        r == first_phase(n as nat),
        phase_fits(r, n as nat),
{
    if n > 0 {
        Phase::Downloading(0)
    } else {
        Phase::Stopping
    }
}

/// The phase that follows `phase` when the host reports `result`, in a
/// transaction over `n` packages.
pub fn step(phase: Phase, n: usize, result: StepResult) -> (r: Phase)
    requires
        phase_fits(phase, n as nat),
    ensures
        r == next_phase(phase, n as nat, result),
        phase_fits(r, n as nat),
{
    match phase {
        Phase::Downloading(k) => match result {
            StepResult::Succeeded => if k + 1 < n {
                Phase::Downloading(k + 1)
            } else {
                Phase::Stopping
            },
            _ => Phase::Discarding(k),
        },
        Phase::Discarding(_) => Phase::Finished(GroupOutcome::DownloadFailed),
        Phase::Stopping => if n > 0 {
            Phase::Installing(0)
        } else {
            Phase::Starting
        },
        Phase::Installing(k) => match result {
            StepResult::Succeeded => if k + 1 < n {
                Phase::Installing(k + 1)
            } else {
                Phase::Starting
            },
            StepResult::Failed => Phase::RollingBack(0),
            StepResult::Error => Phase::Finished(GroupOutcome::InstallError),
        },
        Phase::RollingBack(k) => if k + 1 < n {
            Phase::RollingBack(k + 1)
        } else {
            Phase::Finished(GroupOutcome::InstallFailed)
        },
        Phase::Starting => Phase::Finished(GroupOutcome::Updated),
        Phase::Finished(outcome) => Phase::Finished(outcome),
    }
}

/// The action that the host is given in `phase` of the update of `service`
/// with `packages`.
pub fn action_for(phase: Phase, service: &ServiceType, packages: &Vec<(String, String)>) -> (r:
    GroupAction)
    requires
        phase_fits(phase, packages@.len()),
    ensures
        r@ == action_in(phase, service@, artifact_views(packages@)),
{
    match phase {
        Phase::Downloading(k) => GroupAction::Download {
            url: packages[k].1.clone(),
            filename: packages[k].0.clone(),
        },
        Phase::Discarding(k) => {
            let mut filenames: Vec<String> = Vec::new();
            let mut i: usize = 0;
            while i < k
                invariant
                    i <= k < packages@.len(),
                    filenames@.len() == i,
                    forall|j: int| 0 <= j < i ==> (#[trigger] filenames@[j])@ == packages@[j].0@,
                decreases k - i,
            {
                filenames.push(packages[i].0.clone());
                i += 1;
            }
            let r = GroupAction::Discard { filenames };
            assert(r@->Discard_filenames =~= filenames_upto(
                artifact_views(packages@),
                k as int,
            ));
            r
        },
        Phase::Stopping => GroupAction::StopService { service: service.duplicate() },
        Phase::Installing(k) => GroupAction::Install { filename: packages[k].0.clone() },
        Phase::RollingBack(k) => GroupAction::Rollback {
            package: package_name(packages[k].0.as_str()),
        },
        Phase::Starting => GroupAction::StartService { service: service.duplicate() },
        Phase::Finished(outcome) => GroupAction::Finished { outcome },
    }
}

/// The update of one service's packages, in progress.
#[derive(Debug)]
pub struct GroupUpdate {
    service: ServiceType,
    packages: Vec<(String, String)>,
    phase: Phase,
}

/// Mathematical value of a [`GroupUpdate`].
pub struct GroupUpdateView {
    pub service: ServiceKind,
    pub packages: Seq<ArtifactView>,
    pub phase: Phase,
}

impl View for GroupUpdate {
    type V = GroupUpdateView;

    closed spec fn view(&self) -> GroupUpdateView {
        GroupUpdateView {
            service: self.service@,
            packages: artifact_views(self.packages@),
            phase: self.phase,
        }
    }
}

impl GroupUpdate {
    /// The package in hand is one of the group's.
    pub open spec fn wf(&self) -> bool {
        phase_fits(self@.phase, self@.packages.len())
    }

    /// A transaction that updates `service` with `packages`, each a file name
    /// and the address to fetch it from.
    pub fn new(service: ServiceType, packages: Vec<(String, String)>) -> (r: GroupUpdate)
        ensures
            r.wf(),
            r@.service == service@,
            r@.packages == artifact_views(packages@),
            r@.phase == first_phase(packages@.len()),
    {
        let phase = begin(packages.len());
        GroupUpdate { service, packages, phase }
    }

    /// Where the transaction stands.
    pub fn phase(&self) -> (r: Phase)
        ensures
            r == self@.phase,
    {
        self.phase
    }

    /// How the transaction ended, once it has.
    pub fn outcome(&self) -> (r: Option<GroupOutcome>)
        ensures
            r == (match self@.phase {
                Phase::Finished(outcome) => Some(outcome),
                _ => None,
            }),
    {
        match self.phase {
            Phase::Finished(outcome) => Some(outcome),
            _ => None,
        }
    }

    /// The action that the host is to carry out now.
    pub fn action(&self) -> (r: GroupAction)
        requires
            self.wf(),
        ensures
            r@ == action_in(self@.phase, self@.service, self@.packages),
    {
        action_for(self.phase, &self.service, &self.packages)
    }

    /// Takes the host's report on the action in hand and gives the next
    /// action.
    pub fn advance(&mut self, result: StepResult) -> (r: GroupAction)
        requires
            old(self).wf(),
        ensures
            final(self).wf(),
            final(self)@.service == old(self)@.service,
            final(self)@.packages == old(self)@.packages,
            final(self)@.phase == next_phase(old(self)@.phase, old(self)@.packages.len(), result),
            r@ == action_in(final(self)@.phase, final(self)@.service, final(self)@.packages),
    {
        self.phase = step(self.phase, self.packages.len(), result);
        self.action()
    }
}

} // verus!
