//! The version manager: which artifacts of a release are updates, how they
//! are grouped by service, what a cycle does under each strategy, and what it
//! reports to the health registry.

use vstd::prelude::*;
use vstd::string::*;
use crate::artifact::{
    artifact_view, artifact_views, package_name, package_of, registry_name, service_of,
    version_of, ArtifactView, ServiceKind, ServiceType,
};
use crate::config::{
    strategy_named, ConfigError, OtaConfig, UpgradeStrategy, VersionConfig, DEFAULT_DOWNLOAD_DIR,
};
use crate::deb::DebManager;
use crate::registry::{after_announcement, Services, StateView};
use crate::release::{deb_artifacts, GithubRelease};
use crate::text::{contains, contains_text, opt_str, starts_with};
use crate::transaction::{first_phase, GroupUpdate};
use crate::version::{tag_is_update, tag_needs_update, update_needed, VersionError};

verus! {

/// A package as the host's package manager reports it.
#[derive(Debug, Clone, PartialEq, Eq)]
pub struct InstalledPackage {
    pub name: String,
    pub version: String,
}

/// The candidate artifacts of one service, to be updated together.
#[derive(Debug, Clone, PartialEq, Eq)]
pub struct ServiceGroup {
    pub service: ServiceType,
    pub packages: Vec<(String, String)>,
}

/// Mathematical value of a [`ServiceGroup`].
pub struct GroupView {
    pub service: ServiceKind,
    pub packages: Seq<ArtifactView>,
}

impl View for ServiceGroup {
    type V = GroupView;

    open spec fn view(&self) -> GroupView {
        GroupView { service: self.service@, packages: artifact_views(self.packages@) }
    }
}

/// The views of a list of groups, in order.
pub open spec fn group_views(groups: Seq<ServiceGroup>) -> Seq<GroupView> {
    Seq::new(groups.len(), |i: int| groups[i]@)
}

/// Why an update on command was not begun.
#[derive(Debug, Clone, Copy, PartialEq, Eq, Structural)]
pub enum UpdateError {
    /// The release holds no artifact for the service.
    NoUpdatesFound,
}

/// What one update cycle is to do.
#[derive(Debug)]
pub struct CyclePlan {
    /// Whether the versions on offer are written to the health registry.
    pub report: bool,
    /// The groups to update, in order, each for itself: a group that fails
    /// keeps no other from being updated.
    pub groups: Vec<ServiceGroup>,
}

/// What the control loop does when its timer fires.
#[derive(Debug, Clone, Copy, PartialEq, Eq, Structural)]
pub enum TickAction {
    /// Leave the loop.
    Exit,
    /// Do nothing this time: the previous cycle has not ended.
    Skip,
    /// Look for updates and install them.
    CheckAndApply,
    /// Look for updates and make them known.
    CheckOnly,
}

/// The version that the package manager reports for `package`: that of the
/// first entry of that name.
pub open spec fn installed_version(installed: Seq<InstalledPackage>, package: Seq<char>) -> Option<
    Seq<char>,
>
    decreases installed.len(),
{
    if installed.len() == 0 {
        None
    } else if installed[0].name@ == package {
        Some(installed[0].version@)
    } else {
        installed_version(installed.drop_first(), package)
    }
}

/// Whether the configuration lets the packages of `service` be updated by
/// the cycle. The launcher never is: it cannot replace itself while it runs.
pub open spec fn service_enabled(service: ServiceKind, gateway: bool, media: bool) -> bool {
    match service {
        ServiceKind::Gateway => gateway,
        ServiceKind::Media => media,
        ServiceKind::Launcher => false,
        ServiceKind::Other(_) => true,
    }
}

/// Whether the artifact is an update that a cycle may install: it is not the
/// launcher's, its service is enabled, its name carries a version, and that
/// version is newer than the installed one.
pub open spec fn is_eligible(
    a: ArtifactView,
    installed: Seq<InstalledPackage>,
    gateway: bool,
    media: bool,
) -> bool {
    let package = package_of(a.filename);
    &&& !"luffy-launcher"@.is_prefix_of(a.filename)
    &&& service_enabled(service_of(package), gateway, media)
    &&& version_of(a.filename) is Some
    &&& update_needed(installed_version(installed, package), version_of(a.filename).unwrap())
}

/// [`is_eligible`] as a predicate on artifacts.
pub open spec fn eligible(installed: Seq<InstalledPackage>, gateway: bool, media: bool) -> spec_fn(
    ArtifactView,
) -> bool {
    |a: ArtifactView| is_eligible(a, installed, gateway, media)
}

/// Whether the artifact is an update of the launcher itself.
pub open spec fn is_launcher_update(a: ArtifactView, installed: Seq<InstalledPackage>) -> bool {
    &&& "luffy-launcher"@.is_prefix_of(a.filename)
    &&& version_of(a.filename) is Some
    &&& update_needed(
        installed_version(installed, "luffy-launcher"@),
        version_of(a.filename).unwrap(),
    )
}

/// [`is_launcher_update`] as a predicate on artifacts.
pub open spec fn launcher_update(installed: Seq<InstalledPackage>) -> spec_fn(ArtifactView) -> bool {
    |a: ArtifactView| is_launcher_update(a, installed)
}

/// The artifacts whose file name holds `service`.
pub open spec fn names_service(service: Seq<char>) -> spec_fn(ArtifactView) -> bool {
    |a: ArtifactView| contains_text(a.filename, service)
}

/// Where the group of `service` stands in `groups`, or `groups.len()` where
/// there is none.
pub open spec fn group_position(groups: Seq<GroupView>, service: ServiceKind) -> int
    decreases groups.len(),
{
    if groups.len() == 0 || groups[0].service == service {
        0
    } else {
        1 + group_position(groups.drop_first(), service)
    }
}

/// `groups` with the artifact `a` added to the group of its service, which
/// is opened as the last group where there was none.
pub open spec fn with_artifact(groups: Seq<GroupView>, a: ArtifactView) -> Seq<GroupView> {
    let service = service_of(package_of(a.filename));
    let g = group_position(groups, service);
    if g < groups.len() {
        groups.update(g, GroupView { service, packages: groups[g].packages.push(a) })
    } else {
        groups.push(GroupView { service, packages: seq![a] })
    }
}

/// The artifacts by service: the groups in the order in which their services
/// first occur, each with its artifacts in their order.
pub open spec fn grouped(packages: Seq<ArtifactView>) -> Seq<GroupView>
    decreases packages.len(),
{
    if packages.len() == 0 {
        Seq::empty()
    } else {
        with_artifact(grouped(packages.drop_last()), packages.last())
    }
}

/// The registry after the versions of `packages` have been announced, one
/// after the other, each for the service that its package belongs to. An
/// artifact whose name carries no version announces nothing.
pub open spec fn announced(
    registry: Map<Seq<char>, StateView>,
    packages: Seq<ArtifactView>,
    now: u64,
) -> Map<Seq<char>, StateView>
    decreases packages.len(),
{
    if packages.len() == 0 {
        registry
    } else {
        let before = announced(registry, packages.drop_last(), now);
        let a = packages.last();
        match version_of(a.filename) {
            Some(version) => after_announcement(
                before,
                registry_name(service_of(package_of(a.filename))),
                version,
                now,
            ),
            None => before,
        }
    }
}

/// What is said of one update: the package, the installed version and the
/// version on offer. Nothing where the file name carries no version or the
/// package is not installed.
pub open spec fn update_line(a: ArtifactView, installed: Seq<InstalledPackage>) -> Option<
    Seq<char>,
> {
    let package = package_of(a.filename);
    match (version_of(a.filename), installed_version(installed, package)) {
        (Some(new), Some(current)) => Some(package + ": "@ + current + " -> "@ + new),
        _ => None,
    }
}

/// What is said of a list of updates: their lines, with `, ` between them.
pub open spec fn update_summary(updates: Seq<ArtifactView>, installed: Seq<InstalledPackage>)
    -> Seq<char>
    decreases updates.len(),
{
    if updates.len() == 0 {
        Seq::empty()
    } else {
        let before = update_summary(updates.drop_last(), installed);
        match update_line(updates.last(), installed) {
            None => before,
            Some(line) => if before.len() == 0 {
                line
            } else {
                before + ", "@ + line
            },
        }
    }
}

/// What a cycle does on the tick of its timer.
pub open spec fn tick_action(strategy: UpgradeStrategy, running: bool, in_flight: bool)
    -> TickAction {
    if !running || strategy == UpgradeStrategy::Disabled {
        TickAction::Exit
    } else if in_flight {
        TickAction::Skip
    } else if strategy == UpgradeStrategy::Auto {
        TickAction::CheckAndApply
    } else {
        TickAction::CheckOnly
    }
}

/// The artifacts of `service`.
pub open spec fn of_service(service: ServiceKind) -> spec_fn(ArtifactView) -> bool {
    |a: ArtifactView| service_of(package_of(a.filename)) == service
}

proof fn lemma_group_position_is(groups: Seq<GroupView>, service: ServiceKind)
    ensures
        0 <= group_position(groups, service) <= groups.len(),
        forall|j: int| 0 <= j < group_position(groups, service) ==> groups[j].service != service,
        group_position(groups, service) < groups.len() ==> groups[group_position(
            groups,
            service,
        )].service == service,
    decreases groups.len(),
{
    if groups.len() == 0 || groups[0].service == service {
    } else {
        let rest = groups.drop_first();
        lemma_group_position_is(rest, service);
        assert forall|j: int| 0 <= j < group_position(groups, service) implies groups[j].service
            != service by {
            if j > 0 {
                assert(rest[j - 1] == groups[j]);
            }
        }
        if group_position(groups, service) < groups.len() {
            assert(rest[group_position(rest, service)] == groups[group_position(groups, service)]);
        }
    }
}

/// Each service has one group at most; a group is not empty and
/// holds exactly the artifacts of its service, in their order; and every
/// artifact's service has a group.
pub proof fn lemma_grouped(packages: Seq<ArtifactView>)
    ensures
        forall|g: int, h: int|
            0 <= g < h < grouped(packages).len() ==> grouped(packages)[g].service != grouped(
                packages,
            )[h].service,
        forall|g: int|
            0 <= g < grouped(packages).len() ==> (#[trigger] grouped(packages)[g]).packages.len()
                > 0 && grouped(packages)[g].packages == packages.filter(
                of_service(grouped(packages)[g].service),
            ),
        forall|i: int|
            0 <= i < packages.len() ==> exists|g: int|
                0 <= g < grouped(packages).len() && grouped(packages)[g].service == service_of(
                    package_of((#[trigger] packages[i]).filename),
                ),
    decreases packages.len(),
{
    let groups = grouped(packages);
    if packages.len() == 0 {
        return ;
    }
    let head = packages.drop_last();
    let a = packages.last();
    let prev = grouped(head);
    let s = service_of(package_of(a.filename));
    let g0 = group_position(prev, s);
    lemma_grouped(head);
    lemma_group_position_is(prev, s);
    assert(packages =~= head.push(a));

    assert forall|g: int| 0 <= g < groups.len() implies (#[trigger] groups[g]).packages.len() > 0
        && groups[g].packages == packages.filter(of_service(groups[g].service)) by {
        let keep = of_service(groups[g].service);
        head.lemma_filter_push(a, keep);
        if g0 < prev.len() {
            assert(groups[g].service == prev[g].service);
            if g != g0 {
                assert(prev[g].service != s) by {
                    if g < g0 {
                        assert(prev[g].service != prev[g0].service);
                    } else {
                        assert(prev[g0].service != prev[g].service);
                    }
                }
                assert(!keep(a));
            } else {
                assert(keep(a));
            }
        } else if g < prev.len() {
            assert(prev[g].service != s);
            assert(!keep(a));
        } else {
            assert(keep(a));
            assert(head.all(|x: ArtifactView| !keep(x))) by {
                assert forall|i: int| 0 <= i < head.len() implies !keep(head[i]) by {
                    if keep(head[i]) {
                        let w = choose|w: int|
                            0 <= w < prev.len() && prev[w].service == service_of(
                                package_of(head[i].filename),
                            );
                        assert(prev[w].service == s);
                    }
                }
            }
            head.lemma_all_neg_filter_empty(keep);
            assert(head.filter(keep) =~= Seq::<ArtifactView>::empty());
            assert(groups[g].packages =~= Seq::<ArtifactView>::empty().push(a));
        }
    }
    assert forall|g: int, h: int| 0 <= g < h < groups.len() implies groups[g].service
        != groups[h].service by {
        if g0 < prev.len() {
            assert(groups[g].service == prev[g].service && groups[h].service == prev[h].service);
        } else if h == prev.len() {
            assert(prev[g].service != s);
        }
    }
    assert forall|i: int| 0 <= i < packages.len() implies exists|g: int|
        0 <= g < groups.len() && groups[g].service == service_of(
            package_of((#[trigger] packages[i]).filename),
        ) by {
        if i < head.len() {
            assert(packages[i] == head[i]);
            let w = choose|w: int|
                0 <= w < prev.len() && prev[w].service == service_of(
                    package_of(head[i].filename),
                );
            assert(groups[w].service == prev[w].service);
        } else {
            let w = if g0 < prev.len() { g0 } else { prev.len() as int };
            assert(groups[w].service == s);
        }
    }
}

proof fn lemma_group_position(groups: Seq<GroupView>, service: ServiceKind, g: int)
    requires
        0 <= g <= groups.len(),
        forall|j: int| 0 <= j < g ==> groups[j].service != service,
        g < groups.len() ==> groups[g].service == service,
    ensures
        group_position(groups, service) == g,
    decreases groups.len(),
{
    if groups.len() == 0 || groups[0].service == service {
        if g > 0 {
            assert(groups[0].service != service);
        }
    } else {
        let rest = groups.drop_first();
        assert forall|j: int| 0 <= j < g - 1 implies rest[j].service != service by {
            assert(rest[j] == groups[j + 1]);
        }
        lemma_group_position(rest, service, g - 1);
    }
}

/// The version of `package` in `installed`.
pub fn lookup_installed<'a>(installed: &'a Vec<InstalledPackage>, package: &str) -> (r: Option<
    &'a str,
>)
    ensures
        opt_str(r) == installed_version(installed@, package@),
{
    let mut i: usize = 0;
    assert(installed@.skip(0) == installed@);
    while i < installed.len()
        invariant
            i <= installed@.len(),
            installed_version(installed@, package@) == installed_version(
                installed@.skip(i as int),
                package@,
            ),
        decreases installed@.len() - i,
    {
        if crate::text::same_text(installed[i].name.as_str(), package) {
            return Some(installed[i].version.as_str());
        }
        assert(installed@.skip(i as int).drop_first() == installed@.skip(i + 1));
        i += 1;
    }
    None
}

/// A copy of a package pair.
fn copy_package(p: &(String, String)) -> (r: (String, String))
    ensures
        artifact_view(r) == artifact_view(*p),
{
    (p.0.clone(), p.1.clone())
}

/// A copy of a list of package pairs.
pub fn copy_packages(packages: &Vec<(String, String)>) -> (r: Vec<(String, String)>)
    ensures
        artifact_views(r@) == artifact_views(packages@),
{
    let mut out: Vec<(String, String)> = Vec::new();
    let mut i: usize = 0;
    while i < packages.len()
        invariant
            i <= packages@.len(),
            out@.len() == i,
            forall|k: int|
                0 <= k < i ==> artifact_view(#[trigger] out@[k]) == artifact_view(packages@[k]),
        decreases packages@.len() - i,
    {
        out.push(copy_package(&packages[i]));
        i += 1;
    }
    assert(artifact_views(out@) =~= artifact_views(packages@));
    out
}

/// What every service's version manager has: the strategy, the version that
/// runs, how often to look for updates, the installer and the repository of
/// the releases.
#[derive(Debug)]
pub struct BaseVersionManager {
    pub strategy: UpgradeStrategy,
    pub current_version: String,
    pub check_interval: u64,
    pub deb_manager: DebManager,
    pub github_repo: String,
}

impl BaseVersionManager {
    /// A version manager made from the configuration. The interval is in
    /// seconds; the artifacts are kept in the configured directory or, where
    /// none is configured, in [`DEFAULT_DOWNLOAD_DIR`]. The running version
    /// is not known yet.
    pub fn new(config: VersionConfig) -> (r: Result<BaseVersionManager, ConfigError>)
        ensures
            r is Ok == strategy_named(config.strategy@) is Ok,
            r matches Err(e) ==> strategy_named(config.strategy@) == Err::<
                UpgradeStrategy,
                ConfigError,
            >(e),
            r matches Ok(m) ==> {
                &&& strategy_named(config.strategy@) == Ok::<UpgradeStrategy, ConfigError>(
                    m.strategy,
                )
                &&& m.current_version@ == Seq::<char>::empty()
                &&& m.check_interval == config.check_interval
                &&& m.github_repo@ == config.github_repo@
                &&& m.deb_manager.work_dir()@ == (match config.download_dir {
                    Some(dir) => dir@,
                    None => DEFAULT_DOWNLOAD_DIR@,
                })
            },
    {
        let strategy = match UpgradeStrategy::parse(config.strategy.as_str()) {
            Ok(s) => s,
            Err(e) => {
                return Err(e);
            },
        };
        let work_dir = match config.download_dir {
            Some(dir) => dir,
            None => String::from_str(DEFAULT_DOWNLOAD_DIR),
        };
        Ok(
            BaseVersionManager {
                strategy,
                current_version: String::new(),
                check_interval: config.check_interval as u64,
                deb_manager: DebManager::new(work_dir),
                github_repo: config.github_repo,
            },
        )
    }

    /// The version that runs.
    pub fn get_current_version(&self) -> (r: &str)
        ensures
            r@ == self.current_version@,
    {
        self.current_version.as_str()
    }

    /// The address to ask for the latest release.
    pub fn release_url(&self) -> (r: String)
        ensures
            r@ == crate::release::latest_release_url(self.github_repo@),
    {
        crate::release::release_url(self.github_repo.as_str())
    }

    /// What the latest release offers: its tag and its package artifacts,
    /// each as file name and address.
    pub fn get_latest_version(&self, release: &GithubRelease) -> (r: (String, Vec<(String, String)>))
        ensures
            r.0@ == release.tag_name@,
            artifact_views(r.1@) == deb_artifacts(release.assets@, release.assets@.len()),
    {
        (release.tag_name.clone(), release.deb_assets())
    }

    /// Begins the update of `service_type` with `packages`.
    pub fn update_service_packages(
        &self,
        service_type: &ServiceType,
        packages: &Vec<(String, String)>,
    ) -> (r: GroupUpdate)
        ensures
            r.wf(),
            r@.service == service_type@,
            r@.packages == artifact_views(packages@),
            r@.phase == first_phase(packages@.len()),
    {
        GroupUpdate::new(service_type.duplicate(), copy_packages(packages))
    }

    /// Whether the release tagged `latest_version` is newer than the version
    /// that runs.
    pub fn needs_update(&self, latest_version: &str) -> (r: Result<bool, VersionError>)
        ensures
            r == tag_is_update(self.current_version@, latest_version@),
    {
        tag_needs_update(self.current_version.as_str(), latest_version)
    }
}

/// The launcher's version manager: it looks after the packages of the other
/// services.
#[derive(Debug)]
pub struct VersionManager {
    base: BaseVersionManager,
    gateway: bool,
    media: bool,
    running: bool,
}

impl VersionManager {
    /// The settings that all version managers share.
    pub closed spec fn base(&self) -> BaseVersionManager {
        self.base
    }

    /// Whether the gateway's packages are to be updated.
    pub closed spec fn gateway_enabled(&self) -> bool {
        self.gateway
    }

    /// Whether the media service's packages are to be updated.
    pub closed spec fn media_enabled(&self) -> bool {
        self.media
    }

    /// Whether the control loop is to go on.
    pub closed spec fn is_running(&self) -> bool {
        self.running
    }

    /// A version manager made from the launcher's configuration. Its loop is
    /// to run until it is told to stop.
    pub fn new(config: OtaConfig) -> (r: Result<VersionManager, ConfigError>)
        ensures
            r is Ok == strategy_named(config.strategy@) is Ok,
            r matches Err(e) ==> strategy_named(config.strategy@) == Err::<
                UpgradeStrategy,
                ConfigError,
            >(e),
            r matches Ok(m) ==> {
                &&& strategy_named(config.strategy@) == Ok::<UpgradeStrategy, ConfigError>(
                    m.base().strategy,
                )
                &&& m.gateway_enabled() == config.gateway
                &&& m.media_enabled() == config.media
                &&& m.is_running()
                &&& m.base().current_version@ == Seq::<char>::empty()
                &&& m.base().check_interval == config.check_interval
                &&& m.base().github_repo@ == config.github_repo@
            },
    {
        let gateway = config.gateway;
        let media = config.media;
        let shared = VersionConfig {
            strategy: config.strategy,
            check_interval: config.check_interval,
            download_dir: config.download_dir,
            github_repo: config.github_repo,
        };
        match BaseVersionManager::new(shared) {
            Ok(base) => Ok(VersionManager { base, gateway, media, running: true }),
            Err(e) => Err(e),
        }
    }

    /// The settings that all version managers share.
    pub fn get_base(&self) -> (r: &BaseVersionManager)
        ensures
            *r == self.base(),
    {
        &self.base
    }

    /// The strategy.
    pub fn strategy(&self) -> (r: UpgradeStrategy)
        ensures
            r == self.base().strategy,
    {
        self.base.strategy
    }

    /// The version that runs.
    pub fn get_current_version(&self) -> (r: &str)
        ensures
            r@ == self.base().current_version@,
    {
        self.base.get_current_version()
    }

    /// What the latest release offers: its tag and its package artifacts.
    pub fn get_latest_version(&self, release: &GithubRelease) -> (r: (String, Vec<(String, String)>))
        ensures
            r.0@ == release.tag_name@,
            artifact_views(r.1@) == deb_artifacts(release.assets@, release.assets@.len()),
    {
        self.base.get_latest_version(release)
    }

    /// Whether a cycle asks the release index at all: not where updates are
    /// disabled.
    pub fn resolves(&self) -> (r: bool)
        ensures
            r == (self.base().strategy != UpgradeStrategy::Disabled),
    {
        match self.base.strategy {
            UpgradeStrategy::Disabled => false,
            _ => true,
        }
    }

    /// Whether the artifact called `filename` is an update that a cycle may
    /// install.
    pub fn is_update(&self, package: &(String, String), installed: &Vec<InstalledPackage>) -> (r:
        bool)
        ensures
            r == is_eligible(
                artifact_view(*package),
                installed@,
                self.gateway_enabled(),
                self.media_enabled(),
            ),
    {
        let filename = package.0.as_str();
        if starts_with(filename, "luffy-launcher") {
            return false;
        }
        let name = package_name(filename);
        let enabled = match self.base.deb_manager.get_service_type(name.as_str()) {
            ServiceType::Gateway => self.gateway,
            ServiceType::Media => self.media,
            ServiceType::Launcher => false,
            ServiceType::Other(_) => true,
        };
        if !enabled {
            return false;
        }
        match self.base.deb_manager.extract_package_version(filename) {
            Some(new_version) => self.base.deb_manager.needs_update(
                lookup_installed(installed, name.as_str()),
                new_version.as_str(),
            ),
            None => false,
        }
    }

    /// The updates among the artifacts of a release: those that are not the
    /// launcher's, whose service is enabled, and whose version is newer than
    /// what `installed` reports for their package; in the order of the
    /// release.
    pub fn check_updates(
        &self,
        all_packages: &Vec<(String, String)>,
        installed: &Vec<InstalledPackage>,
    ) -> (r: Vec<(String, String)>)
        ensures
            artifact_views(r@) == artifact_views(all_packages@).filter(
                eligible(installed@, self.gateway_enabled(), self.media_enabled()),
            ),
    {
        let ghost keep = eligible(installed@, self.gateway_enabled(), self.media_enabled());
        let ghost all = artifact_views(all_packages@);
        let mut out: Vec<(String, String)> = Vec::new();
        let mut i: usize = 0;
        proof {
            assert(all.take(0) =~= Seq::<ArtifactView>::empty());
            all.take(0).lemma_filter_len(keep);
            assert(artifact_views(out@) =~= all.take(0).filter(keep));
        }
        while i < all_packages.len()
            invariant
                i <= all_packages@.len(),
                all == artifact_views(all_packages@),
                keep == eligible(installed@, self.gateway_enabled(), self.media_enabled()),
                artifact_views(out@) == all.take(i as int).filter(keep),
            decreases all_packages@.len() - i,
        {
            proof {
                assert(all.take(i + 1) =~= all.take(i as int).push(all[i as int]));
                all.take(i as int).lemma_filter_push(all[i as int], keep);
            }
            if self.is_update(&all_packages[i], installed) {
                let ghost before = artifact_views(out@);
                out.push(copy_package(&all_packages[i]));
                assert(artifact_views(out@) =~= before.push(all[i as int]));
            }
            i += 1;
        }
        assert(all.take(all.len() as int) == all);
        out
    }

    /// The updates of the launcher itself among the artifacts of a release.
    /// They are never part of a cycle's own updates.
    pub fn check_launcher_updates(
        &self,
        all_packages: &Vec<(String, String)>,
        installed: &Vec<InstalledPackage>,
    ) -> (r: Vec<(String, String)>)
        ensures
            artifact_views(r@) == artifact_views(all_packages@).filter(
                launcher_update(installed@),
            ),
    {
        let ghost keep = launcher_update(installed@);
        let ghost all = artifact_views(all_packages@);
        let mut out: Vec<(String, String)> = Vec::new();
        let mut i: usize = 0;
        proof {
            assert(all.take(0) =~= Seq::<ArtifactView>::empty());
            all.take(0).lemma_filter_len(keep);
            assert(artifact_views(out@) =~= all.take(0).filter(keep));
        }
        while i < all_packages.len()
            invariant
                i <= all_packages@.len(),
                all == artifact_views(all_packages@),
                keep == launcher_update(installed@),
                artifact_views(out@) == all.take(i as int).filter(keep),
            decreases all_packages@.len() - i,
        {
            proof {
                assert(all.take(i + 1) =~= all.take(i as int).push(all[i as int]));
                all.take(i as int).lemma_filter_push(all[i as int], keep);
            }
            let filename = all_packages[i].0.as_str();
            let is_update = starts_with(filename, "luffy-launcher") && match self.base.deb_manager.extract_package_version(
                filename,
            ) {
                Some(new_version) => self.base.deb_manager.needs_update(
                    lookup_installed(installed, "luffy-launcher"),
                    new_version.as_str(),
                ),
                None => false,
            };
            if is_update {
                let ghost before = artifact_views(out@);
                out.push(copy_package(&all_packages[i]));
                assert(artifact_views(out@) =~= before.push(all[i as int]));
            }
            i += 1;
        }
        assert(all.take(all.len() as int) == all);
        out
    }

    /// What a cycle does for the launcher itself, on a service that looks
    /// after the launcher: under the automatic strategy the launcher's
    /// updates are installed as one group; else nothing is installed. Nothing
    /// is written to a health registry.
    pub fn check_and_apply_launcher_updates(
        &self,
        all_packages: &Vec<(String, String)>,
        installed: &Vec<InstalledPackage>,
    ) -> (r: CyclePlan)
        ensures
            !r.report,
            group_views(r.groups@) == (if self.base().strategy == UpgradeStrategy::Auto
                && artifact_views(all_packages@).filter(launcher_update(installed@)).len() > 0 {
                seq![
                    GroupView {
                        service: ServiceKind::Other("luffy-launcher"@),
                        packages: artifact_views(all_packages@).filter(
                            launcher_update(installed@),
                        ),
                    },
                ]
            } else {
                Seq::<GroupView>::empty()
            }),
    {
        let mut groups: Vec<ServiceGroup> = Vec::new();
        match self.base.strategy {
            UpgradeStrategy::Auto => {
                let updates = self.check_launcher_updates(all_packages, installed);
                if updates.len() > 0 {
                    groups.push(
                        ServiceGroup {
                            service: ServiceType::Other(String::from_str("luffy-launcher")),
                            packages: updates,
                        },
                    );
                }
            },
            _ => {},
        }
        proof {
            let want = if self.base().strategy == UpgradeStrategy::Auto && artifact_views(
                all_packages@,
            ).filter(launcher_update(installed@)).len() > 0 {
                seq![
                    GroupView {
                        service: ServiceKind::Other("luffy-launcher"@),
                        packages: artifact_views(all_packages@).filter(
                            launcher_update(installed@),
                        ),
                    },
                ]
            } else {
                Seq::<GroupView>::empty()
            };
            assert(group_views(groups@) =~= want);
        }
        CyclePlan { report: false, groups }
    }

    /// The group in which the launcher's own update is carried out.
    pub fn update_launcher(&self, packages: &Vec<(String, String)>) -> (r: GroupUpdate)
        ensures
            r.wf(),
            r@.service == ServiceKind::Other("luffy-launcher"@),
            r@.packages == artifact_views(packages@),
            r@.phase == first_phase(packages@.len()),
    {
        let service = ServiceType::Other(String::from_str("luffy-launcher"));
        self.base.update_service_packages(&service, packages)
    }

    /// The artifacts by service, in the order in which the services first
    /// occur.
    pub fn group_by_service(&self, packages: &Vec<(String, String)>) -> (r: Vec<ServiceGroup>)
        ensures
            group_views(r@) == grouped(artifact_views(packages@)),
    {
        let ghost all = artifact_views(packages@);
        let mut groups: Vec<ServiceGroup> = Vec::new();
        let mut i: usize = 0;
        assert(group_views(groups@) =~= grouped(all.take(0)));
        while i < packages.len()
            invariant
                i <= packages@.len(),
                all == artifact_views(packages@),
                group_views(groups@) == grouped(all.take(i as int)),
            decreases packages@.len() - i,
        {
            let ghost before = group_views(groups@);
            let ghost a = all[i as int];
            proof {
                let upto = all.take(i + 1);
                assert(upto.drop_last() == all.take(i as int));
                assert(upto.last() == a);
            }
            let name = package_name(packages[i].0.as_str());
            let service = self.base.deb_manager.get_service_type(name.as_str());
            let mut g: usize = 0;
            while g < groups.len() && !groups[g].service.same_as(&service)
                invariant
                    g <= groups@.len(),
                    before == group_views(groups@),
                    forall|j: int| 0 <= j < g ==> before[j].service != service@,
                decreases groups@.len() - g,
            {
                g += 1;
            }
            proof {
                if g < groups@.len() {
                    assert(before[g as int].service == service@);
                }
                lemma_group_position(before, service@, g as int);
            }
            if g < groups.len() {
                let mut group = groups.remove(g);
                group.packages.push(copy_package(&packages[i]));
                assert(group@.packages =~= before[g as int].packages.push(a));
                groups.insert(g, group);
                assert(group_views(groups@) =~= with_artifact(before, a));
            } else {
                let mut members: Vec<(String, String)> = Vec::new();
                members.push(copy_package(&packages[i]));
                let group = ServiceGroup { service, packages: members };
                assert(group@.packages =~= seq![a]);
                groups.push(group);
                assert(group_views(groups@) =~= with_artifact(before, a));
            }
            i += 1;
        }
        assert(all.take(all.len() as int) == all);
        groups
    }

    /// The groups to update out of `packages`: the updates among them, by
    /// service.
    pub fn update_package(
        &self,
        packages: &Vec<(String, String)>,
        installed: &Vec<InstalledPackage>,
    ) -> (r: Vec<ServiceGroup>)
        ensures
            group_views(r@) == grouped(
                artifact_views(packages@).filter(
                    eligible(installed@, self.gateway_enabled(), self.media_enabled()),
                ),
            ),
    {
        let updates = self.check_updates(packages, installed);
        self.group_by_service(&updates)
    }

    /// Writes the versions that the release offers to the health registry,
    /// each for the service of its package.
    pub fn set_latest_version(
        &self,
        services: &mut Services,
        packages: &Vec<(String, String)>,
        now: u64,
    )
        requires
            old(services).wf(),
        ensures
            final(services).wf(),
            final(services)@ == announced(old(services)@, artifact_views(packages@), now),
    {
        let ghost all = artifact_views(packages@);
        let mut i: usize = 0;
        while i < packages.len()
            invariant
                i <= packages@.len(),
                all == artifact_views(packages@),
                services.wf(),
                services@ == announced(old(services)@, all.take(i as int), now),
            decreases packages@.len() - i,
        {
            proof {
                let upto = all.take(i + 1);
                assert(upto.drop_last() == all.take(i as int));
                assert(upto.last() == all[i as int]);
            }
            let filename = packages[i].0.as_str();
            match self.base.deb_manager.extract_package_version(filename) {
                Some(version) => {
                    let name = package_name(filename);
                    let service = self.base.deb_manager.get_service_type(name.as_str());
                    let key = service.registry_name();
                    services.record_latest_available(key.as_str(), version.as_str(), now);
                },
                None => {},
            }
            i += 1;
        }
        assert(all.take(all.len() as int) == all);
    }

    /// What a cycle does with the artifacts of the latest release. Under the
    /// automatic strategy it makes the versions known and updates the groups
    /// of eligible artifacts; under the manual strategy it makes the versions
    /// known and installs nothing; where updates are disabled it does
    /// neither.
    pub fn check_and_apply_updates(
        &self,
        all_packages: &Vec<(String, String)>,
        installed: &Vec<InstalledPackage>,
    ) -> (r: CyclePlan)
        ensures
            r.report == (self.base().strategy != UpgradeStrategy::Disabled),
            group_views(r.groups@) == (if self.base().strategy == UpgradeStrategy::Auto {
                grouped(
                    artifact_views(all_packages@).filter(
                        eligible(installed@, self.gateway_enabled(), self.media_enabled()),
                    ),
                )
            } else {
                Seq::<GroupView>::empty()
            }),
    {
        match self.base.strategy {
            UpgradeStrategy::Auto => CyclePlan {
                report: true,
                groups: self.update_package(all_packages, installed),
            },
            UpgradeStrategy::Manual => {
                let groups: Vec<ServiceGroup> = Vec::new();
                assert(group_views(groups@) =~= Seq::<GroupView>::empty());
                CyclePlan { report: true, groups }
            },
            UpgradeStrategy::Disabled => {
                let groups: Vec<ServiceGroup> = Vec::new();
                assert(group_views(groups@) =~= Seq::<GroupView>::empty());
                CyclePlan { report: false, groups }
            },
        }
    }

    /// The groups to update when an operator asks for the update of
    /// `service`: out of the artifacts whose file name holds `service`, the
    /// updates by service. An error where the release holds no artifact of
    /// that name. The strategy plays no part.
    pub fn manual_update(
        &self,
        service: &str,
        all_packages: &Vec<(String, String)>,
        installed: &Vec<InstalledPackage>,
    ) -> (r: Result<Vec<ServiceGroup>, UpdateError>)
        ensures
            r is Err == (artifact_views(all_packages@).filter(names_service(service@)).len() == 0),
            r matches Err(e) ==> e == UpdateError::NoUpdatesFound,
            r matches Ok(groups) ==> group_views(groups@) == grouped(
                artifact_views(all_packages@).filter(names_service(service@)).filter(
                    eligible(installed@, self.gateway_enabled(), self.media_enabled()),
                ),
            ),
    {
        let ghost keep = names_service(service@);
        let ghost all = artifact_views(all_packages@);
        let mut named: Vec<(String, String)> = Vec::new();
        let mut i: usize = 0;
        proof {
            assert(all.take(0) =~= Seq::<ArtifactView>::empty());
            all.take(0).lemma_filter_len(keep);
            assert(artifact_views(named@) =~= all.take(0).filter(keep));
        }
        while i < all_packages.len()
            invariant
                i <= all_packages@.len(),
                all == artifact_views(all_packages@),
                keep == names_service(service@),
                artifact_views(named@) == all.take(i as int).filter(keep),
            decreases all_packages@.len() - i,
        {
            proof {
                assert(all.take(i + 1) =~= all.take(i as int).push(all[i as int]));
                all.take(i as int).lemma_filter_push(all[i as int], keep);
            }
            if contains(all_packages[i].0.as_str(), service) {
                let ghost before = artifact_views(named@);
                named.push(copy_package(&all_packages[i]));
                assert(artifact_views(named@) =~= before.push(all[i as int]));
            }
            i += 1;
        }
        assert(all.take(all.len() as int) == all);
        if named.len() == 0 {
            return Err(UpdateError::NoUpdatesFound);
        }
        Ok(self.update_package(&named, installed))
    }

    /// The updates in words, for the log: for each update whose package is
    /// installed, the package, its installed version and the version on
    /// offer.
    pub fn describe_updates(
        &self,
        updates: &Vec<(String, String)>,
        installed: &Vec<InstalledPackage>,
    ) -> (r: String)
        ensures
            r@ == update_summary(artifact_views(updates@), installed@),
    {
        let ghost all = artifact_views(updates@);
        let mut out = String::new();
        let mut i: usize = 0;
        assert(all.take(0) =~= Seq::<ArtifactView>::empty());
        while i < updates.len()
            invariant
                i <= updates@.len(),
                all == artifact_views(updates@),
                out@ == update_summary(all.take(i as int), installed@),
            decreases updates@.len() - i,
        {
            proof {
                let upto = all.take(i + 1);
                assert(upto.drop_last() == all.take(i as int));
                assert(upto.last() == all[i as int]);
            }
            let filename = updates[i].0.as_str();
            let name = package_name(filename);
            match self.base.deb_manager.extract_package_version(filename) {
                Some(new_version) => match lookup_installed(installed, name.as_str()) {
                    Some(current) => {
                        let line = name.concat(": ").concat(current).concat(" -> ").concat(
                            new_version.as_str(),
                        );
                        if out.as_str().is_empty() {
                            out = line;
                        } else {
                            out = out.concat(", ").concat(line.as_str());
                        }
                    },
                    None => {},
                },
                None => {},
            }
            i += 1;
        }
        assert(all.take(all.len() as int) == all);
        out
    }

    /// Sets the control loop going. Returns whether there is a loop to run:
    /// not where updates are disabled.
    pub fn start(&mut self) -> (r: bool)
        ensures
            final(self).is_running(),
            final(self).base() == old(self).base(),
            final(self).gateway_enabled() == old(self).gateway_enabled(),
            final(self).media_enabled() == old(self).media_enabled(),
            r == (old(self).base().strategy != UpgradeStrategy::Disabled),
    {
        self.running = true;
        self.resolves()
    }

    /// Tells the control loop to end. It does so at its next tick; a cycle
    /// that is under way is not interrupted.
    pub fn stop(&mut self)
        ensures
            !final(self).is_running(),
            final(self).base() == old(self).base(),
            final(self).gateway_enabled() == old(self).gateway_enabled(),
            final(self).media_enabled() == old(self).media_enabled(),
    {
        self.running = false;
    }

    /// What the control loop does when its timer fires. It ends once it has
    /// been told to stop; it lets a tick pass while the previous cycle is
    /// still `in_flight`; else it runs the cycle of its strategy.
    pub fn on_tick(&self, in_flight: bool) -> (r: TickAction)
        ensures
            r == tick_action(self.base().strategy, self.is_running(), in_flight),
    {
        if !self.running {
            return TickAction::Exit;
        }
        match self.base.strategy {
            UpgradeStrategy::Disabled => TickAction::Exit,
            UpgradeStrategy::Auto => if in_flight {
                TickAction::Skip
            } else {
                TickAction::CheckAndApply
            },
            UpgradeStrategy::Manual => if in_flight {
                TickAction::Skip
            } else {
                TickAction::CheckOnly
            },
        }
    }
}

} // verus!
