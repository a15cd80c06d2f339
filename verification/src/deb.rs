//! The package installer: what to back up, fetch, rename and delete in the
//! working directory, which artifact to fall back to, and the commands for
//! the host's package and service managers.
//!
//! Nothing here touches the disk or starts a process. Each method takes what
//! the host reported (the directory listing, a command's outcome) and hands
//! back what is to be done next.

use vstd::prelude::*;
use vstd::string::*;
use crate::artifact::{
    backup_filename, backup_name, installed_filename, installed_name, package_name, package_of,
    service_of, unit_name, version_of, ServiceKind, ServiceType,
};
use crate::recency::{newest_first, sorted_package_files};
use crate::text::{
    ends_with, field, opt_str, opt_text, same_text, starts_with, trim, trimmed,
};
use crate::workdir::{has_file, op_views, renamed, FileOp, FileOpView, FileView, WorkDir};

verus! {

/// A command for the host: the program and its arguments.
#[derive(Debug, Clone, PartialEq, Eq)]
pub struct HostCommand {
    pub program: String,
    pub args: Vec<String>,
}

/// Mathematical value of a [`HostCommand`].
pub struct CommandView {
    pub program: Seq<char>,
    pub args: Seq<Seq<char>>,
}

impl View for HostCommand {
    type V = CommandView;

    open spec fn view(&self) -> CommandView {
        CommandView {
            program: self.program@,
            args: Seq::new(self.args@.len(), |i: int| self.args@[i]@),
        }
    }
}

/// How a command for the host went.
#[derive(Debug, Clone, PartialEq, Eq)]
pub enum CommandOutcome {
    /// The program ran; `success` says how it exited, `output` is what it
    /// printed.
    Exited { success: bool, output: String },
    /// There is no such program on the host.
    Missing,
    /// The program could not be run, or what it printed is no text.
    Failed,
}

/// Mathematical value of a [`CommandOutcome`].
pub enum OutcomeView {
    Exited { success: bool, output: Seq<char> },
    Missing,
    Failed,
}

impl View for CommandOutcome {
    type V = OutcomeView;

    open spec fn view(&self) -> OutcomeView {
        match self {
            CommandOutcome::Exited { success, output } => OutcomeView::Exited {
                success: *success,
                output: output@,
            },
            CommandOutcome::Missing => OutcomeView::Missing,
            CommandOutcome::Failed => OutcomeView::Failed,
        }
    }
}

/// What the installer refuses.
#[derive(Debug, Clone, Copy, PartialEq, Eq, Structural)]
pub enum DebError {
    /// The file name does not carry a version.
    InvalidFilename,
    /// The package manager does not know the package.
    PackageNotFound,
    /// The host has no package manager of this kind.
    ToolMissing,
    /// The package manager could not be asked.
    CommandFailed,
    /// The working directory holds no snapshot of that version.
    BackupNotFound,
    /// The package manager refused the snapshot.
    RollbackFailed,
}

/// Starting or stopping a service.
#[derive(Debug, Clone, Copy, PartialEq, Eq, Structural)]
pub enum ServiceAction {
    Stop,
    Start,
}

/// The package installer for one working directory.
#[derive(Debug)]
pub struct DebManager {
    work_dir: String,
}

/// The command that asks the package manager for the installed version of
/// `package`.
pub open spec fn version_query(package: Seq<char>) -> CommandView {
    CommandView { program: "dpkg-query"@, args: seq!["-W"@, "-f=${Version}"@, package] }
}

/// The command that asks the package manager whether `package` is installed.
pub open spec fn presence_query(package: Seq<char>) -> CommandView {
    CommandView { program: "dpkg"@, args: seq!["-l"@, package] }
}

/// The command that installs the artifact at `path`.
pub open spec fn install_invocation(path: Seq<char>) -> CommandView {
    CommandView { program: "sudo"@, args: seq!["dpkg"@, "-i"@, path] }
}

/// The command that stops or starts `service`.
pub open spec fn service_invocation(action: ServiceAction, service: ServiceKind) -> CommandView {
    CommandView {
        program: "sudo"@,
        args: seq![
            "systemctl"@,
            match action {
                ServiceAction::Stop => "stop"@,
                ServiceAction::Start => "start"@,
            },
            unit_name(service),
        ],
    }
}

/// What a version query says: the output without surrounding white space
/// where the query exited with success.
pub open spec fn version_reply(outcome: OutcomeView) -> Result<Seq<char>, DebError> {
    match outcome {
        OutcomeView::Exited { success, output } => if success {
            Ok(trimmed(output))
        } else {
            Err(DebError::PackageNotFound)
        },
        OutcomeView::Missing => Err(DebError::ToolMissing),
        OutcomeView::Failed => Err(DebError::CommandFailed),
    }
}

/// What a presence query says: whether it exited with success. On a host
/// without the package manager nothing is installed.
pub open spec fn presence_reply(outcome: OutcomeView) -> Result<bool, DebError> {
    match outcome {
        OutcomeView::Exited { success, output } => Ok(success),
        OutcomeView::Missing => Ok(false),
        OutcomeView::Failed => Err(DebError::CommandFailed),
    }
}

/// A file of this name is one that installing `package` leaves alone: it
/// belongs to another package, which is to say that its name carries
/// another package name, or it marks an installed artifact.
pub open spec fn survives_install(name: Seq<char>, package: Seq<char>) -> bool {
    package_of(name) != package || "_installed.deb"@.is_suffix_of(name)
}

/// The deletions, in directory order, of every file of `package` that does
/// not mark an installed artifact.
pub open spec fn purge_ops(dir: Seq<FileView>, package: Seq<char>) -> Seq<FileOpView>
    decreases dir.len(),
{
    if dir.len() == 0 {
        Seq::empty()
    } else if survives_install(dir.last().name, package) {
        purge_ops(dir.drop_last(), package)
    } else {
        purge_ops(dir.drop_last(), package).push(FileOpView::Remove { name: dir.last().name })
    }
}

/// The deletions of the files at the places `places` of `dir`, in order.
pub open spec fn removals(dir: Seq<FileView>, places: Seq<usize>) -> Seq<FileOpView> {
    Seq::new(places.len(), |i: int| FileOpView::Remove { name: dir[places[i] as int].name })
}

/// What stands in `order` after its first `keep` places.
pub open spec fn beyond(order: Seq<usize>, keep: usize) -> Seq<usize> {
    if keep >= order.len() {
        Seq::empty()
    } else {
        order.skip(keep as int)
    }
}

/// The most recently modified file of `package` that ends in `suffix`, where
/// there is one. Among equally recent files it is the first of the directory.
pub open spec fn newest_file(
    dir: Seq<FileView>,
    package: Seq<char>,
    suffix: Seq<char>,
    found: Option<Seq<char>>,
) -> bool {
    exists|order: Seq<usize>| #[trigger]
        newest_first(dir, package, suffix, order) && found == (if order.len() > 0 {
            Some(dir[order[0] as int].name)
        } else {
            None
        })
}

/// The steps of a download: first the snapshot of the installed artifact,
/// where the package is installed and the directory holds its artifact, then
/// the fetch of the new one.
pub open spec fn download_steps(
    url: Seq<char>,
    filename: Seq<char>,
    installed_version: Option<Seq<char>>,
    current: Option<Seq<char>>,
) -> Seq<FileOpView> {
    let fetch = FileOpView::Fetch { url, to: filename };
    match (installed_version, current) {
        (Some(version), Some(from)) => seq![
            FileOpView::Copy { from, to: backup_name(package_of(filename), version) },
            fetch,
        ],
        _ => seq![fetch],
    }
}

/// The bookkeeping after the artifact `filename` has been installed: it gets
/// its installed name, then every other file of its package that does not
/// mark an installed artifact is deleted.
pub open spec fn install_steps(dir: Seq<FileView>, filename: Seq<char>) -> Seq<FileOpView> {
    let marker = installed_name(filename).unwrap();
    seq![FileOpView::Rename { from: filename, to: marker }] + purge_ops(
        renamed(dir, filename, marker),
        package_of(filename),
    )
}

/// How going back to a snapshot ended, by what the package manager said to
/// it.
pub open spec fn rollback_reply(outcome: OutcomeView) -> Result<(), DebError> {
    match outcome {
        OutcomeView::Exited { success, output } => if success {
            Ok(())
        } else {
            Err(DebError::RollbackFailed)
        },
        _ => Err(DebError::CommandFailed),
    }
}

/// What follows the attempt to install the artifact `filename`. Where the
/// package manager refused the artifact there is nothing to do, whatever
/// the file is called. Where it accepted the artifact the bookkeeping
/// follows, and it is an error where the file name carries no version, for
/// then the artifact has no installed name. It is an error, too, where the
/// package manager could not be run.
pub open spec fn install_reply(dir: Seq<FileView>, filename: Seq<char>, outcome: OutcomeView)
    -> Result<Option<Seq<FileOpView>>, DebError> {
    match outcome {
        OutcomeView::Exited { success, output } => if !success {
            Ok(None)
        } else if installed_name(filename) is None {
            Err(DebError::InvalidFilename)
        } else {
            Ok(Some(install_steps(dir, filename)))
        },
        _ => Err(DebError::CommandFailed),
    }
}

impl DebManager {
    /// An installer for the working directory at `work_dir`.
    pub fn new(work_dir: String) -> (r: DebManager)
        ensures
            r.work_dir()@ == work_dir@,
    {
        DebManager { work_dir }
    }

    /// Where the working directory is.
    pub closed spec fn work_dir(&self) -> String {
        self.work_dir
    }

    /// Where the working directory is.
    pub fn get_work_dir(&self) -> (r: &String)
        ensures
            r@ == self.work_dir()@,
    {
        &self.work_dir
    }

    /// The unit name of a service.
    pub fn get_service_name(&self, service_type: &ServiceType) -> (r: String)
        ensures
            r@ == unit_name(service_type@),
    {
        match service_type {
            ServiceType::Gateway => String::from_str("luffy-gateway"),
            ServiceType::Media => String::from_str("luffy-media"),
            ServiceType::Launcher => String::from_str("luffy-launcher"),
            ServiceType::Other(name) => name.clone(),
        }
    }

    /// The service that a package belongs to, by the prefix of its name.
    pub fn get_service_type(&self, package_name: &str) -> (r: ServiceType)
        ensures
            r@ == service_of(package_name@),
    {
        if starts_with(package_name, "luffy-gateway") {
            ServiceType::Gateway
        } else if starts_with(package_name, "luffy-media") {
            ServiceType::Media
        } else if starts_with(package_name, "luffy-launcher") {
            ServiceType::Launcher
        } else {
            ServiceType::Other(String::from_str(package_name))
        }
    }

    /// The version that a file name carries.
    pub fn extract_package_version(&self, filename: &str) -> (r: Option<String>)
        ensures
            r is Some == version_of(filename@) is Some,
            r matches Some(v) ==> version_of(filename@) == Some(v@),
    {
        field(filename, '_', 1)
    }

    /// The command that asks for the installed version of a package.
    pub fn get_installed_version(&self, package_name: &str) -> (r: HostCommand)
        ensures
            r@ == version_query(package_name@),
    {
        let mut args: Vec<String> = Vec::new();
        args.push(String::from_str("-W"));
        args.push(String::from_str("-f=${Version}"));
        args.push(String::from_str(package_name));
        let r = HostCommand { program: String::from_str("dpkg-query"), args };
        assert(r@.args =~= version_query(package_name@).args);
        r
    }

    /// Reads the answer to a version query: the output without surrounding
    /// white space, or why there is none.
    pub fn get_package_version(&self, outcome: &CommandOutcome) -> (r: Result<String, DebError>)
        ensures
            r is Ok == version_reply(outcome@) is Ok,
            r matches Ok(v) ==> version_reply(outcome@) == Ok::<Seq<char>, DebError>(v@),
            r matches Err(e) ==> version_reply(outcome@) == Err::<Seq<char>, DebError>(e),
    {
        match outcome {
            CommandOutcome::Exited { success, output } => if *success {
                Ok(trim(output.as_str()))
            } else {
                Err(DebError::PackageNotFound)
            },
            CommandOutcome::Missing => Err(DebError::ToolMissing),
            CommandOutcome::Failed => Err(DebError::CommandFailed),
        }
    }

    /// Reads the answer to a presence query.
    pub fn package_installed(&self, outcome: &CommandOutcome) -> (r: Result<bool, DebError>)
        ensures
            r == presence_reply(outcome@),
    {
        match outcome {
            CommandOutcome::Exited { success, output } => Ok(*success),
            CommandOutcome::Missing => Ok(false),
            CommandOutcome::Failed => Err(DebError::CommandFailed),
        }
    }

    /// The command that asks whether a package is installed.
    pub fn is_package_installed(&self, package_name: &str) -> (r: HostCommand)
        ensures
            r@ == presence_query(package_name@),
    {
        let mut args: Vec<String> = Vec::new();
        args.push(String::from_str("-l"));
        args.push(String::from_str(package_name));
        let r = HostCommand { program: String::from_str("dpkg"), args };
        assert(r@.args =~= presence_query(package_name@).args);
        r
    }

    /// The command that installs the artifact at `path`.
    pub fn install_command(&self, path: &str) -> (r: HostCommand)
        ensures
            r@ == install_invocation(path@),
    {
        let mut args: Vec<String> = Vec::new();
        args.push(String::from_str("dpkg"));
        args.push(String::from_str("-i"));
        args.push(String::from_str(path));
        let r = HostCommand { program: String::from_str("sudo"), args };
        assert(r@.args =~= install_invocation(path@).args);
        r
    }

    /// The command that stops or starts a service.
    pub fn service_command(&self, action: ServiceAction, service_type: &ServiceType) -> (r:
        HostCommand)
        ensures
            r@ == service_invocation(action, service_type@),
    {
        let mut args: Vec<String> = Vec::new();
        args.push(String::from_str("systemctl"));
        args.push(
            match action {
                ServiceAction::Stop => String::from_str("stop"),
                ServiceAction::Start => String::from_str("start"),
            },
        );
        args.push(self.get_service_name(service_type));
        let r = HostCommand { program: String::from_str("sudo"), args };
        assert(r@.args =~= service_invocation(action, service_type@).args);
        r
    }

    /// The command that stops a service. Services are managed on Linux hosts
    /// only: elsewhere there is nothing to run.
    pub fn stop_service(&self, service_type: &ServiceType, on_linux: bool) -> (r: Option<
        HostCommand,
    >)
        ensures
            r is Some == on_linux,
            r matches Some(command) ==> command@ == service_invocation(
                ServiceAction::Stop,
                service_type@,
            ),
    {
        if on_linux {
            Some(self.service_command(ServiceAction::Stop, service_type))
        } else {
            None
        }
    }

    /// The command that starts a service. Services are managed on Linux
    /// hosts only: elsewhere there is nothing to run.
    pub fn start_service(&self, service_type: &ServiceType, on_linux: bool) -> (r: Option<
        HostCommand,
    >)
        ensures
            r is Some == on_linux,
            r matches Some(command) ==> command@ == service_invocation(
                ServiceAction::Start,
                service_type@,
            ),
    {
        if on_linux {
            Some(self.service_command(ServiceAction::Start, service_type))
        } else {
            None
        }
    }

    /// The places of the files of `package_name` that end in `suffix`, most
    /// recently modified first.
    pub fn get_sorted_package_files(&self, dir: &WorkDir, package_name: &str, suffix: &str) -> (r:
        Vec<usize>)
        ensures
            newest_first(dir@, package_name@, suffix@, r@),
    {
        sorted_package_files(dir, package_name, suffix)
    }

    /// The most recent file of `package_name` that ends in `suffix`.
    fn newest(&self, dir: &WorkDir, package_name: &str, suffix: &str) -> (r: Option<String>)
        ensures
            newest_file(
                dir@,
                package_name@,
                suffix@,
                opt_text(r),
            ),
    {
        let order = sorted_package_files(dir, package_name, suffix);
        if order.len() > 0 {
            Some(dir.entry(order[0]).name.clone())
        } else {
            None
        }
    }

    /// The artifact that marks the last successful install of a package: the
    /// most recently modified `*_installed.deb` of the package.
    pub fn find_last_installed(&self, dir: &WorkDir, package_name: &str) -> (r: Option<String>)
        ensures
            newest_file(
                dir@,
                package_name@,
                "_installed.deb"@,
                opt_text(r),
            ),
            r matches Some(name) ==> has_file(dir@, name@),
    {
        let r = self.newest(dir, package_name, "_installed.deb");
        proof {
            if r is Some {
                let order = choose|order: Seq<usize>| #[trigger]
                    newest_first(dir@, package_name@, "_installed.deb"@, order) && opt_text(r)
                        == (if order.len() > 0 {
                        Some(dir@[order[0] as int].name)
                    } else {
                        None
                    });
                assert(dir@[order[0] as int].name == r->0@);
            }
        }
        r
    }

    /// The artifact of the installed package, from which its snapshot is
    /// taken.
    pub fn find_current_deb(&self, dir: &WorkDir, package_name: &str) -> (r: Option<String>)
        ensures
            newest_file(
                dir@,
                package_name@,
                "_installed.deb"@,
                opt_text(r),
            ),
            r matches Some(name) ==> has_file(dir@, name@),
    {
        self.find_last_installed(dir, package_name)
    }

    /// The artifact to reinstall when an update of `package_name` has
    /// failed; `None` where there is nothing to go back to.
    pub fn install_from_last_installed(&self, dir: &WorkDir, package_name: &str) -> (r: Option<
        String,
    >)
        ensures
            newest_file(
                dir@,
                package_name@,
                "_installed.deb"@,
                opt_text(r),
            ),
            r matches Some(name) ==> has_file(dir@, name@),
    {
        self.find_last_installed(dir, package_name)
    }

    /// The steps that bring the artifact `filename` from `url` into the
    /// working directory. Where the package is installed, at
    /// `installed_version`, and the directory holds its artifact, the first
    /// step copies that artifact to the snapshot's name; the fetch comes
    /// last.
    pub fn download_deb(
        &self,
        dir: &WorkDir,
        url: &str,
        filename: &str,
        installed_version: Option<&str>,
    ) -> (ops: Vec<FileOp>)
        ensures
            exists|current: Option<Seq<char>>| #[trigger]
                newest_file(dir@, package_of(filename@), "_installed.deb"@, current) && op_views(
                    ops@,
                ) == download_steps(
                    url@,
                    filename@,
                    opt_str(installed_version),
                    current,
                ),
            ops@.len() >= 1,
            ops@.last()@ == (FileOpView::Fetch { url: url@, to: filename@ }),
    {
        let package = package_name(filename);
        let current = self.find_current_deb(dir, package.as_str());
        let ghost current_view = opt_text(current);
        let ghost version_view = opt_str(installed_version);
        let mut ops: Vec<FileOp> = Vec::new();
        if let Some(version) = installed_version {
            if let Some(from) = current {
                let to = backup_filename(package.as_str(), version);
                ops.push(FileOp::Copy { from, to });
            }
        }
        ops.push(FileOp::Fetch { url: String::from_str(url), to: String::from_str(filename) });
        proof {
            assert(op_views(ops@) =~= download_steps(
                url@,
                filename@,
                version_view,
                current_view,
            ));
            assert(newest_file(dir@, package_of(filename@), "_installed.deb"@, current_view));
        }
        ops
    }

    /// The renaming that marks the artifact `filename` as installed.
    pub fn mark_as_installed(&self, filename: &str) -> (r: Result<FileOp, DebError>)
        ensures
            r is Ok == installed_name(filename@) is Some,
            r matches Ok(op) ==> op@ == (FileOpView::Rename {
                from: filename@,
                to: installed_name(filename@).unwrap(),
            }),
            r matches Err(e) ==> e == DebError::InvalidFilename,
    {
        match installed_filename(filename) {
            Some(to) => Ok(FileOp::Rename { from: String::from_str(filename), to }),
            None => Err(DebError::InvalidFilename),
        }
    }

    /// Adds to `ops` the deletions of every file of `package_name` that does
    /// not mark an installed artifact.
    fn purge_into(&self, dir: &WorkDir, package_name: &str, ops: &mut Vec<FileOp>)
        ensures
            op_views(final(ops)@) == op_views(old(ops)@) + purge_ops(dir@, package_name@),
    {
        let mut i: usize = 0;
        assert(op_views(ops@) =~= op_views(old(ops)@) + purge_ops(dir@.take(0), package_name@));
        while i < dir.len()
            invariant
                i <= dir@.len(),
                op_views(ops@) == op_views(old(ops)@) + purge_ops(
                    dir@.take(i as int),
                    package_name@,
                ),
            decreases dir@.len() - i,
        {
            let name = dir.entry(i).name.as_str();
            proof {
                let upto = dir@.take(i + 1);
                assert(upto.drop_last() == dir@.take(i as int));
                assert(upto.last() == dir@[i as int]);
            }
            let owner = crate::artifact::package_name(name);
            if same_text(owner.as_str(), package_name) && !ends_with(name, "_installed.deb") {
                let ghost before = op_views(ops@);
                ops.push(FileOp::Remove { name: String::from_str(name) });
                assert(op_views(ops@) =~= before.push(
                    FileOpView::Remove { name: dir@[i as int].name },
                ));
                assert(op_views(ops@) =~= op_views(old(ops)@) + purge_ops(
                    dir@.take(i + 1),
                    package_name@,
                ));
            }
            i += 1;
        }
        assert(dir@.take(dir@.len() as int) == dir@);
    }

    /// The deletions of every file of `package_name` that does not mark an
    /// installed artifact.
    pub fn cleanup_package_files(&self, dir: &WorkDir, package_name: &str) -> (ops: Vec<FileOp>)
        ensures
            op_views(ops@) == purge_ops(dir@, package_name@),
    {
        let mut ops: Vec<FileOp> = Vec::new();
        self.purge_into(dir, package_name, &mut ops);
        assert(op_views(ops@) =~= purge_ops(dir@, package_name@));
        ops
    }

    /// The deletions that keep only the `keep_count` most recently modified
    /// `.deb` files of `package_name`.
    pub fn cleanup_old_files(&self, dir: &WorkDir, package_name: &str, keep_count: usize) -> (ops:
        Vec<FileOp>)
        ensures
            exists|order: Seq<usize>| #[trigger]
                newest_first(dir@, package_name@, ".deb"@, order) && op_views(ops@) == removals(
                    dir@,
                    beyond(order, keep_count),
                ),
    {
        let order = sorted_package_files(dir, package_name, ".deb");
        let mut ops: Vec<FileOp> = Vec::new();
        if keep_count >= order.len() {
            assert(op_views(ops@) =~= removals(dir@, beyond(order@, keep_count)));
            return ops;
        }
        let mut i: usize = keep_count;
        while i < order.len()
            invariant
                keep_count <= i <= order@.len(),
                newest_first(dir@, package_name@, ".deb"@, order@),
                ops@.len() == i - keep_count,
                forall|k: int|
                    0 <= k < ops@.len() ==> (#[trigger] ops@[k])@ == (FileOpView::Remove {
                        name: dir@[order@[keep_count + k] as int].name,
                    }),
            decreases order@.len() - i,
        {
            let place = order[i];
            ops.push(FileOp::Remove { name: dir.entry(place).name.clone() });
            i += 1;
        }
        assert(op_views(ops@) =~= removals(dir@, beyond(order@, keep_count)));
        ops
    }

    /// What follows the package manager's attempt to install the artifact
    /// `filename`. Where the package manager refused the artifact there is
    /// nothing to do and the answer is `None`, whatever the file is called:
    /// a failed install is an outcome, not an error. Where it accepted the
    /// artifact the answer holds the bookkeeping: the artifact gets its
    /// installed name and the package's other files are deleted; it is an
    /// error where the file name carries no version. It is an error, too,
    /// where the package manager could not be run.
    pub fn install_package(&self, dir: &WorkDir, filename: &str, outcome: &CommandOutcome) -> (r:
        Result<Option<Vec<FileOp>>, DebError>)
        requires
            dir.wf(),
        ensures
            match install_reply(dir@, filename@, outcome@) {
                Ok(Some(steps)) => r matches Ok(Some(ops)) && op_views(ops@) == steps,
                Ok(None) => r == Ok::<Option<Vec<FileOp>>, DebError>(None),
                Err(e) => r == Err::<Option<Vec<FileOp>>, DebError>(e),
            },
    {
        match outcome {
            CommandOutcome::Exited { success, output } => {
                if !*success {
                    return Ok(None);
                }
            },
            _ => {
                return Err(DebError::CommandFailed);
            },
        }
        let rename = match self.mark_as_installed(filename) {
            Ok(op) => op,
            Err(e) => {
                return Err(e);
            },
        };
        let mut renamed = dir.duplicate();
        renamed.apply(&rename, 0);
        let package = package_name(filename);
        let mut ops: Vec<FileOp> = Vec::new();
        ops.push(rename);
        assert(op_views(ops@) =~= seq![
            FileOpView::Rename { from: filename@, to: installed_name(filename@).unwrap() },
        ]);
        self.purge_into(&renamed, package.as_str(), &mut ops);
        Ok(Some(ops))
    }

    /// The snapshot of `package_name` at `version` to go back to, where the
    /// working directory holds it.
    pub fn rollback_package(&self, dir: &WorkDir, package_name: &str, version: &str) -> (r:
        Result<String, DebError>)
        requires
            dir.wf(),
        ensures
            r is Ok == has_file(dir@, backup_name(package_name@, version@)),
            r matches Ok(name) ==> name@ == backup_name(package_name@, version@),
            r matches Err(e) ==> e == DebError::BackupNotFound,
    {
        let name = backup_filename(package_name, version);
        if dir.contains(name.as_str()) {
            Ok(name)
        } else {
            Err(DebError::BackupNotFound)
        }
    }

    /// How going back to a snapshot ended, by what the package manager said
    /// to it.
    pub fn rollback_result(&self, outcome: &CommandOutcome) -> (r: Result<(), DebError>)
        ensures
            r == rollback_reply(outcome@),
    {
        match outcome {
            CommandOutcome::Exited { success, output } => if *success {
                Ok(())
            } else {
                Err(DebError::RollbackFailed)
            },
            _ => Err(DebError::CommandFailed),
        }
    }

    /// Whether `new_version` is an update over the installed version of a
    /// package. Fails closed: `false` where the installed version is unknown
    /// or one of the two is no semantic version.
    pub fn needs_update(&self, installed_version: Option<&str>, new_version: &str) -> (r: bool)
        ensures
            r == crate::version::update_needed(
                opt_str(installed_version),
                new_version@,
            ),
            r ==> installed_version is Some && !crate::version::update_needed(
                Some(new_version@),
                installed_version.unwrap()@,
            ),
    {
        crate::version::needs_update(installed_version, new_version)
    }
}

/// How the launcher replaces itself.
#[derive(Debug, Clone, Copy, PartialEq, Eq, Structural)]
pub enum UpdateManager {
    /// Through the package manager; the package's scripts restart the
    /// service.
    Systemd,
    /// Not at all: a development build is left as it is.
    Debug,
}

impl UpdateManager {
    /// The way that fits the build.
    pub fn detect(debug_build: bool) -> (r: UpdateManager)
        ensures
            r == (if debug_build {
                UpdateManager::Debug
            } else {
                UpdateManager::Systemd
            }),
    {
        if debug_build {
            UpdateManager::Debug
        } else {
            UpdateManager::Systemd
        }
    }

    /// The command that installs the new version at `path`; none for a
    /// development build.
    pub fn update(&self, path: &str) -> (r: Option<HostCommand>)
        ensures
            r is Some == (*self == UpdateManager::Systemd),
            r matches Some(command) ==> command@ == install_invocation(path@),
    {
        match self {
            UpdateManager::Debug => None,
            UpdateManager::Systemd => {
                let mut args: Vec<String> = Vec::new();
                args.push(String::from_str("dpkg"));
                args.push(String::from_str("-i"));
                args.push(String::from_str(path));
                let r = HostCommand { program: String::from_str("sudo"), args };
                assert(r@.args =~= install_invocation(path@).args);
                Some(r)
            },
        }
    }
}

/// What the outcome of [`DebManager::install_package`] means for the
/// transaction that asked for the install.
pub fn install_result(outcome: &Result<Option<Vec<FileOp>>, DebError>) -> (r:
    crate::transaction::StepResult)
    ensures
        r == (match outcome {
            Ok(Some(_)) => crate::transaction::StepResult::Succeeded,
            Ok(None) => crate::transaction::StepResult::Failed,
            Err(_) => crate::transaction::StepResult::Error,
        }),
{
    match outcome {
        Ok(Some(_)) => crate::transaction::StepResult::Succeeded,
        Ok(None) => crate::transaction::StepResult::Failed,
        Err(_) => crate::transaction::StepResult::Error,
    }
}

} // verus!
