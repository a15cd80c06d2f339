use luffy_ota::deb::{CommandOutcome, DebError, DebManager};
use luffy_ota::workdir::{FileOp, WorkDir};

fn manager() -> DebManager {
    DebManager::new(String::from("/tmp/debs"))
}

fn exited(success: bool) -> CommandOutcome {
    CommandOutcome::Exited { success, output: String::new() }
}

fn names(dir: &WorkDir) -> Vec<String> {
    let mut out = Vec::new();
    for i in 0..dir.len() {
        out.push(dir.entry(i).name.clone());
    }
    out.sort();
    out
}

fn describe(op: &FileOp) -> String {
    match op {
        FileOp::Copy { from, to } => format!("copy {} {}", from, to),
        FileOp::Fetch { url, to } => format!("fetch {} {}", url, to),
        FileOp::Rename { from, to } => format!("rename {} {}", from, to),
        FileOp::Remove { name } => format!("remove {}", name),
    }
}

fn described(ops: &Vec<FileOp>) -> Vec<String> {
    ops.iter().map(describe).collect()
}

#[test]
fn workdir_write_remove_rename() {
    let mut dir = WorkDir::new();
    assert_eq!(dir.len(), 0);
    dir.record("a.deb", Some(10));
    dir.record("b.deb", None);
    dir.record("a.deb", Some(20));
    assert_eq!(dir.len(), 2);
    assert_eq!(dir.find("a.deb"), Some(0));
    assert_eq!(dir.find("b.deb"), Some(1));
    assert_eq!(dir.find("c.deb"), None);
    assert_eq!(dir.modified("a.deb"), Some(Some(20)));
    assert_eq!(dir.modified("b.deb"), Some(None));
    assert_eq!(dir.modified("c.deb"), None);
    assert!(dir.contains("b.deb"));
    assert!(dir.remove("b.deb"));
    assert!(!dir.remove("b.deb"));
    assert!(!dir.contains("b.deb"));
    let rename = FileOp::Rename { from: String::from("a.deb"), to: String::from("z.deb") };
    assert!(dir.apply(&rename, 99));
    assert_eq!(names(&dir), vec!["z.deb"]);
    assert_eq!(dir.modified("z.deb"), Some(Some(20)));
    assert!(!dir.apply(&rename, 99));
    assert_eq!(names(&dir), vec!["z.deb"]);
}

#[test]
fn workdir_copy_and_fetch_stamp_the_time() {
    let mut dir = WorkDir::new();
    dir.record("a.deb", Some(10));
    let copy = FileOp::Copy { from: String::from("a.deb"), to: String::from("b.deb") };
    assert!(dir.apply(&copy, 50));
    assert_eq!(dir.modified("b.deb"), Some(Some(50)));
    assert_eq!(dir.modified("a.deb"), Some(Some(10)));
    let missing = FileOp::Copy { from: String::from("x.deb"), to: String::from("y.deb") };
    assert!(!dir.apply(&missing, 50));
    assert!(!dir.contains("y.deb"));
    let fetch = FileOp::Fetch { url: String::from("http://h/a.deb"), to: String::from("a.deb") };
    assert!(dir.apply(&fetch, 60));
    assert_eq!(dir.modified("a.deb"), Some(Some(60)));
    assert_eq!(dir.len(), 2);
    let copy_of = dir.duplicate();
    assert_eq!(names(&copy_of), names(&dir));
}

#[test]
fn rename_replaces_a_file_of_the_new_name() {
    let mut dir = WorkDir::new();
    dir.record("a.deb", Some(10));
    dir.record("b.deb", Some(20));
    let rename = FileOp::Rename { from: String::from("a.deb"), to: String::from("b.deb") };
    assert!(dir.apply(&rename, 99));
    assert_eq!(names(&dir), vec!["b.deb"]);
    assert_eq!(dir.modified("b.deb"), Some(Some(10)));
}

#[test]
fn sorted_files_are_most_recent_first() {
    let deb = manager();
    let mut dir = WorkDir::new();
    dir.record("pkg_1.0.0_installed.deb", Some(100));
    dir.record("other_9.9.9_installed.deb", Some(999));
    dir.record("pkg_1.1.0_installed.deb", Some(200));
    dir.record("pkg_1.2.0_arm64.deb", Some(300));
    dir.record("pkg_0.9.0_installed.deb", None);
    dir.record("pkg_1.0.5_installed.deb", Some(200));
    assert_eq!(deb.get_sorted_package_files(&dir, "pkg", "_installed.deb"), vec![2, 5, 0, 4]);
    assert_eq!(deb.get_sorted_package_files(&dir, "pkg", ".deb"), vec![3, 2, 5, 0, 4]);
    assert_eq!(deb.get_sorted_package_files(&dir, "nothing", ".deb"), Vec::<usize>::new());
}

#[test]
fn fallback_is_the_most_recent_marker() {
    let deb = manager();
    let mut dir = WorkDir::new();
    dir.record("pkg_1.0.0_installed.deb", Some(1_000));
    dir.record("pkg_1.1.0_installed.deb", Some(2_000));
    assert_eq!(
        deb.install_from_last_installed(&dir, "pkg"),
        Some(String::from("pkg_1.1.0_installed.deb"))
    );
    let mut reversed = WorkDir::new();
    reversed.record("pkg_1.1.0_installed.deb", Some(2_000));
    reversed.record("pkg_1.0.0_installed.deb", Some(1_000));
    assert_eq!(
        deb.find_last_installed(&reversed, "pkg"),
        Some(String::from("pkg_1.1.0_installed.deb"))
    );
}

#[test]
fn rollback_without_installed_artifact_finds_nothing() {
    let deb = manager();
    let mut dir = WorkDir::new();
    dir.record("pkg_1.2.0_arm64.deb", Some(10));
    dir.record("pkg_1.0.0_backup.deb", Some(5));
    dir.record("other_1.0.0_installed.deb", Some(7));
    assert_eq!(deb.install_from_last_installed(&dir, "pkg"), None);
    assert_eq!(deb.find_current_deb(&dir, "pkg"), None);
}

#[test]
fn download_snapshots_the_installed_artifact_first() {
    let deb = manager();
    let mut dir = WorkDir::new();
    dir.record("pkg_1.0.0_installed.deb", Some(100));
    let ops = deb.download_deb(&dir, "http://host/pkg_2.0.0_arm64.deb", "pkg_2.0.0_arm64.deb", Some("1.0.0"));
    assert_eq!(
        described(&ops),
        vec![
            "copy pkg_1.0.0_installed.deb pkg_1.0.0_backup.deb",
            "fetch http://host/pkg_2.0.0_arm64.deb pkg_2.0.0_arm64.deb",
        ]
    );
    assert!(dir.apply(&ops[0], 200));
    assert!(dir.contains("pkg_1.0.0_backup.deb"));
    assert!(!dir.contains("pkg_2.0.0_arm64.deb"));
    assert!(dir.apply(&ops[1], 201));
    assert!(dir.contains("pkg_2.0.0_arm64.deb"));
    assert!(dir.contains("pkg_1.0.0_backup.deb"));
    assert!(dir.contains("pkg_1.0.0_installed.deb"));
}

#[test]
fn download_without_installed_package_only_fetches() {
    let deb = manager();
    let mut dir = WorkDir::new();
    dir.record("pkg_1.0.0_installed.deb", Some(100));
    let ops = deb.download_deb(&dir, "u", "pkg_2.0.0_arm64.deb", None);
    assert_eq!(described(&ops), vec!["fetch u pkg_2.0.0_arm64.deb"]);
    let empty = WorkDir::new();
    let ops = deb.download_deb(&empty, "u", "pkg_2.0.0_arm64.deb", Some("1.0.0"));
    assert_eq!(described(&ops), vec!["fetch u pkg_2.0.0_arm64.deb"]);
}

#[test]
fn install_bookkeeping_leaves_one_marker() {
    let deb = manager();
    let mut dir = WorkDir::new();
    dir.record("pkg_1.0.0_installed.deb", Some(100));
    dir.record("pkg_1.0.0_backup.deb", Some(200));
    dir.record("pkg_2.0.0_arm64.deb", Some(201));
    dir.record("pkg_1.5.0_arm64.deb", Some(150));
    dir.record("other_3.0.0_arm64.deb", Some(50));
    let ops = deb.install_package(&dir, "pkg_2.0.0_arm64.deb", &exited(true)).unwrap().unwrap();
    assert_eq!(
        described(&ops),
        vec![
            "rename pkg_2.0.0_arm64.deb pkg_2.0.0_installed.deb",
            "remove pkg_1.0.0_backup.deb",
            "remove pkg_1.5.0_arm64.deb",
        ]
    );
    dir.apply_all(&ops, 300);
    assert_eq!(
        names(&dir),
        vec!["other_3.0.0_arm64.deb", "pkg_1.0.0_installed.deb", "pkg_2.0.0_installed.deb"]
    );
    assert_eq!(dir.modified("pkg_2.0.0_installed.deb"), Some(Some(201)));
}

#[test]
fn failed_install_is_an_outcome_not_an_error() {
    let deb = manager();
    let mut dir = WorkDir::new();
    dir.record("pkg_2.0.0_arm64.deb", Some(201));
    assert!(matches!(deb.install_package(&dir, "pkg_2.0.0_arm64.deb", &exited(false)), Ok(None)));
    assert!(matches!(deb.install_package(&dir, "foo.deb", &exited(false)), Ok(None)));
    assert!(matches!(deb.install_package(&dir, "", &exited(false)), Ok(None)));
    assert!(matches!(
        deb.install_package(&dir, "foo.deb", &exited(true)),
        Err(DebError::InvalidFilename)
    ));
    assert!(matches!(
        deb.install_package(&dir, "foo.deb", &CommandOutcome::Failed),
        Err(DebError::CommandFailed)
    ));
    assert_eq!(names(&dir), vec!["pkg_2.0.0_arm64.deb"]);
    assert!(matches!(
        deb.install_package(&dir, "pkg_2.0.0_arm64.deb", &CommandOutcome::Failed),
        Err(DebError::CommandFailed)
    ));
    assert!(matches!(
        deb.install_package(&dir, "pkg_2.0.0_arm64.deb", &CommandOutcome::Missing),
        Err(DebError::CommandFailed)
    ));
    assert!(matches!(deb.mark_as_installed("pkg.deb"), Err(DebError::InvalidFilename)));
}

#[test]
fn reinstalling_the_marker_keeps_it() {
    let deb = manager();
    let mut dir = WorkDir::new();
    dir.record("pkg_1.1.0_installed.deb", Some(100));
    dir.record("pkg_2.0.0_arm64.deb", Some(201));
    let ops = deb.install_package(&dir, "pkg_1.1.0_installed.deb", &exited(true)).unwrap().unwrap();
    dir.apply_all(&ops, 300);
    assert_eq!(names(&dir), vec!["pkg_1.1.0_installed.deb"]);
}

#[test]
fn cleanup_package_files_keeps_markers_and_other_packages() {
    let deb = manager();
    let mut dir = WorkDir::new();
    dir.record("pkg_1.0.0_installed.deb", Some(1));
    dir.record("pkg_1.0.0_backup.deb", Some(2));
    dir.record("pkgextra_1.0.0_arm64.deb", Some(3));
    dir.record("pkg-extra_1.0.0_backup.deb", Some(4));
    dir.record("other_1.0.0_arm64.deb", Some(5));
    dir.record("pkg", Some(6));
    let ops = deb.cleanup_package_files(&dir, "pkg");
    assert_eq!(described(&ops), vec!["remove pkg_1.0.0_backup.deb", "remove pkg"]);
}

#[test]
fn install_leaves_the_files_of_packages_with_longer_names() {
    let deb = manager();
    let mut dir = WorkDir::new();
    dir.record("pkg-extra_1.0.0_arm64.deb", Some(10));
    dir.record("pkg-extra_0.9.0_backup.deb", Some(5));
    dir.record("pkg_1.0.0_backup.deb", Some(20));
    dir.record("pkg_2.0.0_arm64.deb", Some(30));
    let ops = deb.install_package(&dir, "pkg_2.0.0_arm64.deb", &exited(true)).unwrap().unwrap();
    assert_eq!(
        described(&ops),
        vec!["rename pkg_2.0.0_arm64.deb pkg_2.0.0_installed.deb", "remove pkg_1.0.0_backup.deb"]
    );
    dir.apply_all(&ops, 40);
    assert_eq!(
        names(&dir),
        vec!["pkg-extra_0.9.0_backup.deb", "pkg-extra_1.0.0_arm64.deb", "pkg_2.0.0_installed.deb"]
    );
    assert_eq!(dir.modified("pkg-extra_1.0.0_arm64.deb"), Some(Some(10)));
    assert_eq!(dir.modified("pkg-extra_0.9.0_backup.deb"), Some(Some(5)));
}

#[test]
fn fallback_is_a_marker_of_the_very_package() {
    let deb = manager();
    let mut dir = WorkDir::new();
    dir.record("pkg_1.0.0_installed.deb", Some(1_000));
    dir.record("pkg_1.1.0_installed.deb", Some(2_000));
    dir.record("pkg-extra_9.9.9_installed.deb", Some(3_000));
    dir.record("pkgs_9.9.9_installed.deb", Some(4_000));
    assert_eq!(
        deb.install_from_last_installed(&dir, "pkg"),
        Some(String::from("pkg_1.1.0_installed.deb"))
    );
    assert_eq!(
        deb.install_from_last_installed(&dir, "pkg-extra"),
        Some(String::from("pkg-extra_9.9.9_installed.deb"))
    );
    assert_eq!(deb.get_sorted_package_files(&dir, "pkg", "_installed.deb"), vec![1, 0]);
}

#[test]
fn fallback_goes_by_time_not_by_version() {
    let deb = manager();
    let mut dir = WorkDir::new();
    dir.record("pkg_2.0.0_installed.deb", Some(1_000));
    dir.record("pkg_1.0.0_installed.deb", Some(2_000));
    assert_eq!(
        deb.install_from_last_installed(&dir, "pkg"),
        Some(String::from("pkg_1.0.0_installed.deb"))
    );
}

#[test]
fn marker_of_another_package_is_nothing_to_go_back_to() {
    let deb = manager();
    let mut dir = WorkDir::new();
    dir.record("pkg-extra_1.0.0_installed.deb", Some(1_000));
    dir.record("pkg_1.0.0_backup.deb", Some(2_000));
    assert_eq!(deb.install_from_last_installed(&dir, "pkg"), None);
    assert_eq!(deb.find_last_installed(&dir, "pkg"), None);
    assert_eq!(deb.find_current_deb(&dir, "pkg"), None);
    let ops = deb.download_deb(&dir, "u", "pkg_2.0.0_arm64.deb", Some("1.0.0"));
    assert_eq!(described(&ops), vec!["fetch u pkg_2.0.0_arm64.deb"]);
}

#[test]
fn retention_counts_the_files_of_the_very_package() {
    let deb = manager();
    let mut dir = WorkDir::new();
    dir.record("pkg_1.0.0_backup.deb", Some(10));
    dir.record("pkg-extra_1.0.0_backup.deb", Some(5));
    dir.record("pkg_1.1.0_backup.deb", Some(30));
    assert_eq!(
        described(&deb.cleanup_old_files(&dir, "pkg", 1)),
        vec!["remove pkg_1.0.0_backup.deb"]
    );
    assert!(deb.cleanup_old_files(&dir, "pkg-extra", 1).is_empty());
}

#[test]
fn cleanup_old_files_keeps_the_most_recent() {
    let deb = manager();
    let mut dir = WorkDir::new();
    dir.record("pkg_1.0.0_backup.deb", Some(10));
    dir.record("pkg_1.1.0_backup.deb", Some(30));
    dir.record("pkg_1.2.0_arm64.deb", Some(20));
    dir.record("pkg_notes.txt", Some(99));
    dir.record("other_1.0.0_backup.deb", Some(1));
    assert_eq!(
        described(&deb.cleanup_old_files(&dir, "pkg", 1)),
        vec!["remove pkg_1.2.0_arm64.deb", "remove pkg_1.0.0_backup.deb"]
    );
    assert_eq!(
        described(&deb.cleanup_old_files(&dir, "pkg", 2)),
        vec!["remove pkg_1.0.0_backup.deb"]
    );
    assert!(deb.cleanup_old_files(&dir, "pkg", 3).is_empty());
    assert!(deb.cleanup_old_files(&dir, "pkg", 10).is_empty());
    assert_eq!(deb.cleanup_old_files(&dir, "pkg", 0).len(), 3);
    let ops = deb.cleanup_old_files(&dir, "pkg", 1);
    dir.apply_all(&ops, 100);
    assert_eq!(
        names(&dir),
        vec!["other_1.0.0_backup.deb", "pkg_1.1.0_backup.deb", "pkg_notes.txt"]
    );
}

#[test]
fn rollback_to_a_version_needs_its_backup() {
    let deb = manager();
    let mut dir = WorkDir::new();
    dir.record("pkg_1.0.0_backup.deb", Some(10));
    assert_eq!(deb.rollback_package(&dir, "pkg", "1.0.0"), Ok(String::from("pkg_1.0.0_backup.deb")));
    assert_eq!(deb.rollback_package(&dir, "pkg", "1.1.0"), Err(DebError::BackupNotFound));
    assert_eq!(deb.rollback_result(&exited(true)), Ok(()));
    assert_eq!(deb.rollback_result(&exited(false)), Err(DebError::RollbackFailed));
    assert_eq!(deb.rollback_result(&CommandOutcome::Missing), Err(DebError::CommandFailed));
    assert_eq!(deb.rollback_result(&CommandOutcome::Failed), Err(DebError::CommandFailed));
}
