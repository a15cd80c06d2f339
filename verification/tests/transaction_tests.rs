use luffy_ota::artifact::ServiceType;
use luffy_ota::transaction::{GroupAction, GroupOutcome, GroupUpdate, Phase, StepResult};

fn pair(name: &str) -> (String, String) {
    (String::from(name), format!("http://host/{}", name))
}

fn describe(action: &GroupAction) -> String {
    match action {
        GroupAction::Download { url, filename } => format!("download {} {}", url, filename),
        GroupAction::Discard { filenames } => format!("discard {}", filenames.join(",")),
        GroupAction::StopService { service } => format!("stop {:?}", service),
        GroupAction::Install { filename } => format!("install {}", filename),
        GroupAction::Rollback { package } => format!("rollback {}", package),
        GroupAction::StartService { service } => format!("start {:?}", service),
        GroupAction::Finished { outcome } => format!("finished {:?}", outcome),
    }
}

fn run(packages: Vec<(String, String)>, results: &[StepResult]) -> (Vec<String>, GroupUpdate) {
    let mut update = GroupUpdate::new(ServiceType::Gateway, packages);
    let mut log = vec![describe(&update.action())];
    for result in results {
        log.push(describe(&update.advance(*result)));
    }
    (log, update)
}

#[test]
fn successful_update_of_two_packages() {
    let ok = StepResult::Succeeded;
    let (log, update) = run(vec![pair("a_1.0.0_arm64.deb"), pair("b_1.0.0_arm64.deb")], &[ok; 6]);
    assert_eq!(
        log,
        vec![
            "download http://host/a_1.0.0_arm64.deb a_1.0.0_arm64.deb",
            "download http://host/b_1.0.0_arm64.deb b_1.0.0_arm64.deb",
            "stop Gateway",
            "install a_1.0.0_arm64.deb",
            "install b_1.0.0_arm64.deb",
            "start Gateway",
            "finished Updated",
        ]
    );
    assert_eq!(update.outcome(), Some(GroupOutcome::Updated));
    assert_eq!(update.phase(), Phase::Finished(GroupOutcome::Updated));
}

#[test]
fn failed_download_discards_what_was_fetched() {
    let (log, update) = run(
        vec![pair("a_1.0.0_arm64.deb"), pair("b_1.0.0_arm64.deb")],
        &[StepResult::Succeeded, StepResult::Error, StepResult::Succeeded, StepResult::Succeeded],
    );
    assert_eq!(
        log,
        vec![
            "download http://host/a_1.0.0_arm64.deb a_1.0.0_arm64.deb",
            "download http://host/b_1.0.0_arm64.deb b_1.0.0_arm64.deb",
            "discard a_1.0.0_arm64.deb",
            "finished DownloadFailed",
            "finished DownloadFailed",
        ]
    );
    assert_eq!(update.outcome(), Some(GroupOutcome::DownloadFailed));
}

#[test]
fn first_download_failing_discards_nothing() {
    let (log, _) = run(
        vec![pair("a_1.0.0_arm64.deb"), pair("b_1.0.0_arm64.deb")],
        &[StepResult::Failed, StepResult::Succeeded],
    );
    assert_eq!(
        log,
        vec![
            "download http://host/a_1.0.0_arm64.deb a_1.0.0_arm64.deb",
            "discard ",
            "finished DownloadFailed",
        ]
    );
}

#[test]
fn refused_install_rolls_every_package_back() {
    let ok = StepResult::Succeeded;
    let (log, update) = run(
        vec![pair("a_1.0.0_arm64.deb"), pair("b_1.0.0_arm64.deb")],
        &[ok, ok, ok, ok, StepResult::Failed, StepResult::Failed, StepResult::Error],
    );
    assert_eq!(
        log,
        vec![
            "download http://host/a_1.0.0_arm64.deb a_1.0.0_arm64.deb",
            "download http://host/b_1.0.0_arm64.deb b_1.0.0_arm64.deb",
            "stop Gateway",
            "install a_1.0.0_arm64.deb",
            "install b_1.0.0_arm64.deb",
            "rollback a",
            "rollback b",
            "finished InstallFailed",
        ]
    );
    assert_eq!(update.outcome(), Some(GroupOutcome::InstallFailed));
}

#[test]
fn install_error_ends_the_transaction() {
    let ok = StepResult::Succeeded;
    let (log, update) = run(vec![pair("a_1.0.0_arm64.deb")], &[ok, ok, StepResult::Error]);
    assert_eq!(
        log,
        vec![
            "download http://host/a_1.0.0_arm64.deb a_1.0.0_arm64.deb",
            "stop Gateway",
            "install a_1.0.0_arm64.deb",
            "finished InstallError",
        ]
    );
    assert_eq!(update.outcome(), Some(GroupOutcome::InstallError));
}

#[test]
fn service_manager_failures_do_not_stop_the_update() {
    let ok = StepResult::Succeeded;
    let (log, update) = run(
        vec![pair("a_1.0.0_arm64.deb")],
        &[ok, StepResult::Error, ok, StepResult::Error],
    );
    assert_eq!(
        log,
        vec![
            "download http://host/a_1.0.0_arm64.deb a_1.0.0_arm64.deb",
            "stop Gateway",
            "install a_1.0.0_arm64.deb",
            "start Gateway",
            "finished Updated",
        ]
    );
    assert_eq!(update.outcome(), Some(GroupOutcome::Updated));
}

#[test]
fn empty_group_stops_and_starts_the_service() {
    let ok = StepResult::Succeeded;
    let (log, update) = run(Vec::new(), &[ok, ok]);
    assert_eq!(log, vec!["stop Gateway", "start Gateway", "finished Updated"]);
    assert_eq!(update.outcome(), Some(GroupOutcome::Updated));
}

#[test]
fn outcome_is_open_until_the_end() {
    let mut update = GroupUpdate::new(ServiceType::Media, vec![pair("a_1.0.0_arm64.deb")]);
    assert_eq!(update.phase(), Phase::Downloading(0));
    assert_eq!(update.outcome(), None);
    update.advance(StepResult::Succeeded);
    assert_eq!(update.phase(), Phase::Stopping);
    assert_eq!(update.outcome(), None);
}
