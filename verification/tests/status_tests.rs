use luffy_ota::deb::{install_result, DebError, UpdateManager};
use luffy_ota::registry::{ServiceStatus, Services};
use luffy_ota::status::{
    age_string, decimal_string, get_services_state, is_update_available, service_row,
    status_string,
};
use luffy_ota::transaction::StepResult;

#[test]
fn numbers_in_decimal() {
    assert_eq!(decimal_string(0), "0");
    assert_eq!(decimal_string(7), "7");
    assert_eq!(decimal_string(10), "10");
    assert_eq!(decimal_string(59), "59");
    assert_eq!(decimal_string(1234567890), "1234567890");
    assert_eq!(decimal_string(u64::MAX), "18446744073709551615");
}

#[test]
fn ages_in_words() {
    assert_eq!(age_string(0), "0s");
    assert_eq!(age_string(59), "59s");
    assert_eq!(age_string(60), "1m");
    assert_eq!(age_string(3599), "59m");
    assert_eq!(age_string(3600), "1h");
    assert_eq!(age_string(90_000), "25h");
}

#[test]
fn statuses_in_words() {
    assert_eq!(status_string(ServiceStatus::Running), "Running");
    assert_eq!(status_string(ServiceStatus::Stopped), "Stopped");
    assert_eq!(status_string(ServiceStatus::Unknown), "Unknown");
}

#[test]
fn update_is_shown_for_a_newer_version_on_offer() {
    assert!(is_update_available("1.1.0", "1.2.0"));
    assert!(!is_update_available("1.2.0", "1.2.0"));
    assert!(!is_update_available("1.2.0", "1.1.0"));
    assert!(!is_update_available("Unknown", "1.2.0"));
    assert!(!is_update_available("1.1.0", "Unknown"));
    assert!(!is_update_available("garbage", "1.2.0"));
}

#[test]
fn rows_of_the_status_surface() {
    let mut services = Services::new_at(0);
    services.record_health("gateway", "1.1.0", 1_000);
    services.record_latest_available("gateway", "1.2.0", 1_000);
    services.record_health("media", "2.0.0", 900);
    let rows = get_services_state(&services, 1_030);
    assert_eq!(rows.len(), 3);

    assert_eq!(rows[0].name, "gateway");
    assert_eq!(rows[0].status, "Running");
    assert_eq!(rows[0].last_health_report, "30s");
    assert_eq!(rows[0].version, "1.1.0");
    assert!(rows[0].update_available);
    assert_eq!(rows[0].available_version, "1.2.0");

    assert_eq!(rows[1].name, "launcher");
    assert_eq!(rows[1].status, "Unknown");
    assert_eq!(rows[1].last_health_report, "17m");
    assert_eq!(rows[1].version, "Unknown");
    assert!(!rows[1].update_available);
    assert_eq!(rows[1].available_version, "Unknown");

    assert_eq!(rows[2].name, "media");
    assert_eq!(rows[2].status, "Unknown");
    assert_eq!(rows[2].last_health_report, "2m");
    assert_eq!(rows[2].version, "2.0.0");
    assert!(!rows[2].update_available);
}

#[test]
fn row_of_a_service_without_record() {
    let services = Services::new_at(0);
    let row = service_row(&services, "camera", 10);
    assert_eq!(row.name, "camera");
    assert_eq!(row.status, "Unknown");
    assert_eq!(row.last_health_report, "Never");
    assert_eq!(row.version, "Unknown");
    assert!(!row.update_available);
    assert_eq!(row.available_version, "Unknown");
}

#[test]
fn row_when_the_clock_went_back() {
    let mut services = Services::new_at(0);
    services.record_health("gateway", "1.1.0", 1_000);
    let row = service_row(&services, "gateway", 500);
    assert_eq!(row.status, "Unknown");
    assert_eq!(row.last_health_report, "0s");
}

#[test]
fn self_update_goes_through_the_package_manager() {
    assert_eq!(UpdateManager::detect(true), UpdateManager::Debug);
    assert_eq!(UpdateManager::detect(false), UpdateManager::Systemd);
    assert!(UpdateManager::Debug.update("/tmp/l.deb").is_none());
    let command = UpdateManager::Systemd.update("/tmp/l.deb").unwrap();
    assert_eq!(command.program, "sudo");
    assert_eq!(command.args, vec!["dpkg", "-i", "/tmp/l.deb"]);
}

#[test]
fn install_outcomes_as_step_results() {
    assert_eq!(install_result(&Ok(Some(Vec::new()))), StepResult::Succeeded);
    assert_eq!(install_result(&Ok(None)), StepResult::Failed);
    assert_eq!(install_result(&Err(DebError::InvalidFilename)), StepResult::Error);
}
