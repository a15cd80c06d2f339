use luffy_ota::registry::{ServiceStatus, Services};

#[test]
fn new_registry_seeds_the_known_services() {
    let services = Services::new_at(1_000);
    assert_eq!(services.records().len(), 3);
    for name in ["gateway", "launcher", "media"] {
        let record = services.get(name).unwrap();
        assert_eq!(record.name, name);
        assert_eq!(record.status, ServiceStatus::Unknown);
        assert_eq!(record.version, "Unknown");
        assert_eq!(record.latest_version, None);
        assert_eq!(record.last_health_report, 1_000);
    }
    assert!(services.get("Gateway").is_none());
    assert!(services.get("other").is_none());
}

#[test]
fn new_registry_uses_the_clock() {
    let services = Services::new();
    assert_eq!(services.records().len(), 3);
    assert!(services.get("gateway").unwrap().last_health_report > 1_600_000_000);
    assert_eq!(services.get_service_status("gateway"), ServiceStatus::Unknown);
}

#[test]
fn health_report_marks_the_service_running() {
    let mut services = Services::new_at(1_000);
    services.record_health("gateway", "1.1.0", 2_000);
    let record = services.get("gateway").unwrap();
    assert_eq!(record.status, ServiceStatus::Running);
    assert_eq!(record.version, "1.1.0");
    assert_eq!(record.latest_version, None);
    assert_eq!(record.last_health_report, 2_000);
    assert_eq!(services.status_of("gateway", 2_000), ServiceStatus::Running);
    assert_eq!(services.records().len(), 3);
}

#[test]
fn old_report_reads_unknown() {
    let mut services = Services::new_at(0);
    services.record_health("gateway", "1.1.0", 10_000);
    assert_eq!(services.get("gateway").unwrap().status, ServiceStatus::Running);
    assert_eq!(services.status_of("gateway", 10_061), ServiceStatus::Unknown);
    assert_eq!(services.get("gateway").unwrap().status, ServiceStatus::Running);
}

#[test]
fn reports_stay_fresh_for_sixty_seconds() {
    let mut services = Services::new_at(0);
    services.record_health("gateway", "1.1.0", 10_000);
    assert_eq!(services.status_of("gateway", 10_000), ServiceStatus::Running);
    assert_eq!(services.status_of("gateway", 10_059), ServiceStatus::Running);
    assert_eq!(services.status_of("gateway", 10_060), ServiceStatus::Running);
    assert_eq!(services.status_of("gateway", 10_061), ServiceStatus::Unknown);
    assert_eq!(services.status_of("gateway", u64::MAX), ServiceStatus::Unknown);
    assert_eq!(services.status_of("gateway", 9_999), ServiceStatus::Unknown);
}

#[test]
fn status_of_unknown_service_is_unknown() {
    let services = Services::new_at(0);
    assert_eq!(services.status_of("nobody", 0), ServiceStatus::Unknown);
}

#[test]
fn partial_merge_leaves_absent_fields() {
    let mut services = Services::new_at(0);
    services.set_service_at("gateway", Some(ServiceStatus::Running), Some(String::from("1.0.0")), None, 10);
    services.set_service_at("gateway", None, None, Some(String::from("1.2.0")), 20);
    let record = services.get("gateway").unwrap();
    assert_eq!(record.status, ServiceStatus::Running);
    assert_eq!(record.version, "1.0.0");
    assert_eq!(record.latest_version, Some(String::from("1.2.0")));
    assert_eq!(record.last_health_report, 10);
    assert_eq!(services.status_of("gateway", 71), ServiceStatus::Unknown);
    services.set_service_at("gateway", None, None, None, 25);
    assert_eq!(services.get("gateway").unwrap().last_health_report, 10);
    services.set_service_at("gateway", Some(ServiceStatus::Stopped), None, None, 30);
    let record = services.get("gateway").unwrap();
    assert_eq!(record.last_health_report, 30);
    assert_eq!(record.status, ServiceStatus::Stopped);
    assert_eq!(record.version, "1.0.0");
    assert_eq!(record.latest_version, Some(String::from("1.2.0")));
    assert_eq!(services.status_of("gateway", 31), ServiceStatus::Stopped);
}

#[test]
fn report_in_capitals_reaches_the_lower_case_record() {
    let mut services = Services::new_at(0);
    services.set_service_at("Gateway", Some(ServiceStatus::Running), Some(String::from("1.0.0")), None, 10);
    assert_eq!(services.records().len(), 3);
    assert!(services.get("Gateway").is_none());
    let record = services.get("gateway").unwrap();
    assert_eq!(record.name, "gateway");
    assert_eq!(record.status, ServiceStatus::Running);
    assert_eq!(record.version, "1.0.0");
}

#[test]
fn first_report_creates_the_record() {
    let mut services = Services::new_at(0);
    services.set_service_at("camera", None, None, None, 10);
    assert_eq!(services.records().len(), 4);
    let record = services.get("camera").unwrap();
    assert_eq!(record.name, "camera");
    assert_eq!(record.status, ServiceStatus::Unknown);
    assert_eq!(record.version, "Unknown");
    assert_eq!(record.latest_version, None);
    assert_eq!(record.last_health_report, 10);
    services.set_service_at("Camera2", Some(ServiceStatus::Running), None, None, 11);
    assert_eq!(services.get("Camera2").unwrap().status, ServiceStatus::Running);
    services.set_service_at("Camera2", None, Some(String::from("2.0.0")), None, 12);
    let record = services.get("Camera2").unwrap();
    assert_eq!(record.status, ServiceStatus::Running);
    assert_eq!(record.version, "2.0.0");
    assert_eq!(services.records().len(), 5);
}

#[test]
fn latest_available_touches_only_the_latest_version() {
    let mut services = Services::new_at(0);
    services.record_health("gateway", "1.1.0", 100);
    services.record_latest_available("Gateway", "1.2.0", 500);
    let record = services.get("gateway").unwrap();
    assert_eq!(record.status, ServiceStatus::Running);
    assert_eq!(record.version, "1.1.0");
    assert_eq!(record.latest_version, Some(String::from("1.2.0")));
    assert_eq!(record.last_health_report, 100);
    assert_eq!(services.status_of("gateway", 500), ServiceStatus::Unknown);
    services.record_latest_available("camera", "0.3.0", 600);
    let record = services.get("camera").unwrap();
    assert_eq!(record.status, ServiceStatus::Unknown);
    assert_eq!(record.version, "Unknown");
    assert_eq!(record.latest_version, Some(String::from("0.3.0")));
    assert_eq!(record.last_health_report, 600);
}

#[test]
fn set_service_uses_the_clock() {
    let mut services = Services::new_at(0);
    services.set_service("gateway", Some(ServiceStatus::Running), Some(String::from("1.0.0")), None);
    assert!(services.get("gateway").unwrap().last_health_report > 1_600_000_000);
    assert_eq!(services.get_service_status("gateway"), ServiceStatus::Running);
    assert_eq!(services.get_service_status("media"), ServiceStatus::Unknown);
}

#[test]
fn snapshot_is_a_copy() {
    let mut services = Services::new_at(0);
    services.record_health("gateway", "1.1.0", 100);
    let copy = services.snapshot();
    services.record_health("gateway", "1.2.0", 200);
    assert_eq!(copy.get("gateway").unwrap().version, "1.1.0");
    assert_eq!(copy.get("gateway").unwrap().last_health_report, 100);
    assert_eq!(services.get("gateway").unwrap().version, "1.2.0");
    assert_eq!(copy.records().len(), 3);
    assert_eq!(copy.records().len(), 3);
    assert_eq!(copy.records()[0].name, "gateway");
}

#[test]
fn version_alone_refreshes_the_report_time() {
    let mut services = Services::new_at(0);
    services.set_service_at("gateway", None, Some(String::from("1.0.0")), None, 40);
    let record = services.get("gateway").unwrap();
    assert_eq!(record.last_health_report, 40);
    assert_eq!(record.status, ServiceStatus::Unknown);
    assert_eq!(record.version, "1.0.0");
}

#[test]
fn availability_never_makes_a_silent_service_look_fresh() {
    let mut services = Services::new_at(0);
    services.record_health("gateway", "1.1.0", 100);
    services.set_service_at("Gateway", None, None, Some(String::from("1.2.0")), 1_000);
    let record = services.get("gateway").unwrap();
    assert_eq!(record.last_health_report, 100);
    assert_eq!(record.latest_version, Some(String::from("1.2.0")));
    assert_eq!(services.status_of("gateway", 1_000), ServiceStatus::Unknown);
    assert_eq!(services.status_of("gateway", 160), ServiceStatus::Running);
}

#[test]
fn default_registry_is_empty() {
    let mut services = Services::default();
    assert!(services.records().is_empty());
    assert!(services.get("gateway").is_none());
    assert_eq!(services.status_of("gateway", 0), ServiceStatus::Unknown);
    services.record_health("gateway", "1.0.0", 5);
    assert_eq!(services.records().len(), 1);
    assert_eq!(services.status_of("gateway", 5), ServiceStatus::Running);
}
