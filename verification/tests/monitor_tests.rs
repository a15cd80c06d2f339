use luffy_ota::monitor::{
    classify_topic, glob_match, glob_pattern, handle_command, handle_health_report,
    requests_self_update, topic_kind, update_request_topic, CommandKind, TopicKind,
    HEALTH_TOPICS, TELEMETRY_TOPICS,
};
use luffy_ota::registry::{HealthReport, ServiceStatus, Services};

#[test]
fn topic_filters_become_shell_patterns() {
    assert_eq!(glob_pattern("luffy/+/health"), "luffy/*/health");
    assert_eq!(glob_pattern("+/telemetry"), "*/telemetry");
    assert_eq!(glob_pattern("fleet/#"), "fleet/**");
    assert_eq!(glob_pattern("plain/topic"), "plain/topic");
    assert_eq!(glob_pattern(""), "");
    assert_eq!(HEALTH_TOPICS, "luffy/+/health");
    assert_eq!(TELEMETRY_TOPICS, "+/telemetry");
}

#[test]
fn topics_are_matched_by_their_filters() {
    assert_eq!(glob_match("luffy/+/health", "luffy/gateway/health"), Some(true));
    assert_eq!(glob_match("luffy/+/health", "luffy/gateway/status"), Some(false));
    assert_eq!(glob_match("+/telemetry", "vehicle7/telemetry"), Some(true));
    assert_eq!(glob_match("+/telemetry", "vehicle7/health"), Some(false));
    assert_eq!(glob_match("fleet/#", "fleet/a/b"), Some(true));
    assert_eq!(glob_match("a[", "a["), None);
    assert_eq!(glob_match("+", "*"), Some(true));
    assert_eq!(glob_match("x", "y"), Some(false));
}

#[test]
fn topics_are_classified() {
    match classify_topic("luffy/gateway/health") {
        TopicKind::Health { service } => assert_eq!(service, "gateway"),
        _ => panic!("expected a health topic"),
    }
    match classify_topic("luffy/media/health") {
        TopicKind::Health { service } => assert_eq!(service, "media"),
        _ => panic!("expected a health topic"),
    }
    assert!(matches!(classify_topic("vehicle7/telemetry"), TopicKind::Telemetry));
    assert!(matches!(classify_topic("vehicle7/ota/request"), TopicKind::Unrelated));
    assert!(matches!(classify_topic(""), TopicKind::Unrelated));
}

#[test]
fn kind_follows_the_matches() {
    match topic_kind(true, true, "luffy/gateway/health") {
        TopicKind::Health { service } => assert_eq!(service, "gateway"),
        _ => panic!("expected a health topic"),
    }
    match topic_kind(true, false, "health") {
        TopicKind::Health { service } => assert_eq!(service, "unknown"),
        _ => panic!("expected a health topic"),
    }
    assert!(matches!(topic_kind(false, true, "a/telemetry"), TopicKind::Telemetry));
    assert!(matches!(topic_kind(false, false, "a/telemetry"), TopicKind::Unrelated));
}

#[test]
fn health_report_reaches_the_registry() {
    let mut services = Services::new_at(0);
    let report = HealthReport { version: String::from("1.4.2") };
    handle_health_report(&mut services, "luffy/gateway/health", &report, 77);
    let record = services.get("gateway").unwrap();
    assert_eq!(record.status, ServiceStatus::Running);
    assert_eq!(record.version, "1.4.2");
    assert_eq!(record.last_health_report, 77);
    handle_health_report(&mut services, "health", &report, 78);
    assert_eq!(services.get("unknown").unwrap().version, "1.4.2");
    assert_eq!(services.records().len(), 4);
}

#[test]
fn update_requests() {
    assert_eq!(update_request_topic("vehicle7"), "vehicle7/ota/request");
    assert!(requests_self_update("launcher"));
    assert!(requests_self_update("Launcher"));
    assert!(!requests_self_update("gateway"));
    assert!(!requests_self_update("luffy-launcher"));
}

#[test]
fn messages_to_the_vehicle() {
    assert_eq!(handle_command("v7", "v7/ota/request"), CommandKind::UpdateRequest);
    assert_eq!(handle_command("v7", "v7/ota/request/now"), CommandKind::UpdateRequest);
    assert_eq!(handle_command("v7", "v7/command/mode"), CommandKind::Command);
    assert_eq!(handle_command("v7", "v7/command"), CommandKind::Unrelated);
    assert_eq!(handle_command("v7", "v8/ota/request"), CommandKind::Unrelated);
    assert_eq!(handle_command("v7", "v7/ota/status"), CommandKind::Unrelated);
    assert_eq!(handle_command("", "/ota/request"), CommandKind::UpdateRequest);
}
