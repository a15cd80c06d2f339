use luffy_ota::tags::{latest_tag, DockerTag};

fn tag(name: &str, status: &str) -> DockerTag {
    DockerTag {
        name: String::from(name),
        last_updated: String::from("2024-01-01T00:00:00Z"),
        tag_status: String::from(status),
    }
}

#[test]
fn newest_active_version_is_picked() {
    let tags = vec![
        tag("latest", "active"),
        tag("v1.2.0", "active"),
        tag("v1.10.0", "active"),
        tag("v2.0.0", "inactive"),
        tag("nightly", "active"),
        tag("1.9.9", "active"),
    ];
    assert_eq!(latest_tag(&tags), Some(String::from("v1.10.0")));
}

#[test]
fn no_version_tag_gives_nothing() {
    assert_eq!(latest_tag(&Vec::new()), None);
    let tags = vec![tag("latest", "active"), tag("v1.0.0", "stale"), tag("edge", "active")];
    assert_eq!(latest_tag(&tags), None);
}

#[test]
fn of_equally_new_tags_the_last_is_picked() {
    let tags = vec![tag("v1.0.0", "active"), tag("1.0.0", "active"), tag("0.9.0", "active")];
    assert_eq!(latest_tag(&tags), Some(String::from("1.0.0")));
}

#[test]
fn prerelease_tags_come_before_their_release() {
    let tags = vec![tag("v1.0.0", "active"), tag("v1.0.1-rc.1", "active")];
    assert_eq!(latest_tag(&tags), Some(String::from("v1.0.1-rc.1")));
    let tags = vec![tag("v1.0.1-rc.1", "active"), tag("v1.0.1", "active")];
    assert_eq!(latest_tag(&tags), Some(String::from("v1.0.1")));
}
