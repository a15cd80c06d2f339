use luffy_ota::artifact::ServiceType;
use luffy_ota::config::{ConfigError, OtaConfig, UpgradeStrategy, VersionConfig, DEFAULT_DOWNLOAD_DIR};
use luffy_ota::manager::{
    copy_packages, lookup_installed, BaseVersionManager, InstalledPackage, ServiceGroup,
    TickAction, UpdateError, VersionManager,
};
use luffy_ota::registry::{ServiceStatus, Services};
use luffy_ota::release::{authorization, release_url, GithubAsset, GithubRelease};
use luffy_ota::transaction::Phase;
use luffy_ota::version::VersionError;

fn config(strategy: &str, gateway: bool, media: bool) -> OtaConfig {
    OtaConfig {
        strategy: String::from(strategy),
        check_interval: 3600,
        github_repo: String::from("acme/fleet"),
        gateway,
        media,
        download_dir: Some(String::from("/var/lib/debs")),
    }
}

fn manager(strategy: &str) -> VersionManager {
    VersionManager::new(config(strategy, true, true)).unwrap()
}

fn pair(name: &str) -> (String, String) {
    (String::from(name), format!("http://host/{}", name))
}

fn installed(list: &[(&str, &str)]) -> Vec<InstalledPackage> {
    list.iter()
        .map(|(name, version)| InstalledPackage {
            name: String::from(*name),
            version: String::from(*version),
        })
        .collect()
}

fn filenames(packages: &Vec<(String, String)>) -> Vec<String> {
    packages.iter().map(|p| p.0.clone()).collect()
}

fn shape(groups: &Vec<ServiceGroup>) -> Vec<(String, Vec<String>)> {
    groups.iter().map(|g| (format!("{:?}", g.service), filenames(&g.packages))).collect()
}

#[test]
fn strategy_names() {
    assert_eq!(UpgradeStrategy::parse("auto"), Ok(UpgradeStrategy::Auto));
    assert_eq!(UpgradeStrategy::parse("manual"), Ok(UpgradeStrategy::Manual));
    assert_eq!(UpgradeStrategy::parse("disabled"), Ok(UpgradeStrategy::Disabled));
    assert_eq!(UpgradeStrategy::parse("Auto"), Err(ConfigError::UnknownStrategy));
    assert_eq!(UpgradeStrategy::parse(""), Err(ConfigError::UnknownStrategy));
    assert_eq!(UpgradeStrategy::parse("automatic"), Err(ConfigError::UnknownStrategy));
}

#[test]
fn base_manager_from_configuration() {
    let base = BaseVersionManager::new(VersionConfig {
        strategy: String::from("manual"),
        check_interval: 90,
        download_dir: None,
        github_repo: String::from("acme/fleet"),
    })
    .unwrap();
    assert_eq!(base.strategy, UpgradeStrategy::Manual);
    assert_eq!(base.check_interval, 90);
    assert_eq!(base.github_repo, "acme/fleet");
    assert_eq!(base.get_current_version(), "");
    assert_eq!(base.deb_manager.get_work_dir(), "/home/luffy/.deb");
    assert_eq!(DEFAULT_DOWNLOAD_DIR, "/home/luffy/.deb");
    assert_eq!(base.release_url(), "https://api.github.com/repos/acme/fleet/releases/latest");
    let bad = BaseVersionManager::new(VersionConfig {
        strategy: String::from("sometimes"),
        check_interval: 90,
        download_dir: None,
        github_repo: String::from("acme/fleet"),
    });
    assert!(matches!(bad, Err(ConfigError::UnknownStrategy)));
}

#[test]
fn launcher_configuration_converts() {
    let shared = VersionConfig::from(config("auto", true, false));
    assert_eq!(shared.strategy, "auto");
    assert_eq!(shared.check_interval, 3600);
    assert_eq!(shared.download_dir, Some(String::from("/var/lib/debs")));
    assert_eq!(shared.github_repo, "acme/fleet");
    let m = VersionManager::new(config("auto", true, false)).unwrap();
    assert_eq!(m.strategy(), UpgradeStrategy::Auto);
    assert_eq!(m.get_base().deb_manager.get_work_dir(), "/var/lib/debs");
    assert_eq!(m.get_current_version(), "");
    assert!(matches!(
        VersionManager::new(config("nope", true, true)),
        Err(ConfigError::UnknownStrategy)
    ));
}

#[test]
fn release_index_addresses() {
    assert_eq!(release_url("o/r"), "https://api.github.com/repos/o/r/releases/latest");
    assert_eq!(authorization("SECRET"), "Bearer SECRET");
}

#[test]
fn only_deb_assets_are_candidates() {
    let release = GithubRelease {
        tag_name: String::from("v1.2.0"),
        assets: vec![
            GithubAsset {
                name: String::from("gateway_1.2.0_arm64.deb"),
                browser_download_url: String::from("http://host/g"),
            },
            GithubAsset {
                name: String::from("notes.txt"),
                browser_download_url: String::from("http://host/n"),
            },
            GithubAsset {
                name: String::from("luffy-media_1.2.0_arm64.deb"),
                browser_download_url: String::from("http://host/m"),
            },
            GithubAsset {
                name: String::from("archive.deb.sig"),
                browser_download_url: String::from("http://host/s"),
            },
        ],
    };
    let m = manager("auto");
    let (tag, packages) = m.get_latest_version(&release);
    assert_eq!(tag, "v1.2.0");
    assert_eq!(
        packages,
        vec![
            (String::from("gateway_1.2.0_arm64.deb"), String::from("http://host/g")),
            (String::from("luffy-media_1.2.0_arm64.deb"), String::from("http://host/m")),
        ]
    );
    assert_eq!(release.deb_assets().len(), 2);
}

#[test]
fn running_version_against_a_tag() {
    let mut base = BaseVersionManager::new(VersionConfig {
        strategy: String::from("auto"),
        check_interval: 1,
        download_dir: None,
        github_repo: String::from("o/r"),
    })
    .unwrap();
    assert_eq!(base.needs_update("v1.2.0"), Err(VersionError::InvalidCurrent));
    base.current_version = String::from("1.1.0");
    assert_eq!(base.needs_update("v1.2.0"), Ok(true));
    assert_eq!(base.needs_update("v1.1.0"), Ok(false));
    assert_eq!(base.needs_update("nightly"), Err(VersionError::InvalidLatest));
}

#[test]
fn installed_version_is_that_of_the_first_entry() {
    let db = installed(&[("a", "1.0.0"), ("b", "2.0.0"), ("a", "3.0.0")]);
    assert_eq!(lookup_installed(&db, "a"), Some("1.0.0"));
    assert_eq!(lookup_installed(&db, "b"), Some("2.0.0"));
    assert_eq!(lookup_installed(&db, "c"), None);
}

#[test]
fn updates_are_filtered() {
    let m = manager("auto");
    let all = vec![
        pair("luffy-gateway_1.2.0_arm64.deb"),
        pair("luffy-media_1.0.0_arm64.deb"),
        pair("luffy-launcher_9.0.0_arm64.deb"),
        pair("camera_0.5.0_arm64.deb"),
        pair("unversioned.deb"),
        pair("tool_2.0.0_arm64.deb"),
        pair("odd_1.0_arm64.deb"),
    ];
    let db = installed(&[
        ("luffy-gateway", "1.1.0"),
        ("luffy-media", "1.0.0"),
        ("luffy-launcher", "1.0.0"),
        ("camera", "0.4.9"),
        ("unversioned.deb", "0.0.1"),
        ("odd", "0.1.0"),
    ]);
    assert_eq!(
        filenames(&m.check_updates(&all, &db)),
        vec!["luffy-gateway_1.2.0_arm64.deb", "camera_0.5.0_arm64.deb"]
    );
    assert!(m.is_update(&all[0], &db));
    assert!(!m.is_update(&all[1], &db));
    assert!(!m.is_update(&all[2], &db));
    assert!(!m.is_update(&all[5], &db));
}

#[test]
fn disabled_services_are_not_updated() {
    let all = vec![pair("luffy-gateway_1.2.0_arm64.deb"), pair("luffy-media_1.2.0_arm64.deb")];
    let db = installed(&[("luffy-gateway", "1.1.0"), ("luffy-media", "1.1.0")]);
    let neither = VersionManager::new(config("auto", false, false)).unwrap();
    assert!(neither.check_updates(&all, &db).is_empty());
    let gateway_only = VersionManager::new(config("auto", true, false)).unwrap();
    assert_eq!(
        filenames(&gateway_only.check_updates(&all, &db)),
        vec!["luffy-gateway_1.2.0_arm64.deb"]
    );
    let media_only = VersionManager::new(config("auto", false, true)).unwrap();
    assert_eq!(
        filenames(&media_only.check_updates(&all, &db)),
        vec!["luffy-media_1.2.0_arm64.deb"]
    );
}

#[test]
fn launcher_updates_are_found_separately() {
    let m = manager("auto");
    let all = vec![
        pair("luffy-gateway_1.2.0_arm64.deb"),
        pair("luffy-launcher_1.2.0_arm64.deb"),
        pair("luffy-launcher_0.9.0_arm64.deb"),
    ];
    let db = installed(&[("luffy-gateway", "1.1.0"), ("luffy-launcher", "1.0.0")]);
    let updates = m.check_launcher_updates(&all, &db);
    assert_eq!(filenames(&updates), vec!["luffy-launcher_1.2.0_arm64.deb"]);
    let mut update = m.update_launcher(&updates);
    assert_eq!(update.phase(), Phase::Downloading(0));
    update.advance(luffy_ota::transaction::StepResult::Succeeded);
    match update.action() {
        luffy_ota::transaction::GroupAction::StopService { service } => {
            assert!(service.same_as(&ServiceType::Other(String::from("luffy-launcher"))))
        }
        _ => panic!("expected the service to be stopped"),
    }
}

#[test]
fn packages_are_grouped_by_service() {
    let m = manager("auto");
    let packages = vec![
        pair("luffy-media_1.2.0_arm64.deb"),
        pair("luffy-gateway_1.2.0_arm64.deb"),
        pair("camera_1.0.0_arm64.deb"),
        pair("luffy-media-codecs_1.2.0_arm64.deb"),
        pair("camera_1.0.1_arm64.deb"),
        pair("lidar_1.0.0_arm64.deb"),
    ];
    assert_eq!(
        shape(&m.group_by_service(&packages)),
        vec![
            (
                String::from("Media"),
                vec![
                    String::from("luffy-media_1.2.0_arm64.deb"),
                    String::from("luffy-media-codecs_1.2.0_arm64.deb")
                ]
            ),
            (String::from("Gateway"), vec![String::from("luffy-gateway_1.2.0_arm64.deb")]),
            (
                String::from("Other(\"camera\")"),
                vec![String::from("camera_1.0.0_arm64.deb"), String::from("camera_1.0.1_arm64.deb")]
            ),
            (String::from("Other(\"lidar\")"), vec![String::from("lidar_1.0.0_arm64.deb")]),
        ]
    );
    assert!(m.group_by_service(&Vec::new()).is_empty());
    assert_eq!(copy_packages(&packages), packages);
}

#[test]
fn plans_under_each_strategy() {
    let all = vec![pair("gateway_1.2.0_arm64.deb")];
    let db = installed(&[("gateway", "1.1.0")]);

    let manual = manager("manual");
    let plan = manual.check_and_apply_updates(&all, &db);
    assert!(plan.report);
    assert!(plan.groups.is_empty());
    assert!(manual.resolves());
    assert_eq!(filenames(&manual.check_updates(&all, &db)), vec!["gateway_1.2.0_arm64.deb"]);
    let mut services = Services::new_at(0);
    manual.set_latest_version(&mut services, &all, 10);
    assert_eq!(
        services.get("gateway").unwrap().latest_version,
        Some(String::from("1.2.0"))
    );
    assert_eq!(lookup_installed(&db, "gateway"), Some("1.1.0"));

    let auto = manager("auto");
    let plan = auto.check_and_apply_updates(&all, &db);
    assert!(plan.report);
    assert_eq!(
        shape(&plan.groups),
        vec![(String::from("Other(\"gateway\")"), vec![String::from("gateway_1.2.0_arm64.deb")])]
    );

    let disabled = manager("disabled");
    let plan = disabled.check_and_apply_updates(&all, &db);
    assert!(!plan.report);
    assert!(plan.groups.is_empty());
    assert!(!disabled.resolves());
}

#[test]
fn latest_versions_are_reported_for_every_artifact() {
    let m = manager("manual");
    let all = vec![
        pair("luffy-gateway_1.2.0_arm64.deb"),
        pair("luffy-media_2.0.0_arm64.deb"),
        pair("luffy-launcher_3.0.0_arm64.deb"),
        pair("camera_0.5.0_arm64.deb"),
        pair("unversioned.deb"),
        pair("luffy-media_2.0.1_arm64.deb"),
    ];
    let mut services = Services::new_at(0);
    services.record_health("gateway", "1.1.0", 5);
    m.set_latest_version(&mut services, &all, 10);
    let gateway = services.get("gateway").unwrap();
    assert_eq!(gateway.latest_version, Some(String::from("1.2.0")));
    assert_eq!(gateway.version, "1.1.0");
    assert_eq!(gateway.status, ServiceStatus::Running);
    assert_eq!(gateway.last_health_report, 5);
    assert_eq!(services.get("media").unwrap().latest_version, Some(String::from("2.0.1")));
    assert_eq!(services.get("launcher").unwrap().latest_version, Some(String::from("3.0.0")));
    assert_eq!(services.get("camera").unwrap().latest_version, Some(String::from("0.5.0")));
    assert_eq!(services.records().len(), 4);
}

#[test]
fn update_on_command() {
    let m = manager("manual");
    let all = vec![
        pair("luffy-gateway_1.2.0_arm64.deb"),
        pair("luffy-media_1.2.0_arm64.deb"),
        pair("luffy-launcher_1.2.0_arm64.deb"),
    ];
    let db = installed(&[
        ("luffy-gateway", "1.1.0"),
        ("luffy-media", "1.2.0"),
        ("luffy-launcher", "1.0.0"),
    ]);
    let groups = m.manual_update("gateway", &all, &db).unwrap();
    assert_eq!(
        shape(&groups),
        vec![(String::from("Gateway"), vec![String::from("luffy-gateway_1.2.0_arm64.deb")])]
    );
    assert!(m.manual_update("media", &all, &db).unwrap().is_empty());
    assert!(m.manual_update("launcher", &all, &db).unwrap().is_empty());
    assert!(matches!(m.manual_update("camera", &all, &db), Err(UpdateError::NoUpdatesFound)));
    let groups = m.update_package(&all, &db);
    assert_eq!(groups.len(), 1);
}

#[test]
fn control_loop_ticks() {
    let mut auto = manager("auto");
    assert_eq!(auto.on_tick(false), TickAction::CheckAndApply);
    assert_eq!(auto.on_tick(true), TickAction::Skip);
    auto.stop();
    assert_eq!(auto.on_tick(false), TickAction::Exit);
    assert_eq!(auto.on_tick(true), TickAction::Exit);
    assert!(auto.start());
    assert_eq!(auto.on_tick(false), TickAction::CheckAndApply);

    let manual = manager("manual");
    assert_eq!(manual.on_tick(false), TickAction::CheckOnly);
    assert_eq!(manual.on_tick(true), TickAction::Skip);

    let mut disabled = manager("disabled");
    assert_eq!(disabled.on_tick(false), TickAction::Exit);
    assert!(!disabled.start());
    assert_eq!(disabled.on_tick(false), TickAction::Exit);
}

#[test]
fn updates_in_words() {
    let m = manager("manual");
    let updates = vec![
        pair("luffy-gateway_1.2.0_arm64.deb"),
        pair("unversioned.deb"),
        pair("camera_0.5.0_arm64.deb"),
        pair("lidar_2.0.0_arm64.deb"),
    ];
    let db = installed(&[("luffy-gateway", "1.1.0"), ("lidar", "1.9.0"), ("unversioned.deb", "1")]);
    assert_eq!(
        m.describe_updates(&updates, &db),
        "luffy-gateway: 1.1.0 -> 1.2.0, lidar: 1.9.0 -> 2.0.0"
    );
    assert_eq!(m.describe_updates(&Vec::new(), &db), "");
    assert_eq!(m.describe_updates(&updates, &Vec::new()), "");
}

#[test]
fn launcher_is_updated_by_another_service() {
    let all = vec![
        pair("luffy-gateway_1.2.0_arm64.deb"),
        pair("luffy-launcher_1.2.0_arm64.deb"),
    ];
    let db = installed(&[("luffy-gateway", "1.1.0"), ("luffy-launcher", "1.0.0")]);
    let plan = manager("auto").check_and_apply_launcher_updates(&all, &db);
    assert!(!plan.report);
    assert_eq!(
        shape(&plan.groups),
        vec![(
            String::from("Other(\"luffy-launcher\")"),
            vec![String::from("luffy-launcher_1.2.0_arm64.deb")]
        )]
    );
    assert!(manager("manual").check_and_apply_launcher_updates(&all, &db).groups.is_empty());
    assert!(manager("disabled").check_and_apply_launcher_updates(&all, &db).groups.is_empty());
    let current = installed(&[("luffy-launcher", "1.2.0")]);
    assert!(manager("auto").check_and_apply_launcher_updates(&all, &current).groups.is_empty());
}
