//! Update settings as they come from the configuration.

use vstd::prelude::*;
use vstd::string::*;
use crate::text::same_text;

verus! {

/// Where the artifacts are kept when the configuration names no directory.
pub const DEFAULT_DOWNLOAD_DIR: &'static str = "/home/luffy/.deb";

/// How far updates are automated.
#[derive(Debug, Clone, Copy, PartialEq, Eq, Structural)]
pub enum UpgradeStrategy {
    /// Look for updates and install them.
    Auto,
    /// Look for updates and make them known; install on command only.
    Manual,
    /// Do neither.
    Disabled,
}

/// What is wrong with a configuration.
#[derive(Debug, Clone, Copy, PartialEq, Eq, Structural)]
pub enum ConfigError {
    /// The strategy is none of `auto`, `manual` and `disabled`.
    UnknownStrategy,
}

/// The update settings that every service shares.
#[derive(Debug, Clone, PartialEq, Eq)]
pub struct VersionConfig {
    pub strategy: String,
    pub check_interval: u32,
    pub download_dir: Option<String>,
    pub github_repo: String,
}

/// The update settings of the launcher: the shared ones and, for each
/// service that it looks after, whether that service is to be updated.
#[derive(Debug, Clone, PartialEq, Eq)]
pub struct OtaConfig {
    pub strategy: String,
    pub check_interval: u32,
    pub github_repo: String,
    pub gateway: bool,
    pub media: bool,
    pub download_dir: Option<String>,
}

/// Where the web console listens.
#[derive(Debug, Clone, PartialEq, Eq)]
pub struct WebConfig {
    pub host: String,
    pub port: u16,
}

/// How to reach the cloud's message broker.
#[derive(Debug, Clone, PartialEq, Eq)]
pub struct AwsIotConfig {
    pub root_ca_path: String,
    pub endpoint: String,
    pub port: u16,
}

/// The cloud functions that the vehicle calls.
#[derive(Debug, Clone, PartialEq, Eq)]
pub struct AwsLambdaConfig {
    pub register: String,
}

/// The vehicle's cloud settings.
#[derive(Debug, Clone, PartialEq, Eq)]
pub struct AwsConfig {
    pub region: String,
    pub iot: AwsIotConfig,
    pub lambda: AwsLambdaConfig,
}

/// How often, in seconds, telemetry is sent to the local and to the remote
/// broker.
#[derive(Debug, Clone, PartialEq, Eq)]
pub struct IotConfig {
    pub local_interval: u64,
    pub remote_interval: u64,
}

/// The settings that all services of a vehicle share.
#[derive(Debug, Clone, PartialEq, Eq)]
pub struct BaseConfig {
    pub vehicle_id: String,
    pub mqtt_host: String,
    pub mqtt_port: u16,
    pub health_report_interval: u64,
    pub aws: AwsConfig,
}

/// The launcher's configuration.
#[derive(Debug, Clone, PartialEq, Eq)]
pub struct LauncherConfig {
    pub base: BaseConfig,
    pub log_level: String,
    pub web: WebConfig,
    pub ota: OtaConfig,
}

/// The strategy that a configuration text names.
pub open spec fn strategy_named(text: Seq<char>) -> Result<UpgradeStrategy, ConfigError> {
    if text == "auto"@ {
        Ok(UpgradeStrategy::Auto)
    } else if text == "manual"@ {
        Ok(UpgradeStrategy::Manual)
    } else if text == "disabled"@ {
        Ok(UpgradeStrategy::Disabled)
    } else {
        Err(ConfigError::UnknownStrategy)
    }
}

impl UpgradeStrategy {
    /// Reads a strategy from its name in the configuration.
    pub fn parse(text: &str) -> (r: Result<UpgradeStrategy, ConfigError>)
        ensures
            r == strategy_named(text@),
    {
        if same_text(text, "auto") {
            Ok(UpgradeStrategy::Auto)
        } else if same_text(text, "manual") {
            Ok(UpgradeStrategy::Manual)
        } else if same_text(text, "disabled") {
            Ok(UpgradeStrategy::Disabled)
        } else {
            Err(ConfigError::UnknownStrategy)
        }
    }
}

impl From<OtaConfig> for VersionConfig {
    fn from(config: OtaConfig) -> (r: VersionConfig) {
        VersionConfig {
            strategy: config.strategy,
            check_interval: config.check_interval,
            download_dir: config.download_dir,
            github_repo: config.github_repo,
        }
    }
}

impl vstd::std_specs::convert::FromSpecImpl<OtaConfig> for VersionConfig {
    open spec fn obeys_from_spec() -> bool {
        true
    }

    open spec fn from_spec(config: OtaConfig) -> VersionConfig {
        VersionConfig {
            strategy: config.strategy,
            check_interval: config.check_interval,
            download_dir: config.download_dir,
            github_repo: config.github_repo,
        }
    }
}

} // verus!
