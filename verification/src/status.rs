//! The registry as a status surface shows it: one row for each service that
//! the launcher looks after.

use vstd::prelude::*;
use vstd::string::*;
use crate::registry::{status_at, ServiceStatus, Services, StateView};
use crate::text::same_text;
use crate::version::{needs_update, update_needed};

verus! {

/// One row of the status surface.
#[derive(Debug, Clone, PartialEq, Eq)]
pub struct ServiceStatusViewModel {
    pub name: String,
    pub status: String,
    pub last_health_report: String,
    pub version: String,
    pub update_available: bool,
    pub available_version: String,
}

/// Mathematical value of a [`ServiceStatusViewModel`].
pub struct RowView {
    pub name: Seq<char>,
    pub status: Seq<char>,
    pub last_health_report: Seq<char>,
    pub version: Seq<char>,
    pub update_available: bool,
    pub available_version: Seq<char>,
}

impl View for ServiceStatusViewModel {
    type V = RowView;

    open spec fn view(&self) -> RowView {
        RowView {
            name: self.name@,
            status: self.status@,
            last_health_report: self.last_health_report@,
            version: self.version@,
            update_available: self.update_available,
            available_version: self.available_version@,
        }
    }
}

/// The decimal digit `d`.
pub open spec fn digit_text(d: int) -> Seq<char> {
    if d == 0 {
        "0"@
    } else if d == 1 {
        "1"@
    } else if d == 2 {
        "2"@
    } else if d == 3 {
        "3"@
    } else if d == 4 {
        "4"@
    } else if d == 5 {
        "5"@
    } else if d == 6 {
        "6"@
    } else if d == 7 {
        "7"@
    } else if d == 8 {
        "8"@
    } else {
        "9"@
    }
}

/// `n` in decimal digits.
pub open spec fn decimal(n: nat) -> Seq<char>
    decreases n,
{
    if n < 10 {
        digit_text(n as int)
    } else {
        decimal(n / 10) + digit_text((n % 10) as int)
    }
}

/// How long ago, in words: whole seconds under a minute, whole minutes under
/// an hour, whole hours from then on.
pub open spec fn age_text(elapsed: nat) -> Seq<char> {
    if elapsed < 60 {
        decimal(elapsed) + "s"@
    } else if elapsed < 3600 {
        decimal(elapsed / 60) + "m"@
    } else {
        decimal(elapsed / 3600) + "h"@
    }
}

/// The seconds from `then` to `now`; none where `now` is the earlier.
pub open spec fn seconds_since(then: u64, now: u64) -> nat {
    if now >= then {
        (now - then) as nat
    } else {
        0
    }
}

/// A status in words.
pub open spec fn status_text(status: ServiceStatus) -> Seq<char> {
    match status {
        ServiceStatus::Running => "Running"@,
        ServiceStatus::Stopped => "Stopped"@,
        ServiceStatus::Unknown => "Unknown"@,
    }
}

/// Whether the row shows an update: both versions are known and the one on
/// offer is the newer semantic version.
pub open spec fn shows_update(current: Seq<char>, latest: Seq<char>) -> bool {
    current != "Unknown"@ && latest != "Unknown"@ && update_needed(Some(current), latest)
}

/// The row for the service `name` at time `now`.
pub open spec fn status_row(registry: Map<Seq<char>, StateView>, name: Seq<char>, now: u64)
    -> RowView {
    if registry.contains_key(name) {
        let record = registry[name];
        let latest = match record.latest_version {
            Some(v) => v,
            None => "Unknown"@,
        };
        RowView {
            name,
            status: status_text(status_at(registry, name, now)),
            last_health_report: age_text(seconds_since(record.last_health_report, now)),
            version: record.version,
            update_available: shows_update(record.version, latest),
            available_version: latest,
        }
    } else {
        RowView {
            name,
            status: "Unknown"@,
            last_health_report: "Never"@,
            version: "Unknown"@,
            update_available: false,
            available_version: "Unknown"@,
        }
    }
}

/// The decimal digit `d`.
fn digit(d: u64) -> (r: &'static str)
    requires
        d < 10,
    ensures
        r@ == digit_text(d as int),
{
    if d == 0 {
        "0"
    } else if d == 1 {
        "1"
    } else if d == 2 {
        "2"
    } else if d == 3 {
        "3"
    } else if d == 4 {
        "4"
    } else if d == 5 {
        "5"
    } else if d == 6 {
        "6"
    } else if d == 7 {
        "7"
    } else if d == 8 {
        "8"
    } else {
        "9"
    }
}

/// `n` in decimal digits.
pub fn decimal_string(n: u64) -> (r: String)
    ensures
        r@ == decimal(n as nat),
    decreases n,
{
    if n < 10 {
        String::from_str(digit(n))
    } else {
        decimal_string(n / 10).concat(digit(n % 10))
    }
}

/// How long ago `elapsed` seconds are, in words.
pub fn age_string(elapsed: u64) -> (r: String)
    ensures
        r@ == age_text(elapsed as nat),
{
    if elapsed < 60 {
        decimal_string(elapsed).concat("s")
    } else if elapsed < 3600 {
        decimal_string(elapsed / 60).concat("m")
    } else {
        decimal_string(elapsed / 3600).concat("h")
    }
}

/// A status in words.
pub fn status_string(status: ServiceStatus) -> (r: String)
    ensures
        r@ == status_text(status),
{
    match status {
        ServiceStatus::Running => String::from_str("Running"),
        ServiceStatus::Stopped => String::from_str("Stopped"),
        ServiceStatus::Unknown => String::from_str("Unknown"),
    }
}

/// Whether a row with these versions shows an update.
pub fn is_update_available(current_version: &str, latest_version: &str) -> (r: bool)
    ensures
        r == shows_update(current_version@, latest_version@),
{
    if same_text(current_version, "Unknown") || same_text(latest_version, "Unknown") {
        return false;
    }
    needs_update(Some(current_version), latest_version)
}

/// The row for the service `name` at time `now`.
pub fn service_row(services: &Services, name: &str, now: u64) -> (r: ServiceStatusViewModel)
    requires
        services.wf(),
    ensures
        r@ == status_row(services@, name@, now),
{
    match services.get(name) {
        Some(record) => {
            let elapsed = if now >= record.last_health_report {
                now - record.last_health_report
            } else {
                0
            };
            let latest = match &record.latest_version {
                Some(v) => v.clone(),
                None => String::from_str("Unknown"),
            };
            ServiceStatusViewModel {
                name: String::from_str(name),
                status: status_string(services.status_of(name, now)),
                last_health_report: age_string(elapsed),
                version: record.version.clone(),
                update_available: is_update_available(record.version.as_str(), latest.as_str()),
                available_version: latest,
            }
        },
        None => ServiceStatusViewModel {
            name: String::from_str(name),
            status: String::from_str("Unknown"),
            last_health_report: String::from_str("Never"),
            version: String::from_str("Unknown"),
            update_available: false,
            available_version: String::from_str("Unknown"),
        },
    }
}

/// The rows of the status surface at time `now`: the gateway, the launcher
/// and the media service, in that order.
pub fn get_services_state(services: &Services, now: u64) -> (r: Vec<ServiceStatusViewModel>)
    requires
        services.wf(),
    ensures
        r@.len() == 3,
        r@[0]@ == status_row(services@, "gateway"@, now),
        r@[1]@ == status_row(services@, "launcher"@, now),
        r@[2]@ == status_row(services@, "media"@, now),
{
    let mut rows: Vec<ServiceStatusViewModel> = Vec::new();
    rows.push(service_row(services, "gateway", now));
    rows.push(service_row(services, "launcher", now));
    rows.push(service_row(services, "media", now));
    rows
}

} // verus!
