//! The health registry: what is known of each service's state, its running
//! version and the newest version on offer.
//!
//! Records are created on first mention, changed by partial merge only, and
//! never deleted. A record that has not been refreshed within the staleness
//! window reads as `Unknown`, whatever status it stores; nothing expires
//! eagerly.

use vstd::prelude::*;
use vstd::string::*;
use crate::text::{lowercase, opt_text, same_text, to_lowercase};

verus! {

/// Seconds after which a record that was not refreshed reads as `Unknown`.
pub const STALE_AFTER_SECS: u64 = 60;

/// Whether a service is known to run.
#[derive(Debug, Clone, Copy, PartialEq, Eq, Structural)]
pub enum ServiceStatus {
    Unknown,
    Running,
    Stopped,
}

/// What the registry holds of one service. Times are seconds since the Unix
/// epoch.
#[derive(Debug, Clone, PartialEq, Eq)]
pub struct ServiceState {
    pub name: String,
    pub status: ServiceStatus,
    pub last_health_report: u64,
    pub version: String,
    pub latest_version: Option<String>,
}

/// Mathematical value of a [`ServiceState`].
pub struct StateView {
    pub name: Seq<char>,
    pub status: ServiceStatus,
    pub last_health_report: u64,
    pub version: Seq<char>,
    pub latest_version: Option<Seq<char>>,
}

impl View for ServiceState {
    type V = StateView;

    open spec fn view(&self) -> StateView {
        StateView {
            name: self.name@,
            status: self.status,
            last_health_report: self.last_health_report,
            version: self.version@,
            latest_version: opt_text(self.latest_version),
        }
    }
}

/// A periodic report of a service that it runs, and at which version.
#[derive(Debug, Clone, PartialEq, Eq)]
pub struct HealthReport {
    pub version: String,
}

/// The views of a list of records, in order.
pub open spec fn state_views(records: Seq<ServiceState>) -> Seq<StateView> {
    Seq::new(records.len(), |i: int| records[i]@)
}

/// No two records share a name.
pub open spec fn records_distinct(records: Seq<StateView>) -> bool {
    forall|i: int, j: int| 0 <= i < j < records.len() ==> records[i].name != records[j].name
}

/// `records` holds one called `name`.
pub open spec fn has_record(records: Seq<StateView>, name: Seq<char>) -> bool {
    exists|i: int| 0 <= i < records.len() && records[i].name == name
}

/// The records by name.
pub open spec fn records_by_name(records: Seq<StateView>) -> Map<Seq<char>, StateView> {
    Map::new(
        |name: Seq<char>| has_record(records, name),
        |name: Seq<char>| records[choose|i: int| 0 <= i < records.len() && records[i].name == name],
    )
}

/// The record of a service that has not been heard of: status `Unknown`,
/// version `"Unknown"`, no newer version on offer.
pub open spec fn blank_record(name: Seq<char>, now: u64) -> StateView {
    StateView {
        name,
        status: ServiceStatus::Unknown,
        last_health_report: now,
        version: "Unknown"@,
        latest_version: None,
    }
}

/// The record after a partial merge at time `now`: each given field replaces
/// the stored one and the others stay. The record counts as refreshed at
/// `now` where the merge brings word of the service itself, its status or
/// its running version; word of a version on offer leaves the time of the
/// last report as it is.
pub open spec fn merged(
    prev: StateView,
    status: Option<ServiceStatus>,
    version: Option<Seq<char>>,
    latest_version: Option<Seq<char>>,
    now: u64,
) -> StateView {
    StateView {
        name: prev.name,
        status: match status {
            Some(s) => s,
            None => prev.status,
        },
        last_health_report: if status is None && version is None {
            prev.last_health_report
        } else {
            now
        },
        version: match version {
            Some(v) => v,
            None => prev.version,
        },
        latest_version: match latest_version {
            Some(l) => Some(l),
            None => prev.latest_version,
        },
    }
}

/// The name under which a report for `name` is kept: its lower-case form
/// where the registry has a record of that name, else the name as given.
pub open spec fn record_key(registry: Map<Seq<char>, StateView>, name: Seq<char>) -> Seq<char> {
    if registry.contains_key(lowercase(name)) {
        lowercase(name)
    } else {
        name
    }
}

/// The registry after a report for `name` at time `now`: the record under
/// [`record_key`] is merged with the report, or created from it.
pub open spec fn after_report(
    registry: Map<Seq<char>, StateView>,
    name: Seq<char>,
    status: Option<ServiceStatus>,
    version: Option<Seq<char>>,
    latest_version: Option<Seq<char>>,
    now: u64,
) -> Map<Seq<char>, StateView> {
    let key = record_key(registry, name);
    let prev = if registry.contains_key(key) {
        registry[key]
    } else {
        blank_record(key, now)
    };
    registry.insert(key, merged(prev, status, version, latest_version, now))
}

/// The registry after `version` has been announced as the newest on offer
/// for `name`: the record under [`record_key`] has the version as its
/// latest and is otherwise untouched; where there was none, a blank record
/// with that latest version is created.
pub open spec fn after_announcement(
    registry: Map<Seq<char>, StateView>,
    name: Seq<char>,
    version: Seq<char>,
    now: u64,
) -> Map<Seq<char>, StateView> {
    let key = record_key(registry, name);
    let prev = if registry.contains_key(key) {
        registry[key]
    } else {
        blank_record(key, now)
    };
    registry.insert(
        key,
        StateView {
            name: prev.name,
            status: prev.status,
            last_health_report: prev.last_health_report,
            version: prev.version,
            latest_version: Some(version),
        },
    )
}

/// A report of time `then` is stale at time `now`: more than
/// [`STALE_AFTER_SECS`] have passed, or the clock has gone back behind it.
pub open spec fn is_stale(then: u64, now: u64) -> bool {
    now < then || now - then > STALE_AFTER_SECS
}

/// The status that the registry gives out for `name` at time `now`.
pub open spec fn status_at(registry: Map<Seq<char>, StateView>, name: Seq<char>, now: u64)
    -> ServiceStatus {
    if registry.contains_key(name) && !is_stale(registry[name].last_health_report, now) {
        registry[name].status
    } else {
        ServiceStatus::Unknown
    }
}

/// The registry as it is first made: blank records for the gateway, the
/// launcher and the media service.
pub open spec fn initial_registry(now: u64) -> Map<Seq<char>, StateView> {
    Map::<Seq<char>, StateView>::empty().insert(
        "gateway"@,
        blank_record("gateway"@, now),
    ).insert("launcher"@, blank_record("launcher"@, now)).insert(
        "media"@,
        blank_record("media"@, now),
    )
}

/// Records are never deleted: what the registry held before a report it
/// holds after it, and the service reported on has a record.
pub proof fn lemma_report_keeps_records(
    registry: Map<Seq<char>, StateView>,
    name: Seq<char>,
    status: Option<ServiceStatus>,
    version: Option<Seq<char>>,
    latest_version: Option<Seq<char>>,
    now: u64,
)
    ensures
        forall|other: Seq<char>|
            registry.contains_key(other) ==> #[trigger] after_report(
                registry,
                name,
                status,
                version,
                latest_version,
                now,
            ).contains_key(other),
        after_report(registry, name, status, version, latest_version, now).contains_key(
            record_key(registry, name),
        ),
{
}

/// To announce a version is to report it as the latest and nothing else.
pub proof fn lemma_announcement_is_a_report(
    registry: Map<Seq<char>, StateView>,
    name: Seq<char>,
    version: Seq<char>,
    now: u64,
)
    ensures
        after_announcement(registry, name, version, now) == after_report(
            registry,
            name,
            None,
            None,
            Some(version),
            now,
        ),
{
}

/// A report of a version on offer, with no word of the service itself,
/// leaves the time of the last report of every record that was there.
pub proof fn lemma_availability_keeps_report_time(
    registry: Map<Seq<char>, StateView>,
    name: Seq<char>,
    latest_version: Option<Seq<char>>,
    now: u64,
    other: Seq<char>,
)
    requires
        registry.contains_key(other),
    ensures
        after_report(registry, name, None, None, latest_version, now)[other].last_health_report
            == registry[other].last_health_report,
        after_report(registry, name, None, None, latest_version, now)[other].status
            == registry[other].status,
        after_report(registry, name, None, None, latest_version, now)[other].version
            == registry[other].version,
{
}

/// A report changes the record of the service reported on and no other.
pub proof fn lemma_report_touches_one_record(
    registry: Map<Seq<char>, StateView>,
    name: Seq<char>,
    status: Option<ServiceStatus>,
    version: Option<Seq<char>>,
    latest_version: Option<Seq<char>>,
    now: u64,
    other: Seq<char>,
)
    requires
        other != record_key(registry, name),
        registry.contains_key(other),
    ensures
        after_report(registry, name, status, version, latest_version, now)[other]
            == registry[other],
{
}

/// An announcement never deletes a record and changes no status: every
/// service reads, at any time, as it read before.
pub proof fn lemma_announcement_keeps_status(
    registry: Map<Seq<char>, StateView>,
    name: Seq<char>,
    version: Seq<char>,
    now: u64,
    other: Seq<char>,
    at: u64,
)
    ensures
        registry.contains_key(other) ==> after_announcement(
            registry,
            name,
            version,
            now,
        ).contains_key(other),
        status_at(after_announcement(registry, name, version, now), other, at) == status_at(
            registry,
            other,
            at,
        ),
{
}

/// A record whose last report lies more than the staleness
/// window back reads as `Unknown`, whatever status it stores.
pub proof fn lemma_stale_reads_unknown(
    registry: Map<Seq<char>, StateView>,
    name: Seq<char>,
    now: u64,
)
    requires
        registry.contains_key(name),
        now - registry[name].last_health_report > STALE_AFTER_SECS,
    ensures
        status_at(registry, name, now) == ServiceStatus::Unknown,
{
}

/// A health report makes the service read as running for the whole
/// staleness window that follows.
pub proof fn lemma_fresh_report_reads_running(
    registry: Map<Seq<char>, StateView>,
    name: Seq<char>,
    version: Seq<char>,
    now: u64,
    at: u64,
)
    requires
        now <= at,
        at - now <= STALE_AFTER_SECS,
    ensures
        status_at(
            after_report(registry, name, Some(ServiceStatus::Running), Some(version), None, now),
            record_key(registry, name),
            at,
        ) == ServiceStatus::Running,
{
}

proof fn lemma_record_at(records: Seq<StateView>, i: int)
    requires
        records_distinct(records),
        0 <= i < records.len(),
    ensures
        has_record(records, records[i].name),
        records_by_name(records)[records[i].name] == records[i],
{
    let name = records[i].name;
    let j = choose|j: int| 0 <= j < records.len() && records[j].name == name;
    if j < i {
        assert(records[j].name != records[i].name);
    } else if i < j {
        assert(records[i].name != records[j].name);
    }
}

proof fn lemma_update_record(records: Seq<StateView>, i: int, next: StateView)
    requires
        records_distinct(records),
        0 <= i < records.len(),
        next.name == records[i].name,
    ensures
        records_distinct(records.update(i, next)),
        records_by_name(records.update(i, next)) == records_by_name(records).insert(
            next.name,
            next,
        ),
{
    let out = records.update(i, next);
    assert(records_distinct(out)) by {
        assert forall|a: int, b: int| 0 <= a < b < out.len() implies out[a].name
            != out[b].name by {
            assert(out[a].name == records[a].name && out[b].name == records[b].name);
        }
    }
    let want = records_by_name(records).insert(next.name, next);
    assert forall|name: Seq<char>| records_by_name(out).contains_key(name)
        == want.contains_key(name) by {
        if has_record(out, name) {
            let k = choose|k: int| 0 <= k < out.len() && out[k].name == name;
            assert(records[k].name == name);
        }
        if has_record(records, name) {
            let k = choose|k: int| 0 <= k < records.len() && records[k].name == name;
            assert(out[k].name == name);
        }
        assert(out[i].name == next.name);
    }
    assert forall|name: Seq<char>| records_by_name(out).contains_key(name) implies records_by_name(
        out,
    )[name] == want[name] by {
        let k = choose|k: int| 0 <= k < out.len() && out[k].name == name;
        lemma_record_at(out, k);
        if k != i {
            assert(records[k].name == name);
            lemma_record_at(records, k);
        }
    }
    assert(records_by_name(out) =~= want);
}

proof fn lemma_push_record(records: Seq<StateView>, next: StateView)
    requires
        records_distinct(records),
        !has_record(records, next.name),
    ensures
        records_distinct(records.push(next)),
        records_by_name(records.push(next)) == records_by_name(records).insert(next.name, next),
{
    let out = records.push(next);
    assert(records_distinct(out)) by {
        assert forall|a: int, b: int| 0 <= a < b < out.len() implies out[a].name
            != out[b].name by {
            if b == records.len() {
                assert(records[a].name != next.name);
            }
        }
    }
    let want = records_by_name(records).insert(next.name, next);
    assert forall|name: Seq<char>| records_by_name(out).contains_key(name)
        == want.contains_key(name) by {
        if has_record(out, name) {
            let k = choose|k: int| 0 <= k < out.len() && out[k].name == name;
            if k < records.len() {
                assert(records[k].name == name);
            }
        }
        if has_record(records, name) {
            let k = choose|k: int| 0 <= k < records.len() && records[k].name == name;
            assert(out[k].name == name);
        }
        assert(out[records.len() as int].name == next.name);
    }
    assert forall|name: Seq<char>| records_by_name(out).contains_key(name) implies records_by_name(
        out,
    )[name] == want[name] by {
        let k = choose|k: int| 0 <= k < out.len() && out[k].name == name;
        lemma_record_at(out, k);
        if k < records.len() {
            assert(records[k].name == name);
            lemma_record_at(records, k);
        }
    }
    assert(records_by_name(out) =~= want);
}

/// Reads the clock: calls `std::time::SystemTime::now` and gives the whole
/// seconds since the Unix epoch, or `None` where the clock stands before it.
/// Trusted, with nothing promised of the value.
#[verifier::external_body]
fn clock_seconds() -> Option<u64> {
    match std::time::SystemTime::now().duration_since(std::time::UNIX_EPOCH) {
        Ok(since) => Some(since.as_secs()),
        Err(_) => None,
    }
}

/// The time of the call in seconds since the Unix epoch; 0 where the clock
/// stands before the epoch.
pub fn unix_time_now() -> u64 {
    match clock_seconds() {
        Some(secs) => secs,
        None => 0,
    }
}

/// The health registry.
#[derive(Debug)]
pub struct Services {
    services: Vec<ServiceState>,
}

impl View for Services {
    type V = Map<Seq<char>, StateView>;

    closed spec fn view(&self) -> Map<Seq<char>, StateView> {
        records_by_name(state_views(self.services@))
    }
}

impl Default for Services {
    /// A registry without records.
    fn default() -> (r: Services)
        ensures
            r.wf(),
            r@ == Map::<Seq<char>, StateView>::empty(),
    {
        let r = Services { services: Vec::new() };
        assert(state_views(r.services@) =~= Seq::<StateView>::empty());
        assert(r@ =~= Map::<Seq<char>, StateView>::empty());
        r
    }
}

impl Services {
    /// No two records share a name, and each is kept under its own name.
    pub closed spec fn wf(&self) -> bool {
        records_distinct(state_views(self.services@))
    }

    /// In a valid registry each record is kept under its own name.
    pub proof fn lemma_keys_are_names(&self, name: Seq<char>)
        requires
            self.wf(),
            self@.contains_key(name),
        ensures
            self@[name].name == name,
    {
    }

    /// A registry with blank records, as of `now`, for the gateway, the
    /// launcher and the media service.
    pub fn new_at(now: u64) -> (r: Services)
        ensures
            r.wf(),
            r@ == initial_registry(now),
    {
        let mut services: Vec<ServiceState> = Vec::new();
        let ghost empty = state_views(services@);
        assert(empty =~= Seq::<StateView>::empty());
        assert(records_by_name(empty) =~= Map::<Seq<char>, StateView>::empty());
        proof {
            reveal_strlit("gateway");
            reveal_strlit("launcher");
            reveal_strlit("media");
            assert("gateway"@.len() != "launcher"@.len());
            assert("gateway"@.len() != "media"@.len());
            assert("launcher"@.len() != "media"@.len());
        }
        services.push(
            ServiceState {
                name: String::from_str("gateway"),
                status: ServiceStatus::Unknown,
                last_health_report: now,
                version: String::from_str("Unknown"),
                latest_version: None,
            },
        );
        let ghost one = state_views(services@);
        proof {
            assert(one =~= empty.push(blank_record("gateway"@, now)));
            lemma_push_record(empty, blank_record("gateway"@, now));
        }
        services.push(
            ServiceState {
                name: String::from_str("launcher"),
                status: ServiceStatus::Unknown,
                last_health_report: now,
                version: String::from_str("Unknown"),
                latest_version: None,
            },
        );
        let ghost two = state_views(services@);
        proof {
            assert(two =~= one.push(blank_record("launcher"@, now)));
            assert(!has_record(one, "launcher"@));
            lemma_push_record(one, blank_record("launcher"@, now));
        }
        services.push(
            ServiceState {
                name: String::from_str("media"),
                status: ServiceStatus::Unknown,
                last_health_report: now,
                version: String::from_str("Unknown"),
                latest_version: None,
            },
        );
        proof {
            let three = state_views(services@);
            assert(three =~= two.push(blank_record("media"@, now)));
            assert(!has_record(two, "media"@));
            lemma_push_record(two, blank_record("media"@, now));
        }
        Services { services }
    }

    /// A registry with blank records for the gateway, the launcher and the
    /// media service, as of the time of the call.
    pub fn new() -> (r: Services)
        ensures
            r.wf(),
            exists|now: u64| r@ == initial_registry(now),
    {
        let now = unix_time_now();
        Services::new_at(now)
    }

    /// Where the record called `name` stands.
    fn find(&self, name: &str) -> (r: Option<usize>)
        requires
            self.wf(),
        ensures
            r is Some == self@.contains_key(name@),
            r matches Some(i) ==> i < self.services@.len() && self.services@[i as int]@.name
                == name@ && self@[name@] == self.services@[i as int]@,
    {
        let mut i: usize = 0;
        while i < self.services.len()
            invariant
                i <= self.services.len(),
                self.wf(),
                forall|k: int| 0 <= k < i ==> state_views(self.services@)[k].name != name@,
            decreases self.services.len() - i,
        {
            if same_text(self.services[i].name.as_str(), name) {
                proof {
                    assert(state_views(self.services@)[i as int].name == name@);
                    lemma_record_at(state_views(self.services@), i as int);
                }
                return Some(i);
            }
            i += 1;
        }
        None
    }

    /// Where the record stands under which a report for `name` is kept.
    fn find_for_report(&self, name: &str) -> (r: Option<usize>)
        requires
            self.wf(),
        ensures
            r is Some == self@.contains_key(record_key(self@, name@)),
            r matches Some(i) ==> i < self.services@.len() && self.services@[i as int]@.name
                == record_key(self@, name@) && self@[record_key(self@, name@)]
                == self.services@[i as int]@,
    {
        let lower = to_lowercase(name);
        match self.find(lower.as_str()) {
            Some(i) => Some(i),
            None => self.find(name),
        }
    }

    /// The record called `name`.
    pub fn get(&self, name: &str) -> (r: Option<&ServiceState>)
        requires
            self.wf(),
        ensures
            r is Some == self@.contains_key(name@),
            r matches Some(s) ==> s@ == self@[name@],
    {
        match self.find(name) {
            Some(i) => Some(&self.services[i]),
            None => None,
        }
    }

    /// Merges a report for `name`, taken at time `now`, into the registry:
    /// each given field replaces the stored one and the others stay as they
    /// are. The record counts as refreshed at `now` where a status or a
    /// running version is given; a latest version alone leaves the time of
    /// the last report. A service without a record gets one, as of `now`.
    pub fn set_service_at(
        &mut self,
        name: &str,
        status: Option<ServiceStatus>,
        version: Option<String>,
        latest_version: Option<String>,
        now: u64,
    )
        requires
            old(self).wf(),
        ensures
            final(self).wf(),
            final(self)@ == after_report(
                old(self)@,
                name@,
                status,
                opt_text(version),
                opt_text(latest_version),
                now,
            ),
    {
        let ghost records = state_views(self.services@);
        let ghost key = record_key(self@, name@);
        let ghost version_view = opt_text(version);
        let ghost latest_view = opt_text(latest_version);
        match self.find_for_report(name) {
            Some(i) => {
                let prev = &self.services[i];
                let next = ServiceState {
                    name: prev.name.clone(),
                    status: match status {
                        Some(s) => s,
                        None => prev.status,
                    },
                    last_health_report: if status.is_none() && version.is_none() {
                        prev.last_health_report
                    } else {
                        now
                    },
                    version: match version {
                        Some(v) => v,
                        None => prev.version.clone(),
                    },
                    latest_version: match latest_version {
                        Some(l) => Some(l),
                        None => prev.latest_version.clone(),
                    },
                };
                proof {
                    assert(next@ == merged(records[i as int], status, version_view, latest_view, now));
                    lemma_update_record(records, i as int, next@);
                }
                self.services.set(i, next);
                assert(state_views(self.services@) =~= records.update(i as int, next@));
            },
            None => {
                let next = ServiceState {
                    name: String::from_str(name),
                    status: match status {
                        Some(s) => s,
                        None => ServiceStatus::Unknown,
                    },
                    last_health_report: now,
                    version: match version {
                        Some(v) => v,
                        None => String::from_str("Unknown"),
                    },
                    latest_version,
                };
                proof {
                    assert(key == name@);
                    assert(next@ == merged(
                        blank_record(key, now),
                        status,
                        version_view,
                        latest_view,
                        now,
                    ));
                    lemma_push_record(records, next@);
                }
                self.services.push(next);
                assert(state_views(self.services@) =~= records.push(next@));
            },
        }
    }

    /// Merges a report for `name` into the registry, as of the time of the
    /// call.
    pub fn set_service(
        &mut self,
        name: &str,
        status: Option<ServiceStatus>,
        version: Option<String>,
        latest_version: Option<String>,
    )
        requires
            old(self).wf(),
        ensures
            final(self).wf(),
            exists|now: u64|
                final(self)@ == after_report(
                    old(self)@,
                    name@,
                    status,
                    opt_text(version),
                    opt_text(latest_version),
                    now,
                ),
    {
        let now = unix_time_now();
        self.set_service_at(name, status, version, latest_version, now);
    }

    /// Takes in a health report: the service runs, at `version`, as of `now`.
    pub fn record_health(&mut self, service: &str, version: &str, now: u64)
        requires
            old(self).wf(),
        ensures
            final(self).wf(),
            final(self)@ == after_report(
                old(self)@,
                service@,
                Some(ServiceStatus::Running),
                Some(version@),
                None,
                now,
            ),
    {
        self.set_service_at(
            service,
            Some(ServiceStatus::Running),
            Some(String::from_str(version)),
            None,
            now,
        );
    }

    /// Notes `version` as the newest on offer for `service`. Status, running
    /// version and the time of the last report stay as they are.
    pub fn record_latest_available(&mut self, service: &str, version: &str, now: u64)
        requires
            old(self).wf(),
        ensures
            final(self).wf(),
            final(self)@ == after_announcement(old(self)@, service@, version@, now),
    {
        let ghost records = state_views(self.services@);
        let ghost key = record_key(self@, service@);
        match self.find_for_report(service) {
            Some(i) => {
                let prev = &self.services[i];
                let next = ServiceState {
                    name: prev.name.clone(),
                    status: prev.status,
                    last_health_report: prev.last_health_report,
                    version: prev.version.clone(),
                    latest_version: Some(String::from_str(version)),
                };
                proof {
                    lemma_update_record(records, i as int, next@);
                }
                self.services.set(i, next);
                assert(state_views(self.services@) =~= records.update(i as int, next@));
            },
            None => {
                let next = ServiceState {
                    name: String::from_str(service),
                    status: ServiceStatus::Unknown,
                    last_health_report: now,
                    version: String::from_str("Unknown"),
                    latest_version: Some(String::from_str(version)),
                };
                proof {
                    assert(key == service@);
                    lemma_push_record(records, next@);
                }
                self.services.push(next);
                assert(state_views(self.services@) =~= records.push(next@));
            },
        }
    }

    /// The status of `name` at time `now`: `Unknown` where there is no
    /// record of it or its record is stale, else the stored status.
    pub fn status_of(&self, name: &str, now: u64) -> (r: ServiceStatus)
        requires
            self.wf(),
        ensures
            r == status_at(self@, name@, now),
    {
        match self.find(name) {
            Some(i) => {
                let then = self.services[i].last_health_report;
                if now < then || now - then > STALE_AFTER_SECS {
                    ServiceStatus::Unknown
                } else {
                    self.services[i].status
                }
            },
            None => ServiceStatus::Unknown,
        }
    }

    /// The status of `name` as of the time of the call.
    pub fn get_service_status(&self, name: &str) -> (r: ServiceStatus)
        requires
            self.wf(),
        ensures
            exists|now: u64| r == status_at(self@, name@, now),
    {
        let now = unix_time_now();
        self.status_of(name, now)
    }

    /// A copy of the registry as it stands.
    pub fn snapshot(&self) -> (r: Services)
        requires
            self.wf(),
        ensures
            r.wf(),
            r@ == self@,
    {
        let mut services: Vec<ServiceState> = Vec::new();
        let mut i: usize = 0;
        while i < self.services.len()
            invariant
                i <= self.services.len(),
                services@.len() == i,
                forall|k: int| 0 <= k < i ==> (#[trigger] services@[k])@ == self.services@[k]@,
            decreases self.services.len() - i,
        {
            let s = &self.services[i];
            services.push(
                ServiceState {
                    name: s.name.clone(),
                    status: s.status,
                    last_health_report: s.last_health_report,
                    version: s.version.clone(),
                    latest_version: s.latest_version.clone(),
                },
            );
            i += 1;
        }
        assert(state_views(services@) =~= state_views(self.services@));
        Services { services }
    }

    /// The records, in the order in which they were created.
    pub fn records(&self) -> (r: &Vec<ServiceState>)
        requires
            self.wf(),
        ensures
            records_by_name(state_views(r@)) == self@,
            records_distinct(state_views(r@)),
    {
        &self.services
    }
}

} // verus!
