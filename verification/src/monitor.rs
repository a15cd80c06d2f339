//! Messages from the services: which topic carries a health report, and what
//! a report does to the health registry.

use vstd::prelude::*;
use vstd::string::*;
use crate::registry::{after_report, HealthReport, ServiceStatus, Services};
use crate::text::{chars_of, field, nth_field};

verus! {

/// The topics on which services report their health.
pub const HEALTH_TOPICS: &'static str = "luffy/+/health";

/// The topics on which vehicles send telemetry.
pub const TELEMETRY_TOPICS: &'static str = "+/telemetry";

/// What a message is about.
#[derive(Debug, Clone, PartialEq, Eq)]
pub enum TopicKind {
    /// A health report of `service`.
    Health { service: String },
    /// Telemetry of a vehicle.
    Telemetry,
    /// Neither.
    Unrelated,
}

/// What a message to the vehicle asks for.
#[derive(Debug, Clone, Copy, PartialEq, Eq, Structural)]
pub enum CommandKind {
    /// A command for the vehicle.
    Command,
    /// One update cycle, at once.
    UpdateRequest,
    /// Nothing that concerns the vehicle.
    Unrelated,
}

/// Mathematical value of a [`TopicKind`].
pub enum TopicKindView {
    Health { service: Seq<char> },
    Telemetry,
    Unrelated,
}

impl View for TopicKind {
    type V = TopicKindView;

    open spec fn view(&self) -> TopicKindView {
        match self {
            TopicKind::Health { service } => TopicKindView::Health { service: service@ },
            TopicKind::Telemetry => TopicKindView::Telemetry,
            TopicKind::Unrelated => TopicKindView::Unrelated,
        }
    }
}

/// A topic filter as a shell pattern: each `+` becomes `*`, each `#`
/// becomes `**`.
pub open spec fn glob_form(filter: Seq<char>) -> Seq<char>
    decreases filter.len(),
{
    if filter.len() == 0 {
        Seq::empty()
    } else {
        let before = glob_form(filter.drop_last());
        if filter.last() == '+' {
            before + "*"@
        } else if filter.last() == '#' {
            before + "**"@
        } else {
            before.push(filter.last())
        }
    }
}

/// The service that a health topic names: its second level, or `unknown`
/// where it has none.
pub open spec fn service_in(topic: Seq<char>) -> Seq<char> {
    match nth_field(topic, '/', 1) {
        Some(service) => service,
        None => "unknown"@,
    }
}

/// What a message on `topic` is about, given whether the topic matches the
/// health filter and whether it matches the telemetry filter.
pub open spec fn kind_of(is_health: bool, is_telemetry: bool, topic: Seq<char>) -> TopicKindView {
    if is_health {
        TopicKindView::Health { service: service_in(topic) }
    } else if is_telemetry {
        TopicKindView::Telemetry
    } else {
        TopicKindView::Unrelated
    }
}

/// The topic on which an update of the vehicle `vehicle_id` is asked for.
pub open spec fn request_topic_of(vehicle_id: Seq<char>) -> Seq<char> {
    vehicle_id + "/ota/request"@
}

/// Whether a request to update `service` is one for the launcher itself,
/// which does not update itself but asks for it on the request topic.
pub open spec fn is_self_update(service: Seq<char>) -> bool {
    crate::text::lowercase(service) == "launcher"@
}

/// What a message on `topic` asks of the vehicle `vehicle_id`: topics under
/// `<vehicle>/command/` carry commands, topics that begin with
/// `<vehicle>/ota/request` ask for an update.
pub open spec fn command_on(vehicle_id: Seq<char>, topic: Seq<char>) -> CommandKind {
    if (vehicle_id + "/command/"@).is_prefix_of(topic) {
        CommandKind::Command
    } else if request_topic_of(vehicle_id).is_prefix_of(topic) {
        CommandKind::UpdateRequest
    } else {
        CommandKind::Unrelated
    }
}

/// Compiles `pattern` with `glob::Pattern::new` and asks `Pattern::matches`
/// for `text`; `None` where the pattern does not compile. Trusted, with
/// nothing promised of the answer: on some hosts the match treats different
/// path separators alike.
#[verifier::external_body]
fn glob_accepts(pattern: &str, text: &str) -> Option<bool> {
    match glob::Pattern::new(pattern) {
        Ok(compiled) => Some(compiled.matches(text)),
        Err(_) => None,
    }
}

/// The topic filter `filter` as a shell pattern.
pub fn glob_pattern(filter: &str) -> (r: String)
    ensures
        r@ == glob_form(filter@),
{
    let chars = chars_of(filter);
    let mut out = String::new();
    let mut i: usize = 0;
    assert(filter@.take(0) =~= Seq::<char>::empty());
    while i < chars.len()
        invariant
            i <= chars@.len(),
            chars@ == filter@,
            out@ == glob_form(filter@.take(i as int)),
        decreases chars@.len() - i,
    {
        proof {
            let upto = filter@.take(i + 1);
            assert(upto.drop_last() == filter@.take(i as int));
            assert(upto.last() == filter@[i as int]);
        }
        if chars[i] == '+' {
            out.append("*");
        } else if chars[i] == '#' {
            out.append("**");
        } else {
            let piece = filter.substring_char(i, i + 1);
            assert(piece@ =~= seq![filter@[i as int]]);
            let ghost before = out@;
            out.append(piece);
            assert(out@ =~= before.push(filter@[i as int]));
        }
        i += 1;
    }
    assert(filter@.take(filter@.len() as int) == filter@);
    out
}

/// Whether `topic` matches the topic filter `pattern`, as the `glob` crate
/// decides it for the filter's shell pattern; `None` where that pattern
/// does not compile.
pub fn glob_match(pattern: &str, topic: &str) -> Option<bool> {
    let shell = glob_pattern(pattern);
    glob_accepts(shell.as_str(), topic)
}

/// What a message on `topic` is about, given whether the topic matches the
/// health filter and whether it matches the telemetry filter.
pub fn topic_kind(is_health: bool, is_telemetry: bool, topic: &str) -> (r: TopicKind)
    ensures
        r@ == kind_of(is_health, is_telemetry, topic@),
{
    if is_health {
        let service = match field(topic, '/', 1) {
            Some(s) => s,
            None => String::from_str("unknown"),
        };
        TopicKind::Health { service }
    } else if is_telemetry {
        TopicKind::Telemetry
    } else {
        TopicKind::Unrelated
    }
}

/// What a message on `topic` is about. The two filters are matched by the
/// `glob` crate; what follows from its answers is [`kind_of`].
pub fn classify_topic(topic: &str) -> (r: TopicKind)
    ensures
        exists|is_health: bool, is_telemetry: bool|
            r@ == kind_of(is_health, is_telemetry, topic@),
{
    let is_health = match glob_match(HEALTH_TOPICS, topic) {
        Some(b) => b,
        None => false,
    };
    let is_telemetry = match glob_match(TELEMETRY_TOPICS, topic) {
        Some(b) => b,
        None => false,
    };
    topic_kind(is_health, is_telemetry, topic)
}

/// The topic on which an update of the vehicle `vehicle_id` is asked for.
pub fn update_request_topic(vehicle_id: &str) -> (r: String)
    ensures
        r@ == request_topic_of(vehicle_id@),
{
    String::from_str(vehicle_id).concat("/ota/request")
}

/// What a message on `topic` asks of the vehicle `vehicle_id`.
pub fn handle_command(vehicle_id: &str, topic: &str) -> (r: CommandKind)
    ensures
        r == command_on(vehicle_id@, topic@),
{
    let commands = String::from_str(vehicle_id).concat("/command/");
    let request = update_request_topic(vehicle_id);
    if crate::text::starts_with(topic, commands.as_str()) {
        CommandKind::Command
    } else if crate::text::starts_with(topic, request.as_str()) {
        CommandKind::UpdateRequest
    } else {
        CommandKind::Unrelated
    }
}

/// Whether a request to update `service` is one for the launcher itself.
pub fn requests_self_update(service: &str) -> (r: bool)
    ensures
        r == is_self_update(service@),
{
    let lower = crate::text::to_lowercase(service);
    crate::text::same_text(lower.as_str(), "launcher")
}

/// Takes in the health report that arrived on `topic` at time `now`: the
/// service that the topic names runs, at the reported version.
pub fn handle_health_report(services: &mut Services, topic: &str, report: &HealthReport, now: u64)
    requires
        old(services).wf(),
    ensures
        final(services).wf(),
        final(services)@ == after_report(
            old(services)@,
            service_in(topic@),
            Some(ServiceStatus::Running),
            Some(report.version@),
            None,
            now,
        ),
{
    let service = match field(topic, '/', 1) {
        Some(s) => s,
        None => String::from_str("unknown"),
    };
    services.record_health(service.as_str(), report.version.as_str(), now);
}

} // verus!
