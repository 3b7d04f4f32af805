//! What an agent reports, and where.

use crate::config::Config;
use crate::registry::{capability_views, Capability};
use crate::text::{chars_of, push_str, string_of};
use vstd::prelude::*;
use vstd::string::StringExecFns;

verus! {

/// The path under which an agent registers.
pub const REGISTER_PATH: &'static str = "/api/agents/register";

/// A kind of batch that an agent reports.
#[derive(Clone, Copy, Debug, PartialEq, Eq, Structural)]
pub enum ReportKind {
    Metrics,
    Logs,
    Traces,
    Processes,
    Health,
    HttpCalls,
    DatabaseQueries,
}

/// The path under which batches of `kind` are taken.
pub open spec fn route_of(kind: ReportKind) -> Seq<char> {
    match kind {
        ReportKind::Metrics => "/api/agents/metrics"@,
        ReportKind::Logs => "/api/agents/logs"@,
        ReportKind::Traces => "/api/agents/traces"@,
        ReportKind::Processes => "/api/agents/processes"@,
        ReportKind::Health => "/api/agents/health"@,
        ReportKind::HttpCalls => "/api/agents/http-calls"@,
        ReportKind::DatabaseQueries => "/api/agents/database-queries"@,
    }
}

/// The path under which batches of `kind` are taken.
pub fn route(kind: ReportKind) -> (r: &'static str)
    ensures
        r@ == route_of(kind),
{
    match kind {
        ReportKind::Metrics => "/api/agents/metrics",
        ReportKind::Logs => "/api/agents/logs",
        ReportKind::Traces => "/api/agents/traces",
        ReportKind::Processes => "/api/agents/processes",
        ReportKind::Health => "/api/agents/health",
        ReportKind::HttpCalls => "/api/agents/http-calls",
        ReportKind::DatabaseQueries => "/api/agents/database-queries",
    }
}

/// The address under which the server at `server_url` takes batches of
/// `kind`.
pub fn report_url(server_url: &str, kind: ReportKind) -> (r: String)
    ensures
        r@ == server_url@ + route_of(kind),
{
    let mut out: Vec<char> = chars_of(server_url);
    push_str(&mut out, route(kind));
    string_of(&out)
}

/// The address under which the server at `server_url` registers agents.
pub fn register_url(server_url: &str) -> (r: String)
    ensures
        r@ == server_url@ + REGISTER_PATH@,
{
    let mut out: Vec<char> = chars_of(server_url);
    push_str(&mut out, REGISTER_PATH);
    string_of(&out)
}

/// The capabilities that an agent with the configuration `config` announces
/// when it registers.
pub fn register_agent(config: &Config) -> (r: Vec<Capability>)
    ensures
        capability_views(r@) == seq![
            ("metrics"@, config.collection.metrics),
            ("logs"@, config.collection.logs),
            ("traces"@, config.collection.traces),
            ("processes"@, config.collection.processes),
            ("health"@, config.collection.health),
            ("docker"@, config.collection.docker),
        ],
{
    let mut r: Vec<Capability> = Vec::new();
    r.push(Capability { name: String::from_str("metrics"), enabled: config.collection.metrics });
    r.push(Capability { name: String::from_str("logs"), enabled: config.collection.logs });
    r.push(Capability { name: String::from_str("traces"), enabled: config.collection.traces });
    r.push(
        Capability { name: String::from_str("processes"), enabled: config.collection.processes },
    );
    r.push(Capability { name: String::from_str("health"), enabled: config.collection.health });
    r.push(Capability { name: String::from_str("docker"), enabled: config.collection.docker });
    proof {
        assert(capability_views(r@) =~= seq![
            ("metrics"@, config.collection.metrics),
            ("logs"@, config.collection.logs),
            ("traces"@, config.collection.traces),
            ("processes"@, config.collection.processes),
            ("health"@, config.collection.health),
            ("docker"@, config.collection.docker),
        ]);
    }
    r
}

/// The kinds of batch that are sent in one report, in the order in which
/// they are sent: a kind is sent where the configuration enables it and its
/// batch holds something.
pub open spec fn kinds_to_send(
    config: Config,
    metrics: nat,
    logs: nat,
    traces: nat,
    processes: nat,
    health: nat,
) -> Seq<ReportKind> {
    (if config.collection.metrics && metrics > 0 {
        seq![ReportKind::Metrics]
    } else {
        Seq::<ReportKind>::empty()
    }) + (if config.collection.logs && logs > 0 {
        seq![ReportKind::Logs]
    } else {
        Seq::<ReportKind>::empty()
    }) + (if config.collection.traces && traces > 0 {
        seq![ReportKind::Traces]
    } else {
        Seq::<ReportKind>::empty()
    }) + (if config.collection.processes && processes > 0 {
        seq![ReportKind::Processes]
    } else {
        Seq::<ReportKind>::empty()
    }) + (if config.collection.health && health > 0 {
        seq![ReportKind::Health]
    } else {
        Seq::<ReportKind>::empty()
    })
}

/// The kinds of batch that are sent in one report of batches with these
/// numbers of records.
pub fn send_comprehensive_data(
    config: &Config,
    metrics: usize,
    logs: usize,
    traces: usize,
    processes: usize,
    health_data: usize,
) -> (r: Vec<ReportKind>)
    ensures
        r@ == kinds_to_send(
            *config,
            metrics as nat,
            logs as nat,
            traces as nat,
            processes as nat,
            health_data as nat,
        ),
{
    let mut r: Vec<ReportKind> = Vec::new();
    if config.collection.metrics && metrics > 0 {
        r.push(ReportKind::Metrics);
    }
    if config.collection.logs && logs > 0 {
        r.push(ReportKind::Logs);
    }
    if config.collection.traces && traces > 0 {
        r.push(ReportKind::Traces);
    }
    if config.collection.processes && processes > 0 {
        r.push(ReportKind::Processes);
    }
    if config.collection.health && health_data > 0 {
        r.push(ReportKind::Health);
    }
    proof {
        assert(r@ =~= kinds_to_send(
            *config,
            metrics as nat,
            logs as nat,
            traces as nat,
            processes as nat,
            health_data as nat,
        ));
    }
    r
}

} // verus!
