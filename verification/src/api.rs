//! The HTTP side of ingestion and the read side: what each route does with
//! the records it is given and with the stores it reads.

use crate::decimal::Decimal;
use crate::events::{
    copy_logs, copy_metrics, copy_traces, metric_views, DatabaseQueryData,
    HealthData, HttpCallData, LogData, LogEvent, LogEventView, MetricData, MetricEvent,
    MetricEventView, ProcessData, TraceData, TraceEvent,
};
use crate::gemma_ai::{
    analysed, answering_backend, AIInsight, AnomalyContext, AnomalyContextView, GemmaAI,
};
use crate::log_humanizer::{humanized, reply_for, HumanizedLog, LogHumanizer, ModelReply};
use crate::ml::{
    anomaly_views, context_of, filled, is_cpu_alarm, metric_anomaly, reply_at, Anomaly,
    AnomalyEngine,
    AnomalyView, ANOMALY_CAPACITY, EVENT_CAPACITY,
};
use crate::opensearch::IndexKind;
use crate::registry::{
    agent_views, announced, registered, Agent, AgentRegistry, AgentView, RawCapability,
    UNKNOWN_AGENT,
};
use crate::reporter::{route_of, ReportKind};
use crate::store::{keep_last, lemma_keep_last_map, BoundedStore};
use crate::text::{decimal, push_decimal, push_str, same_text, string_of, views};
use vstd::prelude::*;
use vstd::string::StringExecFns;

verus! {

/// The number of metric samples that are kept.
pub const METRIC_CAPACITY: usize = 1000;

/// The number of log records that are kept.
pub const LOG_CAPACITY: usize = 1000;

/// The number of trace spans that are kept.
pub const TRACE_CAPACITY: usize = 1000;

/// The number of process snapshots that are kept.
pub const PROCESS_CAPACITY: usize = 500;

/// The number of health check results that are kept.
pub const HEALTH_CAPACITY: usize = 200;

/// The number of HTTP call samples that are kept.
pub const HTTP_CALL_CAPACITY: usize = 1000;

/// The number of database query samples that are kept.
pub const DB_QUERY_CAPACITY: usize = 1000;

/// The number of log hits that a search returns where the query names none.
pub const DEFAULT_SEARCH_SIZE: usize = 50;

/// The timestamp of a record whose time cannot be written as a date.
pub const EPOCH_TEXT: &'static str = "1970-01-01T00:00:00+00:00";

/// The answer to a record that was taken for a topic.
pub const INGESTED_MESSAGE: &'static str = "Data ingested successfully";

/// The RFC 3339 text of the UTC time that lies `secs` seconds after the
/// start of 1970; `None` where the date is out of range.
pub uninterp spec fn rfc3339_utc(secs: int) -> Option<Seq<char>>;

/// `chrono::DateTime::from_timestamp` with no nanoseconds, then
/// `chrono::DateTime::to_rfc3339` on the time it gives: the RFC 3339 text of
/// the UTC time at that many seconds after the start of 1970, or `None`
/// where `from_timestamp` refuses the number as out of range.
#[verifier::external_body]
fn format_unix_seconds(secs: i64) -> (r: Option<String>)
    ensures
        match r {
            Some(s) => rfc3339_utc(secs as int) == Some(s@),
            None => rfc3339_utc(secs as int) is None,
        },
{
    match chrono::DateTime::from_timestamp(secs, 0) {
        Some(t) => Some(t.to_rfc3339()),
        None => None,
    }
}

/// The parameters of a log search.
#[derive(Debug, PartialEq, Eq)]
pub struct LogQuery {
    pub q: Option<String>,
    pub from: Option<usize>,
    pub size: Option<usize>,
}

/// What is asked of the index for a log search.
#[derive(Debug, PartialEq, Eq)]
pub struct LogSearch {
    pub agent: String,
    pub text: String,
    pub offset: usize,
    pub size: usize,
}

/// The envelope of an answer.
#[derive(Debug, PartialEq, Eq)]
pub struct ApiResponse<T> {
    pub success: bool,
    pub data: T,
}

impl<T> ApiResponse<T> {
    /// The envelope of a successful answer with `data`.
    pub fn ok(data: T) -> (r: Self)
        ensures
            r.success,
            r.data == data,
    {
        ApiResponse { success: true, data }
    }
}

/// The body of a request for the explanation of a log message.
#[derive(Debug, PartialEq, Eq)]
pub struct HumanizeRequest {
    pub log_message: String,
}

/// The figures of the overview.
#[derive(Debug, PartialEq, Eq)]
pub struct MetricsSummary {
    pub total_logs: u64,
    pub error_rate: Decimal,
    pub avg_response_time: Decimal,
    pub active_services: u64,
    pub anomalies_detected: usize,
}

/// The seconds that a timestamp means when it is read as a signed number of
/// 64 bits.
pub open spec fn signed_seconds(timestamp: u64) -> int {
    if timestamp <= i64::MAX {
        timestamp as int
    } else {
        timestamp - 0x1_0000_0000_0000_0000
    }
}

/// The timestamp of a canonical log event for a record of the time
/// `timestamp`: its RFC 3339 text, or that of the start of 1970 where the
/// time cannot be written as a date.
pub open spec fn event_time(timestamp: u64) -> Seq<char> {
    match rfc3339_utc(signed_seconds(timestamp)) {
        Some(t) => t,
        None => EPOCH_TEXT@,
    }
}

/// The canonical form of a pushed log record: the agent is its service, and
/// its source is `agent`.
pub open spec fn canonical_log(log: LogData) -> LogEventView {
    LogEventView {
        timestamp: event_time(log.timestamp),
        level: log.level@,
        message: log.message@,
        service: log.agent_id@,
        agent_id: log.agent_id@,
        trace_id: None,
        source: "agent"@,
    }
}

/// What a list of log events holds.
pub open spec fn event_views(events: Seq<LogEvent>) -> Seq<LogEventView> {
    events.map_values(|e: LogEvent| e@)
}

/// The canonical forms of pushed log records.
pub open spec fn canonical_logs(logs: Seq<LogData>) -> Seq<LogEventView> {
    logs.map_values(|l: LogData| canonical_log(l))
}

/// The timestamp text of a record of the time `timestamp`, given the text
/// `formatted` of that time where it can be written as a date.
pub fn timestamp_text(formatted: Option<String>) -> (r: String)
    ensures
        r@ == match formatted {
            Some(t) => t@,
            None => EPOCH_TEXT@,
        },
{
    match formatted {
        Some(t) => t,
        None => String::from_str(EPOCH_TEXT),
    }
}

/// The seconds that `timestamp` means when it is read as a signed number of
/// 64 bits.
pub fn signed(timestamp: u64) -> (secs: i64)
    ensures
        secs as int == signed_seconds(timestamp),
{
    if timestamp <= i64::MAX as u64 {
        timestamp as i64
    } else {
        ((timestamp - 0x8000_0000_0000_0000) as i64) + i64::MIN
    }
}

/// The canonical form of the pushed log record `log`.
pub fn log_event_of(log: &LogData) -> (r: LogEvent)
    ensures
        r@ == canonical_log(*log),
{
    LogEvent {
        timestamp: timestamp_text(format_unix_seconds(signed(log.timestamp))),
        level: log.level.clone(),
        message: log.message.clone(),
        service: log.agent_id.clone(),
        agent_id: log.agent_id.clone(),
        trace_id: None,
        source: String::from_str("agent"),
    }
}

/// The canonical form of a pushed metric sample; it names no unit.
pub open spec fn canonical_metric(m: MetricData) -> MetricEventView {
    MetricEventView {
        timestamp: event_time(m.timestamp),
        agent_id: m.agent_id@,
        metric_type: m.metric_type@,
        value: m.value.milli as int,
        unit: Seq::empty(),
        labels: m.labels@,
    }
}

/// The canonical form of the pushed metric sample `metric`.
pub fn metric_event_of(metric: &MetricData) -> (r: MetricEvent)
    ensures
        r@ == canonical_metric(*metric),
{
    MetricEvent {
        timestamp: timestamp_text(format_unix_seconds(signed(metric.timestamp))),
        agent_id: metric.agent_id.clone(),
        metric_type: metric.metric_type.clone(),
        value: metric.value,
        unit: String::new(),
        labels: metric.labels.clone(),
    }
}

/// The canonical form of the pushed trace span `trace`: the span with its
/// time written as a date.
pub fn trace_event_of(trace: &TraceData) -> (r: TraceEvent)
    ensures
        is_canonical_trace(r, *trace),
{
    TraceEvent {
        timestamp: timestamp_text(format_unix_seconds(signed(trace.timestamp))),
        agent_id: trace.agent_id.clone(),
        trace_id: trace.trace_id.clone(),
        span_id: trace.span_id.clone(),
        operation: trace.operation.clone(),
        duration_ms: trace.duration_ms,
        status: trace.status.clone(),
    }
}

/// The canonical forms of the pushed log records `logs`, in their order.
pub fn normalize_logs(logs: &Vec<LogData>) -> (r: Vec<LogEvent>)
    ensures
        event_views(r@) == canonical_logs(logs@),
{
    let mut r: Vec<LogEvent> = Vec::new();
    let mut i: usize = 0;
    while i < logs.len()
        invariant
            i <= logs.len(),
            r@.len() == i,
            forall|k: int| 0 <= k < i ==> (#[trigger] r@[k])@ == canonical_log(logs@[k]),
        decreases logs.len() - i,
    {
        r.push(log_event_of(&logs[i]));
        i += 1;
    }
    proof {
        assert(event_views(r@) =~= canonical_logs(logs@));
    }
    r
}

/// Takes each of `events` into the buffer of `engine`, in their order.
pub fn analyze_events(engine: &mut AnomalyEngine, events: &Vec<LogEvent>)
    ensures
        final(engine).buffer() == keep_last(old(engine).buffer() + events@, EVENT_CAPACITY as nat),
        final(engine).recorded() == old(engine).recorded(),
{
    engine.analyze_events(events);
}

/// The records of a batch that could be read, in their order.
pub open spec fn readable<T>(batch: Seq<Option<T>>) -> Seq<T> {
    batch.filter_map(|r: Option<T>| r)
}

/// The records of `batch` that could be read, in their order: a record that
/// could not be read (`None`) is dropped, and the rest of the batch stays.
pub fn accept_records<T>(batch: Vec<Option<T>>) -> (r: Vec<T>)
    ensures
        r@ == readable(batch@),
{
    let mut r: Vec<T> = Vec::new();
    let ghost all = batch@;
    proof {
        assert(all.take(0) =~= Seq::<Option<T>>::empty());
    }
    for record in it: batch
        invariant
            it.seq() == all,
            r@ == readable(all.take(it.index() as int)),
    {
        proof {
            assert(all.take(it.index() + 1).drop_last() =~= all.take(it.index() as int));
            assert(all.take(it.index() + 1).last() == record);
        }
        match record {
            Some(item) => {
                r.push(item);
            },
            None => {},
        }
    }
    proof {
        assert(all.take(all.len() as int) =~= all);
    }
    r
}

/// Takes the batch `batch` into `store` and says how many records came.
pub fn receive<T>(store: &mut BoundedStore<T>, batch: Vec<T>) -> (count: usize)
    ensures
        count == batch@.len(),
        final(store)@ == keep_last(old(store)@ + batch@, old(store).limit()),
        final(store).limit() == old(store).limit(),
{
    let count: usize = batch.len();
    store.extend(batch);
    count
}

/// The canonical forms of pushed metric samples.
pub open spec fn canonical_metrics(metrics: Seq<MetricData>) -> Seq<MetricEventView> {
    metrics.map_values(|m: MetricData| canonical_metric(m))
}

/// The canonical forms of the pushed metric samples `metrics`, in their
/// order.
pub fn normalize_metrics(metrics: &Vec<MetricData>) -> (r: Vec<MetricEvent>)
    ensures
        metric_views(r@) == canonical_metrics(metrics@),
{
    let mut r: Vec<MetricEvent> = Vec::new();
    let mut i: usize = 0;
    while i < metrics.len()
        invariant
            i <= metrics.len(),
            r@.len() == i,
            forall|k: int| 0 <= k < i ==> (#[trigger] r@[k])@ == canonical_metric(metrics@[k]),
        decreases metrics.len() - i,
    {
        r.push(metric_event_of(&metrics[i]));
        i += 1;
    }
    proof {
        assert(metric_views(r@) =~= canonical_metrics(metrics@));
    }
    r
}

/// The anomalies on record after each of `metrics` was examined in turn,
/// where `start` were on record before, `buf` is the buffer of log events,
/// and `replies` holds, at the index of a sample, what the inference engine
/// printed for it: each CPU reading above 90 adds its anomaly, and any other
/// sample adds nothing.
pub open spec fn recorded_after(
    start: Seq<AnomalyView>,
    buf: Seq<LogEvent>,
    configured: bool,
    metrics: Seq<MetricEvent>,
    replies: Seq<Option<String>>,
    now: Seq<char>,
) -> Seq<AnomalyView>
    decreases metrics.len(),
{
    if metrics.len() == 0 {
        start
    } else {
        let before = recorded_after(start, buf, configured, metrics.drop_last(), replies, now);
        let m = metrics.last();
        let reply = reply_at(replies, metrics.len() - 1);
        if is_cpu_alarm(m) {
            keep_last(
                before.push(
                    metric_anomaly(
                        m@,
                        analysed(
                            configured,
                            reply,
                            context_of(buf, m.agent_id@, m.value.milli as int),
                        ),
                        answering_backend(configured, reply),
                        now,
                    ),
                ),
                ANOMALY_CAPACITY as nat,
            )
        } else {
            before
        }
    }
}

/// Hands each of `metrics` to the anomaly engine, in their order. `replies`
/// holds, at the index of a sample, what the inference engine printed for
/// it, or `None`.
pub fn analyze_metrics(
    engine: &mut AnomalyEngine,
    gemma: &GemmaAI,
    metrics: &Vec<MetricEvent>,
    replies: &Vec<Option<String>>,
    now: &str,
)
    ensures
        final(engine).buffer() == old(engine).buffer(),
        anomaly_views(final(engine).recorded()) == recorded_after(
            anomaly_views(old(engine).recorded()),
            old(engine).buffer(),
            gemma.model() is Some,
            metrics@,
            replies@,
            now@,
        ),
{
    let ghost start = anomaly_views(engine.recorded());
    let ghost buf = engine.buffer();
    let mut i: usize = 0;
    proof {
        assert(metrics@.take(0) =~= Seq::<MetricEvent>::empty());
    }
    while i < metrics.len()
        invariant
            i <= metrics.len(),
            engine.buffer() == buf,
            anomaly_views(engine.recorded()) == recorded_after(
                start,
                buf,
                gemma.model() is Some,
                metrics@.take(i as int),
                replies@,
                now@,
            ),
        decreases metrics.len() - i,
    {
        proof {
            assert(metrics@.take(i + 1).drop_last() =~= metrics@.take(i as int));
            assert(metrics@.take(i + 1).last() == metrics@[i as int]);
        }
        let reply: Option<&str> = if i < replies.len() {
            match &replies[i] {
                Some(t) => Some(t.as_str()),
                None => None,
            }
        } else {
            None
        };
        engine.analyze_metric(gemma, &metrics[i], reply, now);
        i += 1;
    }
    proof {
        assert(metrics@.take(metrics.len() as int) =~= metrics@);
    }
}

/// Takes a batch of metric samples: each is handed, in canonical form, to
/// the anomaly engine, which records a CPU reading above 90 as an anomaly,
/// and goes in that form into the store of metrics. `replies` holds, at the
/// index of a sample, what the inference engine printed for it, or `None`.
/// Gives the canonical forms back, for the index.
pub fn receive_agent_metrics(
    store: &mut BoundedStore<MetricEvent>,
    engine: &mut AnomalyEngine,
    gemma: &GemmaAI,
    metrics: Vec<MetricData>,
    replies: &Vec<Option<String>>,
    now: &str,
) -> (events: Vec<MetricEvent>)
    ensures
        metric_views(events@) == canonical_metrics(metrics@),
        final(engine).buffer() == old(engine).buffer(),
        anomaly_views(final(engine).recorded()) == recorded_after(
            anomaly_views(old(engine).recorded()),
            old(engine).buffer(),
            gemma.model() is Some,
            events@,
            replies@,
            now@,
        ),
        metric_views(final(store)@) == keep_last(
            metric_views(old(store)@) + canonical_metrics(metrics@),
            old(store).limit(),
        ),
        final(store).limit() == old(store).limit(),
{
    let events = normalize_metrics(&metrics);
    analyze_metrics(engine, gemma, &events, replies, now);
    let copies = copy_metrics(&events);
    proof {
        lemma_keep_last_map(store@, copies@, |m: MetricEvent| m@, store.limit());
    }
    store.extend(copies);
    events
}

/// Takes a batch of log records: each goes, in canonical form, into the
/// buffer of the anomaly engine and into the store of logs. Gives the
/// canonical forms back, for the index.
pub fn receive_agent_logs(
    store: &mut BoundedStore<LogEvent>,
    engine: &mut AnomalyEngine,
    logs: Vec<LogData>,
) -> (events: Vec<LogEvent>)
    ensures
        event_views(events@) == canonical_logs(logs@),
        final(engine).buffer() == keep_last(old(engine).buffer() + events@, EVENT_CAPACITY as nat),
        final(engine).recorded() == old(engine).recorded(),
        final(store)@ == keep_last(old(store)@ + events@, old(store).limit()),
        final(store).limit() == old(store).limit(),
{
    let events = normalize_logs(&logs);
    analyze_events(engine, &events);
    store.extend(copy_logs(&events));
    events
}

/// The span `e` is the canonical form of the pushed span `t`: the span with
/// its time written as a date.
pub open spec fn is_canonical_trace(e: TraceEvent, t: TraceData) -> bool {
    &&& e.timestamp@ == event_time(t.timestamp)
    &&& e.agent_id == t.agent_id
    &&& e.trace_id == t.trace_id
    &&& e.span_id == t.span_id
    &&& e.operation == t.operation
    &&& e.duration_ms == t.duration_ms
    &&& e.status == t.status
}

/// The canonical forms of the pushed trace spans `traces`, in their order.
pub fn normalize_traces(traces: &Vec<TraceData>) -> (r: Vec<TraceEvent>)
    ensures
        r@.len() == traces@.len(),
        forall|k: int| 0 <= k < r@.len() ==> is_canonical_trace(#[trigger] r@[k], traces@[k]),
{
    let mut r: Vec<TraceEvent> = Vec::new();
    let mut i: usize = 0;
    while i < traces.len()
        invariant
            i <= traces.len(),
            r@.len() == i,
            forall|k: int| 0 <= k < i ==> is_canonical_trace(#[trigger] r@[k], traces@[k]),
        decreases traces.len() - i,
    {
        r.push(trace_event_of(&traces[i]));
        i += 1;
    }
    r
}

/// Takes a batch of trace spans: each goes, in canonical form, into the
/// store of traces. Gives the canonical forms back, for the index.
pub fn receive_agent_traces(
    store: &mut BoundedStore<TraceEvent>,
    traces: Vec<TraceData>,
) -> (events: Vec<TraceEvent>)
    ensures
        events@.len() == traces@.len(),
        forall|k: int|
            0 <= k < events@.len() ==> is_canonical_trace(#[trigger] events@[k], traces@[k]),
        final(store)@ == keep_last(old(store)@ + events@, old(store).limit()),
        final(store).limit() == old(store).limit(),
{
    let events = normalize_traces(&traces);
    store.extend(copy_traces(&events));
    events
}

/// Takes a batch of process snapshots into their store.
pub fn receive_agent_processes(store: &mut BoundedStore<ProcessData>, processes: Vec<ProcessData>)
    -> (count: usize)
    ensures
        count == processes@.len(),
        final(store)@ == keep_last(old(store)@ + processes@, old(store).limit()),
        final(store).limit() == old(store).limit(),
{
    receive(store, processes)
}

/// Takes a batch of health check results into their store.
pub fn receive_agent_health(
    store: &mut BoundedStore<HealthData>,
    health_data: Vec<HealthData>,
) -> (count: usize)
    ensures
        count == health_data@.len(),
        final(store)@ == keep_last(old(store)@ + health_data@, old(store).limit()),
        final(store).limit() == old(store).limit(),
{
    receive(store, health_data)
}

/// The text that acknowledges `count` records of the kind `what`.
pub open spec fn receipt_text(count: nat, what: Seq<char>) -> Seq<char> {
    "Received "@ + decimal(count) + " "@ + what
}

/// The text that acknowledges `count` records of the kind `what`.
pub fn receipt(count: usize, what: &str) -> (r: String)
    ensures
        r@ == receipt_text(count as nat, what@),
{
    let mut out: Vec<char> = Vec::new();
    push_str(&mut out, "Received ");
    push_decimal(&mut out, count as u128);
    push_str(&mut out, " ");
    push_str(&mut out, what);
    string_of(&out)
}

/// Takes a batch of HTTP call samples into their store and acknowledges it.
pub fn receive_http_calls(store: &mut BoundedStore<HttpCallData>, http_calls: Vec<HttpCallData>)
    -> (message: String)
    ensures
        message@ == receipt_text(http_calls@.len(), "HTTP calls"@),
        final(store)@ == keep_last(old(store)@ + http_calls@, old(store).limit()),
        final(store).limit() == old(store).limit(),
{
    let count = receive(store, http_calls);
    receipt(count, "HTTP calls")
}

/// Takes a batch of database query samples into their store and
/// acknowledges it.
pub fn receive_database_queries(
    store: &mut BoundedStore<DatabaseQueryData>,
    db_queries: Vec<DatabaseQueryData>,
) -> (message: String)
    ensures
        message@ == receipt_text(db_queries@.len(), "database queries"@),
        final(store)@ == keep_last(old(store)@ + db_queries@, old(store).limit()),
        final(store).limit() == old(store).limit(),
{
    let count = receive(store, db_queries);
    receipt(count, "database queries")
}

/// The process snapshots that are kept, oldest first.
pub fn get_processes(store: &BoundedStore<ProcessData>) -> (r: ApiResponse<Vec<ProcessData>>)
    ensures
        r.success,
        r.data@ == store@,
{
    let data = store.snapshot();
    ApiResponse::ok(data)
}

/// The health check results that are kept, oldest first.
pub fn get_health_status(store: &BoundedStore<HealthData>) -> (r: ApiResponse<Vec<HealthData>>)
    ensures
        r.success,
        r.data@ == store@,
{
    let data = store.snapshot();
    ApiResponse::ok(data)
}

/// The HTTP call samples that are kept, oldest first.
pub fn get_http_calls(store: &BoundedStore<HttpCallData>) -> (r: ApiResponse<Vec<HttpCallData>>)
    ensures
        r.success,
        r.data@ == store@,
{
    let data = store.snapshot();
    ApiResponse::ok(data)
}

/// The database query samples that are kept, oldest first.
pub fn get_database_queries(store: &BoundedStore<DatabaseQueryData>) -> (r: ApiResponse<
    Vec<DatabaseQueryData>,
>)
    ensures
        r.success,
        r.data@ == store@,
{
    let data = store.snapshot();
    ApiResponse::ok(data)
}

/// The agents that are registered.
pub fn get_agents(registry: &AgentRegistry) -> (r: ApiResponse<Vec<Agent>>)
    ensures
        r.success,
        agent_views(r.data@) == registry@,
{
    ApiResponse::ok(registry.get_agents())
}

/// Registers an agent; see `AgentRegistry::register`.
pub fn register_agent(
    registry: &mut AgentRegistry,
    name: Option<String>,
    capabilities: Option<Vec<RawCapability>>,
    now: &str,
)
    ensures
        final(registry)@ == registered(
            old(registry)@,
            AgentView {
                name: match name {
                    Some(n) => n@,
                    None => UNKNOWN_AGENT@,
                },
                last_seen: now@,
                capabilities: match capabilities {
                    Some(raw) => announced(raw@),
                    None => Seq::empty(),
                },
            },
        ),
{
    registry.register(name, capabilities, now);
}

/// The anomalies that are kept, oldest first, each with its explanation:
/// an explanation that is missing is filled first and stays on the record.
/// `replies` holds what the model replied about the messages of
/// `AnomalyEngine::pending_messages` that it had to be asked about.
pub fn get_anomalies(
    engine: &mut AnomalyEngine,
    humanizer: &LogHumanizer,
    replies: &Vec<ModelReply>,
) -> (r: ApiResponse<Vec<Anomaly>>)
    ensures
        r.success,
        anomaly_views(r.data@) == anomaly_views(final(engine).recorded()),
        final(engine).buffer() == old(engine).buffer(),
        final(engine).recorded().len() == old(engine).recorded().len(),
        forall|i: int|
            0 <= i < old(engine).recorded().len() ==> (#[trigger] final(engine).recorded()[i])@
                == filled(
                old(engine).recorded()[i]@,
                humanizer@,
                reply_for(replies@, old(engine).recorded()[i]@.event.message, 0),
            ),
{
    engine.humanize_pending(humanizer, replies);
    ApiResponse::ok(engine.get_anomalies())
}

/// The figures of the overview; the number of anomalies is that of the
/// anomalies kept.
pub fn get_metrics(engine: &AnomalyEngine) -> (r: ApiResponse<MetricsSummary>)
    ensures
        r.success,
        r.data.total_logs == 125000,
        r.data.error_rate.milli == 23,
        r.data.avg_response_time.milli == 145700,
        r.data.active_services == 12,
        r.data.anomalies_detected == engine.recorded().len(),
{
    ApiResponse::ok(
        MetricsSummary {
            total_logs: 125000,
            error_rate: Decimal::from_milli(23),
            avg_response_time: Decimal::from_milli(145700),
            active_services: 12,
            anomalies_detected: engine.anomaly_count(),
        },
    )
}

/// What is asked of the index for the log search `query`: the logs of every
/// agent; the text `*` where the query names none, from the first hit where
/// it names no offset, and 50 hits where it names no size.
pub fn get_logs(query: &LogQuery) -> (r: LogSearch)
    ensures
        r.agent@ == "*"@,
        r.text@ == match query.q {
            Some(q) => q@,
            None => "*"@,
        },
        r.offset == match query.from {
            Some(f) => f,
            None => 0,
        },
        r.size == match query.size {
            Some(s) => s,
            None => DEFAULT_SEARCH_SIZE,
        },
{
    LogSearch {
        agent: String::from_str("*"),
        text: match &query.q {
            Some(q) => q.clone(),
            None => String::from_str("*"),
        },
        offset: match query.from {
            Some(f) => f,
            None => 0,
        },
        size: match query.size {
            Some(s) => s,
            None => DEFAULT_SEARCH_SIZE,
        },
    }
}

/// The answer to a record that was handed in for the topic `topic`: it is
/// acknowledged, whatever the topic.
pub fn ingest_data(topic: &str) -> (r: ApiResponse<String>)
    ensures
        r.success,
        r.data@ == INGESTED_MESSAGE@,
{
    ApiResponse::ok(String::from_str(INGESTED_MESSAGE))
}

/// The context that stands in for live data in a request for insights.
pub open spec fn placeholder(agent: Seq<char>) -> AnomalyContextView {
    AnomalyContextView {
        logs: seq![
            "ERROR: Connection timeout to database"@,
            "WARN: High memory usage detected"@,
            "ERROR: Failed to process request"@,
        ],
        cpu_usage: 85_500,
        memory_usage: 78_200,
        error_count: 15,
        health_status: "degraded"@,
        agent_id: agent,
    }
}

/// The context that stands in for live data in a request for insights about
/// `agent_id`, or about `unknown` where the request names no agent.
pub fn placeholder_context(agent_id: Option<&str>) -> (r: AnomalyContext)
    ensures
        r@ == placeholder(
            match agent_id {
                Some(a) => a@,
                None => UNKNOWN_AGENT@,
            },
        ),
{
    let mut logs: Vec<String> = Vec::new();
    logs.push(String::from_str("ERROR: Connection timeout to database"));
    logs.push(String::from_str("WARN: High memory usage detected"));
    logs.push(String::from_str("ERROR: Failed to process request"));
    proof {
        assert(views(logs@) =~= seq![
            "ERROR: Connection timeout to database"@,
            "WARN: High memory usage detected"@,
            "ERROR: Failed to process request"@,
        ]);
    }
    AnomalyContext {
        logs,
        cpu_usage: Decimal::from_milli(85_500),
        memory_usage: Decimal::from_milli(78_200),
        error_count: 15,
        health_status: String::from_str("degraded"),
        agent_id: match agent_id {
            Some(a) => String::from_str(a),
            None => String::from_str(UNKNOWN_AGENT),
        },
    }
}

/// The insights about `agent_id`, from the placeholder context. `reply` is
/// what the inference engine printed for that context, or `None`.
pub fn get_ai_insights(
    gemma: &GemmaAI,
    agent_id: Option<&str>,
    reply: Option<&str>,
) -> (r: ApiResponse<AIInsight>)
    ensures
        r.success,
        r.data@ == analysed(
            gemma.model() is Some,
            match reply {
                Some(t) => Some(t@),
                None => None,
            },
            placeholder(
                match agent_id {
                    Some(a) => a@,
                    None => UNKNOWN_AGENT@,
                },
            ),
        ),
{
    let context = placeholder_context(agent_id);
    ApiResponse::ok(gemma.analyze_anomaly(&context, reply))
}

/// The explanation of the log message of `request`; see
/// `LogHumanizer::humanize_log`.
pub fn humanize_log(
    humanizer: &LogHumanizer,
    request: &HumanizeRequest,
    reply: Option<&str>,
) -> (r: ApiResponse<HumanizedLog>)
    ensures
        r.success,
        r.data@ == humanized(
            humanizer@,
            request.log_message@,
            match reply {
                Some(body) => Some(body@),
                None => None,
            },
        ),
{
    ApiResponse::ok(humanizer.humanize_log(request.log_message.as_str(), reply))
}

/// What the anomaly engine is handed of an accepted record.
#[derive(Clone, Copy, Debug, PartialEq, Eq, Structural)]
pub enum Hook {
    /// The record goes into the buffer of log events.
    LogEvent,
    /// The record is examined as a metric sample.
    MetricSample,
    /// The engine is not concerned.
    Nothing,
}

/// What is done with each accepted record of a kind.
#[derive(Clone, Copy, Debug, PartialEq, Eq, Structural)]
pub struct RoutePlan {
    /// The bounded store of that kind takes the record.
    pub store: bool,
    /// The external index is written to, on a best effort.
    pub index: Option<IndexKind>,
    /// What the anomaly engine is handed, within the same request.
    pub hook: Hook,
}

/// What is done with each accepted record of `kind`: every kind is stored;
/// logs, metrics and traces are indexed; logs and metrics are handed to the
/// anomaly engine.
pub open spec fn plan_of(kind: ReportKind) -> RoutePlan {
    match kind {
        ReportKind::Logs => RoutePlan {
            store: true,
            index: Some(IndexKind::Logs),
            hook: Hook::LogEvent,
        },
        ReportKind::Metrics => RoutePlan {
            store: true,
            index: Some(IndexKind::Metrics),
            hook: Hook::MetricSample,
        },
        ReportKind::Traces => RoutePlan {
            store: true,
            index: Some(IndexKind::Traces),
            hook: Hook::Nothing,
        },
        _ => RoutePlan { store: true, index: None, hook: Hook::Nothing },
    }
}

/// What is done with each accepted record of `kind`.
pub fn route_plan(kind: ReportKind) -> (r: RoutePlan)
    ensures
        r == plan_of(kind),
{
    match kind {
        ReportKind::Logs => RoutePlan {
            store: true,
            index: Some(IndexKind::Logs),
            hook: Hook::LogEvent,
        },
        ReportKind::Metrics => RoutePlan {
            store: true,
            index: Some(IndexKind::Metrics),
            hook: Hook::MetricSample,
        },
        ReportKind::Traces => RoutePlan {
            store: true,
            index: Some(IndexKind::Traces),
            hook: Hook::Nothing,
        },
        _ => RoutePlan { store: true, index: None, hook: Hook::Nothing },
    }
}

/// The kind of record that the intake route `path` takes.
pub open spec fn kind_at(path: Seq<char>) -> Option<ReportKind> {
    if path == route_of(ReportKind::Metrics) {
        Some(ReportKind::Metrics)
    } else if path == route_of(ReportKind::Logs) {
        Some(ReportKind::Logs)
    } else if path == route_of(ReportKind::Traces) {
        Some(ReportKind::Traces)
    } else if path == route_of(ReportKind::Processes) {
        Some(ReportKind::Processes)
    } else if path == route_of(ReportKind::Health) {
        Some(ReportKind::Health)
    } else if path == route_of(ReportKind::HttpCalls) {
        Some(ReportKind::HttpCalls)
    } else if path == route_of(ReportKind::DatabaseQueries) {
        Some(ReportKind::DatabaseQueries)
    } else {
        None
    }
}

/// The kind of record that the intake route `path` takes; `None` for any
/// other path.
pub fn route_kind(path: &str) -> (r: Option<ReportKind>)
    ensures
        r == kind_at(path@),
{
    if same_text(path, crate::reporter::route(ReportKind::Metrics)) {
        Some(ReportKind::Metrics)
    } else if same_text(path, crate::reporter::route(ReportKind::Logs)) {
        Some(ReportKind::Logs)
    } else if same_text(path, crate::reporter::route(ReportKind::Traces)) {
        Some(ReportKind::Traces)
    } else if same_text(path, crate::reporter::route(ReportKind::Processes)) {
        Some(ReportKind::Processes)
    } else if same_text(path, crate::reporter::route(ReportKind::Health)) {
        Some(ReportKind::Health)
    } else if same_text(path, crate::reporter::route(ReportKind::HttpCalls)) {
        Some(ReportKind::HttpCalls)
    } else if same_text(path, crate::reporter::route(ReportKind::DatabaseQueries)) {
        Some(ReportKind::DatabaseQueries)
    } else {
        None
    }
}

/// Each kind has an intake route of its own: the route of a kind takes that
/// kind and no other.
pub proof fn law_route_names_its_kind(kind: ReportKind)
    ensures
        kind_at(route_of(kind)) == Some(kind),
{
    reveal_strlit("/api/agents/metrics");
    reveal_strlit("/api/agents/logs");
    reveal_strlit("/api/agents/traces");
    reveal_strlit("/api/agents/processes");
    reveal_strlit("/api/agents/health");
    reveal_strlit("/api/agents/http-calls");
    reveal_strlit("/api/agents/database-queries");
    let m = "/api/agents/metrics"@;
    let l = "/api/agents/logs"@;
    let t = "/api/agents/traces"@;
    let p = "/api/agents/processes"@;
    let h = "/api/agents/health"@;
    let c = "/api/agents/http-calls"@;
    let d = "/api/agents/database-queries"@;
    assert(m[12] == 'm' && l[12] == 'l' && t[12] == 't' && p[12] == 'p' && h[12] == 'h' && c[12]
        == 'h' && d[12] == 'd');
    assert(h[13] == 'e' && c[13] == 't');
}

} // verus!
