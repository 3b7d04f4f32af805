//! The message-bus side of ingestion: which kind of record a topic carries,
//! and what becomes of a record that was consumed.

use crate::events::{LogEvent, MetricEvent, TraceEvent};
use crate::gemma_ai::{analysed, answering_backend, GemmaAI};
use crate::ml::{
    anomaly_views, context_of, is_cpu_alarm, metric_anomaly, AnomalyEngine, ANOMALY_CAPACITY,
    EVENT_CAPACITY,
};
use crate::store::{keep_last, BoundedStore};
use crate::text::{chars_of, has_prefix, push_str, starts_with, string_of, views};
use vstd::prelude::*;
use vstd::string::StringExecFns;

verus! {

/// The consumer group of the backend.
pub const GROUP_ID: &'static str = "ml-monitoring";

/// The address of the message bus.
pub const BOOTSTRAP_SERVERS: &'static str = "localhost:9092";

/// Where a consumer starts on a topic: at the latest offset, so that nothing
/// is replayed.
pub const OFFSET_RESET: &'static str = "latest";

/// The seconds that the consumer waits after an error before it goes on.
pub const RETRY_SECONDS: u64 = 5;

/// The prefix of the topics that carry logs.
pub const LOGS_PREFIX: &'static str = "logs-";

/// The prefix of the topics that carry metrics.
pub const METRICS_PREFIX: &'static str = "metrics-";

/// The prefix of the topics that carry traces.
pub const TRACES_PREFIX: &'static str = "traces-";

/// The kind of record that a topic carries.
#[derive(Clone, Copy, Debug, PartialEq, Eq, Structural)]
pub enum TopicKind {
    Logs,
    Metrics,
    Traces,
    Unknown,
}

/// A record in canonical form, with its kind.
#[derive(Debug, PartialEq, Eq)]
pub enum CanonicalEvent {
    Log(LogEvent),
    Metric(MetricEvent),
    Trace(TraceEvent),
}

/// The kind of record that the topic `topic` carries, by its prefix.
pub open spec fn topic_kind(topic: Seq<char>) -> TopicKind {
    if has_prefix(topic, LOGS_PREFIX@) {
        TopicKind::Logs
    } else if has_prefix(topic, METRICS_PREFIX@) {
        TopicKind::Metrics
    } else if has_prefix(topic, TRACES_PREFIX@) {
        TopicKind::Traces
    } else {
        TopicKind::Unknown
    }
}

/// The kind of a record.
pub open spec fn event_kind(event: CanonicalEvent) -> TopicKind {
    match event {
        CanonicalEvent::Log(_) => TopicKind::Logs,
        CanonicalEvent::Metric(_) => TopicKind::Metrics,
        CanonicalEvent::Trace(_) => TopicKind::Traces,
    }
}

/// The kind of record that the topic `topic` carries.
pub fn classify_topic(topic: &str) -> (r: TopicKind)
    ensures
        r == topic_kind(topic@),
{
    let t = chars_of(topic);
    if starts_with(&t, &chars_of(LOGS_PREFIX)) {
        TopicKind::Logs
    } else if starts_with(&t, &chars_of(METRICS_PREFIX)) {
        TopicKind::Metrics
    } else if starts_with(&t, &chars_of(TRACES_PREFIX)) {
        TopicKind::Traces
    } else {
        TopicKind::Unknown
    }
}

/// The kind of `event`.
pub fn kind_of(event: &CanonicalEvent) -> (r: TopicKind)
    ensures
        r == event_kind(*event),
{
    match event {
        CanonicalEvent::Log(_) => TopicKind::Logs,
        CanonicalEvent::Metric(_) => TopicKind::Metrics,
        CanonicalEvent::Trace(_) => TopicKind::Traces,
    }
}

/// The patterns of the topics that the consumer subscribes to.
pub fn subscriptions() -> (r: Vec<String>)
    ensures
        views(r@) == seq!["logs-.*"@, "metrics-.*"@, "traces-.*"@],
{
    let mut r: Vec<String> = Vec::new();
    r.push(String::from_str("logs-.*"));
    r.push(String::from_str("metrics-.*"));
    r.push(String::from_str("traces-.*"));
    proof {
        assert(views(r@) =~= seq!["logs-.*"@, "metrics-.*"@, "traces-.*"@]);
    }
    r
}

/// The topics of the agent `agent_id`: one for each kind of record.
pub fn create_agent_topics(agent_id: &str) -> (r: Vec<String>)
    ensures
        views(r@) == seq![
            LOGS_PREFIX@ + agent_id@,
            METRICS_PREFIX@ + agent_id@,
            TRACES_PREFIX@ + agent_id@,
        ],
{
    let mut r: Vec<String> = Vec::new();
    let mut logs: Vec<char> = chars_of(LOGS_PREFIX);
    push_str(&mut logs, agent_id);
    r.push(string_of(&logs));
    let mut metrics: Vec<char> = chars_of(METRICS_PREFIX);
    push_str(&mut metrics, agent_id);
    r.push(string_of(&metrics));
    let mut traces: Vec<char> = chars_of(TRACES_PREFIX);
    push_str(&mut traces, agent_id);
    r.push(string_of(&traces));
    proof {
        assert(views(r@) =~= seq![
            LOGS_PREFIX@ + agent_id@,
            METRICS_PREFIX@ + agent_id@,
            TRACES_PREFIX@ + agent_id@,
        ]);
    }
    r
}

/// The engine after it took the record `event`: a log goes into the buffer,
/// a metric sample is examined for a CPU alarm, a trace changes nothing.
pub open spec fn engine_took(
    before: AnomalyEngine,
    after: AnomalyEngine,
    event: CanonicalEvent,
    configured: bool,
    reply: Option<Seq<char>>,
    now: Seq<char>,
) -> bool {
    match event {
        CanonicalEvent::Log(e) => {
            &&& after.buffer() == keep_last(before.buffer().push(e), EVENT_CAPACITY as nat)
            &&& after.recorded() == before.recorded()
        },
        CanonicalEvent::Metric(m) => {
            &&& after.buffer() == before.buffer()
            &&& !is_cpu_alarm(m) ==> after.recorded() == before.recorded()
            &&& is_cpu_alarm(m) ==> anomaly_views(after.recorded()) == keep_last(
                anomaly_views(before.recorded()).push(
                    metric_anomaly(
                        m@,
                        analysed(
                            configured,
                            reply,
                            context_of(before.buffer(), m.agent_id@, m.value.milli as int),
                        ),
                        answering_backend(configured, reply),
                        now,
                    ),
                ),
                ANOMALY_CAPACITY as nat,
            )
        },
        CanonicalEvent::Trace(_) => {
            &&& after.buffer() == before.buffer()
            &&& after.recorded() == before.recorded()
        },
    }
}

/// The log event that a record is, if it is one.
pub open spec fn log_of(event: CanonicalEvent) -> Option<LogEvent> {
    match event {
        CanonicalEvent::Log(e) => Some(e),
        _ => None,
    }
}

/// The metric sample that a record is, if it is one.
pub open spec fn metric_of(event: CanonicalEvent) -> Option<MetricEvent> {
    match event {
        CanonicalEvent::Metric(m) => Some(m),
        _ => None,
    }
}

/// The trace span that a record is, if it is one.
pub open spec fn trace_of(event: CanonicalEvent) -> Option<TraceEvent> {
    match event {
        CanonicalEvent::Trace(t) => Some(t),
        _ => None,
    }
}

/// The store after it took `item` as the newest, where there is one; the
/// store as it was where there is none.
pub open spec fn store_took<T>(before: BoundedStore<T>, after: BoundedStore<T>, item: Option<T>)
    -> bool {
    &&& after.limit() == before.limit()
    &&& after@ == match item {
        Some(x) => keep_last(before@.push(x), before.limit()),
        None => before@,
    }
}

/// Takes the record `event`: it goes into the bounded store of its kind,
/// and is handed to the anomaly engine. `reply` is what the inference
/// engine printed for a CPU alarm, or `None`.
pub fn process_event(
    logs: &mut BoundedStore<LogEvent>,
    metrics: &mut BoundedStore<MetricEvent>,
    traces: &mut BoundedStore<TraceEvent>,
    engine: &mut AnomalyEngine,
    gemma: &GemmaAI,
    event: CanonicalEvent,
    reply: Option<&str>,
    now: &str,
)
    ensures
        store_took(*old(logs), *final(logs), log_of(event)),
        store_took(*old(metrics), *final(metrics), metric_of(event)),
        store_took(*old(traces), *final(traces), trace_of(event)),
        engine_took(
            *old(engine),
            *final(engine),
            event,
            gemma.model() is Some,
            match reply {
                Some(t) => Some(t@),
                None => None,
            },
            now@,
        ),
{
    match event {
        CanonicalEvent::Log(e) => {
            engine.analyze_event(&e);
            logs.append(e);
        },
        CanonicalEvent::Metric(m) => {
            engine.analyze_metric(gemma, &m, reply, now);
            metrics.append(m);
        },
        CanonicalEvent::Trace(t) => {
            traces.append(t);
        },
    }
}

/// Takes a message of the bus: where its payload was decoded to the record
/// `event` and the record is of the kind that `topic` carries, the record
/// goes into the bounded store of its kind and is handed to the anomaly
/// engine; a payload that could not be decoded (`None`), or a topic of
/// another kind, is dropped and changes nothing. Says whether the record
/// was taken.
pub fn process_message_by_topic(
    logs: &mut BoundedStore<LogEvent>,
    metrics: &mut BoundedStore<MetricEvent>,
    traces: &mut BoundedStore<TraceEvent>,
    engine: &mut AnomalyEngine,
    gemma: &GemmaAI,
    topic: &str,
    event: Option<CanonicalEvent>,
    reply: Option<&str>,
    now: &str,
) -> (taken: bool)
    ensures
        taken == (event matches Some(e) && event_kind(e) == topic_kind(topic@)),
        taken ==> store_took(*old(logs), *final(logs), log_of(event->0)),
        taken ==> store_took(*old(metrics), *final(metrics), metric_of(event->0)),
        taken ==> store_took(*old(traces), *final(traces), trace_of(event->0)),
        taken ==> engine_took(
            *old(engine),
            *final(engine),
            event->0,
            gemma.model() is Some,
            match reply {
                Some(t) => Some(t@),
                None => None,
            },
            now@,
        ),
        !taken ==> store_took(*old(logs), *final(logs), None) && store_took(
            *old(metrics),
            *final(metrics),
            None,
        ) && store_took(*old(traces), *final(traces), None),
        !taken ==> final(engine).buffer() == old(engine).buffer() && final(engine).recorded()
            == old(engine).recorded(),
{
    let kind = classify_topic(topic);
    match event {
        Some(e) => {
            if kind_of(&e) == kind {
                process_event(logs, metrics, traces, engine, gemma, e, reply, now);
                true
            } else {
                false
            }
        },
        None => false,
    }
}

} // verus!
