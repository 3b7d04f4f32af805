use monx::api::{
    accept_records, metric_event_of, route_kind, route_plan, trace_event_of, Hook,
    analyze_events, get_ai_insights, get_anomalies, get_database_queries, get_health_status,
    get_http_calls, get_logs, get_metrics, get_processes, humanize_log, ingest_data, log_event_of,
    normalize_logs, placeholder_context, receipt, receive_agent_health, receive_agent_logs,
    receive_agent_metrics, receive_agent_processes, receive_agent_traces,
    receive_database_queries, receive_http_calls, ApiResponse, HumanizeRequest, LogQuery,
    DB_QUERY_CAPACITY, HEALTH_CAPACITY, HTTP_CALL_CAPACITY, LOG_CAPACITY, METRIC_CAPACITY,
    PROCESS_CAPACITY, TRACE_CAPACITY,
};
use monx::decimal::Decimal;
use monx::events::{
    DatabaseQueryData, HealthData, HttpCallData, Label, Labels, LogData, LogEvent, MetricData,
    MetricEvent, ProcessData, TraceData, TraceEvent,
};
use monx::gemma_ai::GemmaAI;
use monx::kafka::{
    classify_topic, create_agent_topics, kind_of, process_event, process_message_by_topic,
    subscriptions, CanonicalEvent, TopicKind, RETRY_SECONDS,
};
use monx::log_humanizer::{LogHumanizer, ModelReply};
use monx::ml::AnomalyEngine;
use monx::opensearch::{index_name, index_pattern, IndexKind, OpenSearchClient};
use monx::reporter::{route, ReportKind};
use monx::store::BoundedStore;

fn log(timestamp: u64, level: &str, message: &str) -> LogData {
    LogData {
        timestamp,
        agent_id: "edge-1".to_string(),
        level: level.to_string(),
        message: message.to_string(),
        source: "nginx".to_string(),
    }
}

fn metric_data(n: u64) -> MetricData {
    MetricData {
        timestamp: n,
        agent_id: "edge-1".to_string(),
        metric_type: "cpu".to_string(),
        value: Decimal::from_milli(1000),
        labels: Labels::from_pairs(vec![Label { key: "core".to_string(), value: "0".to_string() }]),
    }
}

fn log_event(message: &str) -> LogEvent {
    LogEvent {
        timestamp: "t".to_string(),
        level: "INFO".to_string(),
        message: message.to_string(),
        service: "s".to_string(),
        agent_id: "a".to_string(),
        trace_id: Some("trace".to_string()),
        source: "bus".to_string(),
    }
}

fn metric_event(kind: &str, milli: i64) -> MetricEvent {
    MetricEvent {
        timestamp: "t".to_string(),
        agent_id: "a".to_string(),
        metric_type: kind.to_string(),
        value: Decimal::from_milli(milli),
        unit: "percent".to_string(),
        labels: Labels::new(),
    }
}

fn trace_event() -> TraceEvent {
    TraceEvent {
        timestamp: "t".to_string(),
        agent_id: "a".to_string(),
        trace_id: "1".to_string(),
        span_id: "2".to_string(),
        operation: "GET /".to_string(),
        duration_ms: 3,
        status: "200".to_string(),
    }
}

#[test]
fn topics_are_classified_by_prefix() {
    assert_eq!(classify_topic("logs-edge-1"), TopicKind::Logs);
    assert_eq!(classify_topic("metrics-edge-1"), TopicKind::Metrics);
    assert_eq!(classify_topic("traces-edge-1"), TopicKind::Traces);
    assert_eq!(classify_topic("logs-"), TopicKind::Logs);
    assert_eq!(classify_topic("logs"), TopicKind::Unknown);
    assert_eq!(classify_topic("Logs-edge-1"), TopicKind::Unknown);
    assert_eq!(classify_topic("my-logs-edge"), TopicKind::Unknown);
    assert_eq!(classify_topic(""), TopicKind::Unknown);
    assert_eq!(kind_of(&CanonicalEvent::Trace(trace_event())), TopicKind::Traces);
}

#[test]
fn agent_topics_and_subscriptions() {
    assert_eq!(
        create_agent_topics("edge-1"),
        vec!["logs-edge-1", "metrics-edge-1", "traces-edge-1"]
    );
    for topic in create_agent_topics("x") {
        assert_ne!(classify_topic(&topic), TopicKind::Unknown);
    }
    assert_eq!(subscriptions(), vec!["logs-.*", "metrics-.*", "traces-.*"]);
    assert_eq!(RETRY_SECONDS, 5);
}

struct Bus {
    logs: BoundedStore<LogEvent>,
    metrics: BoundedStore<MetricEvent>,
    traces: BoundedStore<TraceEvent>,
    engine: AnomalyEngine,
    gemma: GemmaAI,
}

fn bus() -> Bus {
    Bus {
        logs: BoundedStore::new(LOG_CAPACITY),
        metrics: BoundedStore::new(METRIC_CAPACITY),
        traces: BoundedStore::new(TRACE_CAPACITY),
        engine: AnomalyEngine::new(),
        gemma: GemmaAI::new(),
    }
}

fn consume(b: &mut Bus, topic: &str, event: Option<CanonicalEvent>) -> bool {
    process_message_by_topic(
        &mut b.logs,
        &mut b.metrics,
        &mut b.traces,
        &mut b.engine,
        &b.gemma,
        topic,
        event,
        None,
        "now",
    )
}

#[test]
fn consumed_log_goes_to_store_and_engine() {
    let mut b = bus();
    assert!(consume(&mut b, "logs-a", Some(CanonicalEvent::Log(log_event("hello")))));
    assert_eq!(b.engine.events(), &vec![log_event("hello")]);
    assert_eq!(b.logs.snapshot(), vec![log_event("hello")]);
    assert!(b.metrics.is_empty());
    assert!(b.traces.is_empty());
    assert!(b.engine.get_anomalies().is_empty());
}

#[test]
fn consumed_metric_is_stored_and_examined() {
    let mut b = bus();
    assert!(consume(&mut b, "metrics-a", Some(CanonicalEvent::Metric(metric_event("cpu", 91_000)))));
    assert_eq!(b.engine.get_anomalies().len(), 1);
    assert_eq!(b.engine.get_anomalies()[0].event.message, "High CPU usage: 91%");
    assert!(b.engine.events().is_empty());
    assert_eq!(b.metrics.snapshot(), vec![metric_event("cpu", 91_000)]);
    process_event(
        &mut b.logs,
        &mut b.metrics,
        &mut b.traces,
        &mut b.engine,
        &b.gemma,
        CanonicalEvent::Metric(metric_event("cpu", 50_000)),
        None,
        "now",
    );
    assert_eq!(b.engine.get_anomalies().len(), 1);
    assert_eq!(b.metrics.len(), 2);
    assert!(b.logs.is_empty());
    assert!(b.traces.is_empty());
}

#[test]
fn consumed_trace_is_stored() {
    let mut b = bus();
    assert!(consume(&mut b, "traces-a", Some(CanonicalEvent::Trace(trace_event()))));
    assert_eq!(b.traces.snapshot(), vec![trace_event()]);
    assert!(b.logs.is_empty());
    assert!(b.metrics.is_empty());
    assert!(b.engine.events().is_empty());
    assert!(b.engine.get_anomalies().is_empty());
}

#[test]
fn consumed_records_are_capped_by_their_store() {
    let mut b = bus();
    for i in 0..1100 {
        assert!(consume(
            &mut b,
            "metrics-a",
            Some(CanonicalEvent::Metric(metric_event("cpu", i)))
        ));
    }
    assert_eq!(b.metrics.len(), 1000);
    assert_eq!(b.metrics.get(0).unwrap().value, Decimal::from_milli(100));
    assert_eq!(b.metrics.get(999).unwrap().value, Decimal::from_milli(1099));
}

#[test]
fn bad_records_and_unknown_topics_are_dropped() {
    let mut b = bus();
    assert!(!consume(&mut b, "logs-a", None));
    assert!(!consume(&mut b, "other-a", Some(CanonicalEvent::Log(log_event("x")))));
    assert!(!consume(&mut b, "metrics-a", Some(CanonicalEvent::Log(log_event("x")))));
    assert!(!consume(&mut b, "logs-a", Some(CanonicalEvent::Trace(trace_event()))));
    assert!(b.engine.events().is_empty());
    assert!(b.engine.get_anomalies().is_empty());
    assert!(b.logs.is_empty() && b.metrics.is_empty() && b.traces.is_empty());
    assert!(consume(&mut b, "logs-a", Some(CanonicalEvent::Log(log_event("good")))));
    assert_eq!(b.engine.events().len(), 1);
    assert_eq!(b.logs.len(), 1);
}

#[test]
fn pushed_log_is_normalized() {
    let event = log_event_of(&log(1431648000, "ERROR", "boom"));
    assert_eq!(
        event,
        LogEvent {
            timestamp: "2015-05-15T00:00:00+00:00".to_string(),
            level: "ERROR".to_string(),
            message: "boom".to_string(),
            service: "edge-1".to_string(),
            agent_id: "edge-1".to_string(),
            trace_id: None,
            source: "agent".to_string(),
        }
    );
    assert_eq!(log_event_of(&log(0, "INFO", "m")).timestamp, "1970-01-01T00:00:00+00:00");
    assert_eq!(log_event_of(&log(86_399, "INFO", "m")).timestamp, "1970-01-01T23:59:59+00:00");
}

#[test]
fn timestamps_out_of_range_fall_back_to_the_epoch() {
    assert_eq!(
        log_event_of(&log(i64::MAX as u64, "INFO", "m")).timestamp,
        "1970-01-01T00:00:00+00:00"
    );
    assert_eq!(
        log_event_of(&log(1u64 << 63, "INFO", "m")).timestamp,
        "1970-01-01T00:00:00+00:00"
    );
    assert_eq!(log_event_of(&log(u64::MAX, "INFO", "m")).timestamp, "1969-12-31T23:59:59+00:00");
    for t in [0u64, 1, 1431648000, u64::MAX, u64::MAX - 86_400, 1u64 << 40] {
        let expected =
            chrono::DateTime::from_timestamp(t as i64, 0).unwrap_or_default().to_rfc3339();
        assert_eq!(log_event_of(&log(t, "INFO", "m")).timestamp, expected, "for {}", t);
    }
}

#[test]
fn received_logs_reach_store_and_engine() {
    let mut store: BoundedStore<LogEvent> = BoundedStore::new(LOG_CAPACITY);
    let mut engine = AnomalyEngine::new();
    let batch = vec![log(1, "INFO", "a"), log(2, "ERROR", "b"), log(3, "INFO", "c")];
    let events = receive_agent_logs(&mut store, &mut engine, batch.clone());
    assert_eq!(events, normalize_logs(&batch));
    assert_eq!(events.len(), 3);
    assert_eq!(store.snapshot(), events);
    assert_eq!(engine.events(), &events);
    assert_eq!(engine.events()[1].level, "ERROR");
    assert_eq!(engine.events()[1].source, "agent");
}

#[test]
fn received_logs_are_capped_at_a_thousand() {
    let mut store: BoundedStore<LogEvent> = BoundedStore::new(LOG_CAPACITY);
    let mut engine = AnomalyEngine::new();
    for round in 0..3u64 {
        let batch: Vec<LogData> =
            (0..400).map(|i| log(round * 400 + i, "INFO", &format!("m{}", round * 400 + i))).collect();
        receive_agent_logs(&mut store, &mut engine, batch);
    }
    assert_eq!(store.len(), 1000);
    assert_eq!(store.get(0).unwrap().message, "m200");
    assert_eq!(store.get(999).unwrap().message, "m1199");
    assert_eq!(engine.events().len(), 1000);
    assert_eq!(engine.events()[0].message, "m200");
    let mut other = AnomalyEngine::new();
    analyze_events(&mut other, &engine.events().clone());
    assert_eq!(other.events(), engine.events());
}

#[test]
fn each_kind_has_its_capacity() {
    assert_eq!(
        (
            METRIC_CAPACITY,
            LOG_CAPACITY,
            TRACE_CAPACITY,
            HTTP_CALL_CAPACITY,
            DB_QUERY_CAPACITY,
            PROCESS_CAPACITY,
            HEALTH_CAPACITY
        ),
        (1000, 1000, 1000, 1000, 1000, 500, 200)
    );
    let mut metrics: BoundedStore<MetricEvent> = BoundedStore::new(METRIC_CAPACITY);
    let mut engine = AnomalyEngine::new();
    let events = receive_agent_metrics(
        &mut metrics,
        &mut engine,
        &GemmaAI::new(),
        (0..1500).map(metric_data).collect(),
        &Vec::new(),
        "now",
    );
    assert_eq!(events.len(), 1500);
    assert_eq!(metrics.len(), 1000);
    assert_eq!(metrics.snapshot(), events[500..].to_vec());
    assert!(engine.get_anomalies().is_empty());

    let mut health: BoundedStore<HealthData> = BoundedStore::new(HEALTH_CAPACITY);
    let batch: Vec<HealthData> = (0..250)
        .map(|n| HealthData {
            timestamp: n,
            agent_id: "a".to_string(),
            url: "http://x".to_string(),
            status_code: 200,
            response_time_ms: 1,
            is_healthy: true,
        })
        .collect();
    assert_eq!(receive_agent_health(&mut health, batch.clone()), 250);
    let listed = get_health_status(&health);
    assert!(listed.success);
    assert_eq!(listed.data, batch[50..].to_vec());

    let mut processes: BoundedStore<ProcessData> = BoundedStore::new(PROCESS_CAPACITY);
    let batch: Vec<ProcessData> = (0..501)
        .map(|n| ProcessData {
            timestamp: 1,
            agent_id: "a".to_string(),
            pid: n,
            name: "p".to_string(),
            cpu_percent: Decimal::from_milli(500),
            memory_mb: Decimal::from_milli(1500),
            status: "S".to_string(),
        })
        .collect();
    assert_eq!(receive_agent_processes(&mut processes, batch), 501);
    assert_eq!(get_processes(&processes).data.len(), 500);
    assert_eq!(get_processes(&processes).data[0].pid, 1);

    let mut traces: BoundedStore<TraceEvent> = BoundedStore::new(TRACE_CAPACITY);
    let batch: Vec<TraceData> = (0..3)
        .map(|n| TraceData {
            timestamp: n,
            agent_id: "a".to_string(),
            trace_id: "t".to_string(),
            span_id: "s".to_string(),
            operation: "op".to_string(),
            duration_ms: 1,
            status: "200".to_string(),
        })
        .collect();
    let events = receive_agent_traces(&mut traces, batch.clone());
    assert_eq!(events.len(), 3);
    assert_eq!(events[2], trace_event_of(&batch[2]));
    assert_eq!(events[1].timestamp, "1970-01-01T00:00:01+00:00");
    assert_eq!(traces.snapshot(), events);
}

#[test]
fn call_samples_are_acknowledged() {
    let mut calls: BoundedStore<HttpCallData> = BoundedStore::new(HTTP_CALL_CAPACITY);
    let batch: Vec<HttpCallData> = (0..3)
        .map(|n| HttpCallData {
            timestamp: n,
            agent_id: "a".to_string(),
            method: "GET".to_string(),
            url: "/".to_string(),
            status_code: 200,
            duration_ms: 1,
            request_size: 2,
            response_size: 3,
        })
        .collect();
    assert_eq!(receive_http_calls(&mut calls, batch.clone()), "Received 3 HTTP calls");
    assert_eq!(get_http_calls(&calls), ApiResponse { success: true, data: batch });
    let mut queries: BoundedStore<DatabaseQueryData> = BoundedStore::new(DB_QUERY_CAPACITY);
    let batch: Vec<DatabaseQueryData> = (0..2)
        .map(|n| DatabaseQueryData {
            timestamp: n,
            agent_id: "a".to_string(),
            db_type: "mysql".to_string(),
            query: "select 1".to_string(),
            duration_ms: 1,
            rows_affected: 0,
            error: if n == 0 { None } else { Some("deadlock".to_string()) },
        })
        .collect();
    assert_eq!(
        receive_database_queries(&mut queries, batch.clone()),
        "Received 2 database queries"
    );
    assert_eq!(get_database_queries(&queries).data, batch);
    assert_eq!(receipt(0, "things"), "Received 0 things");
    assert_eq!(receipt(1234567, "things"), "Received 1234567 things");
}

#[test]
fn log_query_defaults() {
    let search = get_logs(&LogQuery { q: None, from: None, size: None });
    assert_eq!((search.agent.as_str(), search.text.as_str()), ("*", "*"));
    assert_eq!((search.offset, search.size), (0, 50));
    let search =
        get_logs(&LogQuery { q: Some("timeout".to_string()), from: Some(20), size: Some(5) });
    assert_eq!(search.text, "timeout");
    assert_eq!((search.offset, search.size), (20, 5));
}

#[test]
fn overview_counts_anomalies() {
    let mut engine = AnomalyEngine::new();
    let gemma = GemmaAI::new();
    let overview = get_metrics(&engine);
    assert!(overview.success);
    assert_eq!(overview.data.anomalies_detected, 0);
    assert_eq!(overview.data.total_logs, 125000);
    assert_eq!(overview.data.error_rate.milli as f64 / 1000.0, 0.023);
    assert_eq!(overview.data.avg_response_time.milli as f64 / 1000.0, 145.7);
    assert_eq!(overview.data.active_services, 12);
    engine.analyze_metric(&gemma, &metric_event("cpu", 99_000), None, "now");
    assert_eq!(get_metrics(&engine).data.anomalies_detected, 1);
    let humanizer = LogHumanizer::new();
    let listed = get_anomalies(&mut engine, &humanizer, &Vec::new());
    assert!(listed.success);
    assert_eq!(listed.data, engine.get_anomalies());
    assert_eq!(listed.data.len(), 1);
}

#[test]
fn ingest_acknowledges_any_topic() {
    for topic in ["logs-a", "", "whatever"] {
        let answer = ingest_data(topic);
        assert!(answer.success);
        assert_eq!(answer.data, "Data ingested successfully");
    }
}

#[test]
fn insights_from_placeholder_context() {
    let gemma = GemmaAI::new();
    let c = placeholder_context(None);
    assert_eq!(c.agent_id, "unknown");
    assert_eq!(c.logs.len(), 3);
    assert_eq!(c.cpu_usage.milli as f64 / 1000.0, 85.5);
    assert_eq!(c.memory_usage.milli as f64 / 1000.0, 78.2);
    assert_eq!(c.error_count, 15);
    assert_eq!(c.health_status, "degraded");
    assert_eq!(gemma.calculate_critical_score(&c), 1);
    let answer = get_ai_insights(&gemma, Some("edge-9"), None);
    assert!(answer.success);
    assert_eq!(answer.data.severity, "LOW");
    assert_eq!(
        answer.data.analysis,
        "Agent edge-9 stable with minor anomalies - CPU 85.5%, Memory 78.2%, 15 errors. No issues detected."
    );
    assert_eq!(answer.data.confidence.milli, 750);
}

#[test]
fn humanize_route_explains_the_message() {
    let humanizer = LogHumanizer::new();
    let request = HumanizeRequest { log_message: "Connection refused to db".to_string() };
    let answer = humanize_log(&humanizer, &request, None);
    assert!(answer.success);
    assert_eq!(answer.data, humanizer.humanize_log("Connection refused to db", None));
    assert_eq!(answer.data.severity, "HIGH");
}

#[test]
fn index_names() {
    assert_eq!(index_name(IndexKind::Logs, "edge-1", "2026-10"), "logs-edge-1-2026-10");
    assert_eq!(index_name(IndexKind::Metrics, "edge-1", "2026-10"), "metrics-edge-1-2026-10");
    assert_eq!(index_name(IndexKind::Traces, "e", "1999-01"), "traces-e-1999-01");
    assert_eq!(index_pattern(IndexKind::Logs, "*"), "logs-*-*");
    assert_eq!(index_pattern(IndexKind::Metrics, "edge-1"), "metrics-edge-1-*");
    assert_eq!(OpenSearchClient::new().node_url, "http://localhost:9200");
    assert_eq!(classify_topic(&index_name(IndexKind::Logs, "a", "m")), TopicKind::Logs);
}

#[test]
fn bad_records_do_not_fail_the_batch() {
    let batch = vec![Some(1), None, Some(3), None, None, Some(6)];
    assert_eq!(accept_records(batch), vec![1, 3, 6]);
    assert_eq!(accept_records(Vec::<Option<u8>>::new()), Vec::<u8>::new());
    assert_eq!(accept_records(vec![None::<u8>, None]), Vec::<u8>::new());
    let mut store: BoundedStore<LogEvent> = BoundedStore::new(LOG_CAPACITY);
    let mut engine = AnomalyEngine::new();
    let accepted = accept_records(vec![Some(log(1, "INFO", "a")), None, Some(log(2, "INFO", "b"))]);
    let events = receive_agent_logs(&mut store, &mut engine, accepted);
    assert_eq!(events.len(), 2);
    assert_eq!(store.len(), 2);
    assert_eq!(engine.events()[1].message, "b");
}

#[test]
fn pushed_metric_and_trace_are_normalized() {
    let m = metric_event_of(&metric_data(1431648000));
    assert_eq!(m.timestamp, "2015-05-15T00:00:00+00:00");
    assert_eq!(m.agent_id, "edge-1");
    assert_eq!(m.metric_type, "cpu");
    assert_eq!(m.value, Decimal::from_milli(1000));
    assert_eq!(m.unit, "");
    assert_eq!(m.labels.entries(), &vec![Label { key: "core".to_string(), value: "0".to_string() }]);
    assert_eq!(m.labels.get("core"), Some(&"0".to_string()));
    assert_eq!(m.labels.get("gpu"), None);
    let t = trace_event_of(&TraceData {
        timestamp: 60,
        agent_id: "a".to_string(),
        trace_id: "t".to_string(),
        span_id: "s".to_string(),
        operation: "op".to_string(),
        duration_ms: 9,
        status: "200".to_string(),
    });
    assert_eq!(
        t,
        TraceEvent {
            timestamp: "1970-01-01T00:01:00+00:00".to_string(),
            agent_id: "a".to_string(),
            trace_id: "t".to_string(),
            span_id: "s".to_string(),
            operation: "op".to_string(),
            duration_ms: 9,
            status: "200".to_string(),
        }
    );
}

#[test]
fn each_route_takes_its_kind() {
    let kinds = [
        ReportKind::Metrics,
        ReportKind::Logs,
        ReportKind::Traces,
        ReportKind::Processes,
        ReportKind::Health,
        ReportKind::HttpCalls,
        ReportKind::DatabaseQueries,
    ];
    for kind in kinds {
        assert_eq!(route_kind(route(kind)), Some(kind));
        assert!(route_plan(kind).store);
    }
    assert_eq!(route_kind("/api/agents/register"), None);
    assert_eq!(route_kind("/api/agents/metrics/"), None);
    assert_eq!(route_kind(""), None);
    assert_eq!(route_plan(ReportKind::Logs).hook, Hook::LogEvent);
    assert_eq!(route_plan(ReportKind::Logs).index, Some(IndexKind::Logs));
    assert_eq!(route_plan(ReportKind::Metrics).hook, Hook::MetricSample);
    assert_eq!(route_plan(ReportKind::Metrics).index, Some(IndexKind::Metrics));
    assert_eq!(route_plan(ReportKind::Traces).hook, Hook::Nothing);
    assert_eq!(route_plan(ReportKind::Traces).index, Some(IndexKind::Traces));
    assert_eq!(route_plan(ReportKind::Health).index, None);
    assert_eq!(route_plan(ReportKind::HttpCalls).hook, Hook::Nothing);
}

#[test]
fn pushed_cpu_samples_reach_the_anomaly_engine() {
    let mut store: BoundedStore<MetricEvent> = BoundedStore::new(METRIC_CAPACITY);
    let mut engine = AnomalyEngine::new();
    let mut gemma = GemmaAI::new();
    gemma.initialize(&vec!["m.gguf".to_string()]);
    let mut batch: Vec<MetricData> = Vec::new();
    for milli in [50_000, 95_000, 90_000, 99_500] {
        let mut m = metric_data(60);
        m.value = Decimal::from_milli(milli);
        batch.push(m);
    }
    let mut other = metric_data(60);
    other.metric_type = "memory".to_string();
    other.value = Decimal::from_milli(99_000);
    batch.push(other);
    let replies = vec![
        Some("ANALYSIS: ignored".to_string()),
        Some("ANALYSIS: hot\nROOT_CAUSE: load".to_string()),
        None,
    ];
    let events =
        receive_agent_metrics(&mut store, &mut engine, &gemma, batch.clone(), &replies, "now");
    assert_eq!(events.len(), 5);
    assert_eq!(events[1].timestamp, "1970-01-01T00:01:00+00:00");
    assert_eq!(store.snapshot(), events);
    let anomalies = engine.get_anomalies();
    assert_eq!(anomalies.len(), 2);
    assert_eq!(anomalies[0].event.message, "High CPU usage: 95%");
    assert_eq!(anomalies[0].algorithm, "GemmaAI");
    assert_eq!(anomalies[0].reason, "load");
    assert_eq!(anomalies[0].event.timestamp, "1970-01-01T00:01:00+00:00");
    assert_eq!(anomalies[1].event.message, "High CPU usage: 99.5%");
    assert_eq!(anomalies[1].algorithm, "EnhancedFallback");
    assert!(engine.events().is_empty());
}

#[test]
fn anomalies_route_fills_missing_explanations() {
    let mut engine = AnomalyEngine::new();
    let humanizer = LogHumanizer::new();
    for i in 0..120 {
        let mut e = log_event(&format!("odd thing {}", i));
        e.level = if i >= 110 { "ERROR".to_string() } else { "INFO".to_string() };
        engine.analyze_event(&e);
    }
    engine.detect_frequency_anomalies("t1");
    assert_eq!(engine.pending_messages(), vec!["odd thing 119"]);
    let replies = vec![ModelReply {
        message: "odd thing 119".to_string(),
        body: Some(r#"{"response":"{\"human_explanation\":\"It is odd\"}"}"#.to_string()),
    }];
    let listed = get_anomalies(&mut engine, &humanizer, &replies);
    assert!(listed.success);
    assert_eq!(listed.data.len(), 1);
    let explanation = listed.data[0].humanized.as_ref().unwrap();
    assert_eq!(explanation.human_explanation, "It is odd");
    assert_eq!(explanation.confidence, Decimal::from_milli(800));
    assert_eq!(engine.get_anomalies(), listed.data);
    let again = get_anomalies(&mut engine, &humanizer, &Vec::new());
    assert_eq!(again.data, listed.data);
}

#[test]
fn labels_hold_each_key_once() {
    let pair = |k: &str, v: &str| Label { key: k.to_string(), value: v.to_string() };
    let labels = Labels::from_pairs(vec![
        pair("core", "0"),
        pair("device", "sda"),
        pair("core", "1"),
        pair("gpu", "0"),
        pair("device", "sdb"),
    ]);
    assert_eq!(
        labels.entries(),
        &vec![pair("core", "1"), pair("device", "sdb"), pair("gpu", "0")]
    );
    assert_eq!(labels.get("core"), Some(&"1".to_string()));
    let mut more = labels.clone();
    assert_eq!(more, labels);
    more.insert("gpu".to_string(), "1".to_string());
    more.insert("zone".to_string(), "a".to_string());
    assert_eq!(more.entries().len(), 4);
    assert_eq!(more.get("gpu"), Some(&"1".to_string()));
    assert_eq!(more.get("zone"), Some(&"a".to_string()));
    assert!(Labels::new().entries().is_empty());
}
