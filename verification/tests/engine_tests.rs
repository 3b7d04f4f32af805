use monx::decimal::Decimal;
use monx::events::{Labels, LogEvent, MetricEvent};
use monx::gemma_ai::GemmaAI;
use monx::log_humanizer::{HumanizedLog, LogHumanizer, ModelReply};
use monx::ml::{
    analyze_event, extract_log_pattern, get_anomalies, get_health_status, get_memory_usage,
    Anomaly, AnomalyEngine, ANOMALY_CAPACITY, EVENT_CAPACITY, TICK_SECONDS,
};

fn event(level: &str, message: &str) -> LogEvent {
    LogEvent {
        timestamp: "2026-01-01T00:00:00+00:00".to_string(),
        level: level.to_string(),
        message: message.to_string(),
        service: "checkout".to_string(),
        agent_id: "edge-1".to_string(),
        trace_id: None,
        source: "agent".to_string(),
    }
}

fn metric(kind: &str, milli: i64) -> MetricEvent {
    MetricEvent {
        timestamp: "2026-01-01T00:00:05+00:00".to_string(),
        agent_id: "edge-1".to_string(),
        metric_type: kind.to_string(),
        value: Decimal::from_milli(milli),
        unit: "percent".to_string(),
        labels: Labels::new(),
    }
}

fn score(a: &Anomaly) -> f64 {
    a.score.milli as f64 / 1000.0
}

fn burst_buffer(recent_errors: usize) -> AnomalyEngine {
    let mut engine = AnomalyEngine::new();
    for i in 0..100 {
        engine.analyze_event(&event("INFO", &format!("request {} served", i)));
    }
    for i in 0..20 {
        if i < recent_errors {
            engine.analyze_event(&event("ERROR", &format!("request {} failed", i)));
        } else {
            engine.analyze_event(&event("INFO", &format!("request {} served", i)));
        }
    }
    engine
}

#[test]
fn frequency_burst_emits_exactly_one_anomaly() {
    let mut engine = burst_buffer(3);
    engine.detect_frequency_anomalies("now");
    let anomalies = engine.get_anomalies();
    assert_eq!(anomalies.len(), 1);
    assert_eq!(anomalies[0].algorithm, "RandomCutForest");
    assert_eq!(score(&anomalies[0]), 0.92);
    assert_eq!(anomalies[0].reason, "Error rate spike: 15.0% vs 0.0%");
    assert_eq!(anomalies[0].event.message, "request 2 failed");
    assert_eq!(anomalies[0].timestamp, "now");
    assert!(anomalies[0].humanized.is_none());
}

#[test]
fn frequency_below_rate_emits_nothing() {
    let mut engine = burst_buffer(1);
    engine.detect_frequency_anomalies("now");
    assert!(engine.get_anomalies().is_empty());
    let mut engine = burst_buffer(2);
    engine.detect_frequency_anomalies("now");
    assert!(engine.get_anomalies().is_empty());
}

#[test]
fn frequency_needs_fifty_events_and_three_times_the_history() {
    let mut engine = AnomalyEngine::new();
    for _ in 0..29 {
        engine.analyze_event(&event("INFO", "ok"));
    }
    for _ in 0..20 {
        engine.analyze_event(&event("ERROR", "bad"));
    }
    engine.detect_frequency_anomalies("now");
    assert!(engine.get_anomalies().is_empty());
    engine.analyze_event(&event("ERROR", "bad"));
    engine.detect_frequency_anomalies("now");
    assert_eq!(engine.get_anomalies().len(), 1);
    assert_eq!(engine.get_anomalies()[0].reason, "Error rate spike: 100.0% vs 1.0%");

    let mut engine = AnomalyEngine::new();
    for i in 0..100 {
        engine.analyze_event(&event(if (50..55).contains(&i) { "ERROR" } else { "INFO" }, "history"));
    }
    for i in 0..20 {
        engine.analyze_event(&event(if i >= 17 { "ERROR" } else { "INFO" }, "recent"));
    }
    engine.detect_frequency_anomalies("now");
    assert!(engine.get_anomalies().is_empty());
    engine.analyze_event(&event("ERROR", "recent"));
    engine.detect_frequency_anomalies("now");
    assert_eq!(engine.get_anomalies().len(), 1);
    assert_eq!(engine.get_anomalies()[0].reason, "Error rate spike: 20.0% vs 5.0%");
}

fn pattern_buffer(occurrences: usize) -> AnomalyEngine {
    let mut engine = AnomalyEngine::new();
    for i in 0..(200 - occurrences) {
        engine.analyze_event(&event("INFO", if i % 2 == 0 { "heartbeat ok" } else { "cache hit" }));
    }
    for i in 0..occurrences {
        engine.analyze_event(&event("ERROR", &format!("Connection {} failed", 40 + i)));
    }
    engine
}

#[test]
fn rare_pattern_seen_once_is_flagged() {
    let mut engine = pattern_buffer(1);
    assert_eq!(extract_log_pattern("Connection 40 failed"), "Connection <NUM> failed");
    engine.detect_pattern_anomalies("now");
    let anomalies = engine.get_anomalies();
    assert_eq!(anomalies.len(), 1);
    assert_eq!(anomalies[0].event.message, "Connection 40 failed");
    assert_eq!(anomalies[0].event.level, "ERROR");
    assert_eq!(anomalies[0].reason, "Rare error pattern (seen 1 times)");
    assert_eq!(anomalies[0].algorithm, "LogEmbedding");
    assert_eq!(score(&anomalies[0]), 0.78);
}

#[test]
fn pattern_seen_five_times_is_not_flagged() {
    let mut engine = pattern_buffer(5);
    engine.detect_pattern_anomalies("now");
    assert!(engine.get_anomalies().is_empty());
}

#[test]
fn one_percent_of_the_buffer_is_not_rounded() {
    let mut engine = AnomalyEngine::new();
    for _ in 0..149 {
        engine.analyze_event(&event("INFO", "heartbeat ok"));
    }
    engine.analyze_event(&event("ERROR", "Connection 42 failed"));
    engine.detect_pattern_anomalies("now");
    let anomalies = engine.get_anomalies();
    assert_eq!(anomalies.len(), 1);
    assert_eq!(anomalies[0].event.message, "Connection 42 failed");
    assert_eq!(anomalies[0].reason, "Rare error pattern (seen 1 times)");

    let mut engine = AnomalyEngine::new();
    for _ in 0..148 {
        engine.analyze_event(&event("INFO", "heartbeat ok"));
    }
    engine.analyze_event(&event("ERROR", "Connection 41 failed"));
    engine.analyze_event(&event("ERROR", "Connection 42 failed"));
    engine.detect_pattern_anomalies("now");
    assert!(engine.get_anomalies().is_empty());
}

#[test]
fn rare_pattern_threshold_is_at_least_one() {
    let mut engine = AnomalyEngine::new();
    for _ in 0..99 {
        engine.analyze_event(&event("INFO", "heartbeat ok"));
    }
    engine.analyze_event(&event("ERROR", "Connection 7 failed"));
    engine.detect_pattern_anomalies("now");
    assert!(engine.get_anomalies().is_empty());
    engine.analyze_event(&event("INFO", "heartbeat ok"));
    engine.detect_pattern_anomalies("now");
    assert_eq!(engine.get_anomalies().len(), 1);
    let mut empty = AnomalyEngine::new();
    empty.detect_pattern_anomalies("now");
    assert!(empty.get_anomalies().is_empty());
    let mut single = AnomalyEngine::new();
    single.analyze_event(&event("ERROR", "Connection 7 failed"));
    single.detect_pattern_anomalies("now");
    assert!(single.get_anomalies().is_empty());
}

#[test]
fn rare_pattern_only_looks_at_ten_most_recent() {
    let mut engine = AnomalyEngine::new();
    engine.analyze_event(&event("ERROR", "Connection 7 failed"));
    for _ in 0..299 {
        engine.analyze_event(&event("INFO", "heartbeat ok"));
    }
    engine.detect_pattern_anomalies("now");
    assert!(engine.get_anomalies().is_empty());
    engine.analyze_event(&event("ERROR", "disk /dev/sda1 gone"));
    engine.analyze_event(&event("ERROR", "mail to root@example.com bounced"));
    engine.detect_pattern_anomalies("now");
    let anomalies = engine.get_anomalies();
    assert_eq!(anomalies.len(), 2);
    assert_eq!(anomalies[0].event.message, "mail to root@example.com bounced");
    assert_eq!(anomalies[1].event.message, "disk /dev/sda1 gone");
    assert_eq!(anomalies[1].reason, "Rare error pattern (seen 1 times)");
}

#[test]
fn log_pattern_replaces_token_classes() {
    assert_eq!(extract_log_pattern("Connection 42 failed"), "Connection <NUM> failed");
    assert_eq!(
        extract_log_pattern("  mail  bob@example.com to /var/log\tx1 "),
        "mail <EMAIL> to <PATH> <NUM>"
    );
    assert_eq!(extract_log_pattern("user7@host /tmp/f9 /tmp/f"), "<NUM> <NUM> <PATH>");
    assert_eq!(extract_log_pattern(""), "");
    assert_eq!(extract_log_pattern("plain words only"), "plain words only");
    assert_eq!(extract_log_pattern("a/b ٣"), "a/b ٣");
}

#[test]
fn length_heuristic_flags_long_errors() {
    let mut engine = AnomalyEngine::new();
    for _ in 0..9 {
        engine.analyze_event(&event("INFO", "ok"));
    }
    engine.detect_statistical_anomalies("now");
    assert!(engine.get_anomalies().is_empty());
    let long = "x".repeat(100);
    engine.analyze_event(&event("ERROR", &long));
    engine.detect_statistical_anomalies("now");
    let anomalies = engine.get_anomalies();
    assert_eq!(anomalies.len(), 1);
    assert_eq!(anomalies[0].reason, "Unusually long error message (100 chars vs 11 avg)");
    assert_eq!(anomalies[0].algorithm, "StatisticalAnalysis");
    assert_eq!(score(&anomalies[0]), 0.85);
    assert_eq!(anomalies[0].event.message, long);
}

#[test]
fn length_heuristic_needs_error_level_and_more_than_three_times_mean() {
    let mut engine = AnomalyEngine::new();
    for _ in 0..9 {
        engine.analyze_event(&event("INFO", "ok"));
    }
    engine.analyze_event(&event("WARN", &"x".repeat(100)));
    engine.detect_statistical_anomalies("now");
    assert!(engine.get_anomalies().is_empty());

    let mut engine = AnomalyEngine::new();
    for _ in 0..9 {
        engine.analyze_event(&event("INFO", "abcd"));
    }
    engine.analyze_event(&event("ERROR", &"x".repeat(15)));
    engine.detect_statistical_anomalies("now");
    assert!(engine.get_anomalies().is_empty());
    let mut engine = AnomalyEngine::new();
    for _ in 0..9 {
        engine.analyze_event(&event("INFO", "abcd"));
    }
    engine.analyze_event(&event("ERROR", &"x".repeat(16)));
    engine.detect_statistical_anomalies("now");
    assert_eq!(engine.get_anomalies().len(), 1);
    assert_eq!(
        engine.get_anomalies()[0].reason,
        "Unusually long error message (16 chars vs 5 avg)"
    );
}

#[test]
fn length_is_counted_in_bytes() {
    let mut engine = AnomalyEngine::new();
    for _ in 0..9 {
        engine.analyze_event(&event("INFO", "ok"));
    }
    engine.analyze_event(&event("ERROR", &"é".repeat(10)));
    engine.detect_statistical_anomalies("now");
    let anomalies = engine.get_anomalies();
    assert_eq!(anomalies.len(), 1);
    assert_eq!(anomalies[0].reason, "Unusually long error message (20 chars vs 3 avg)");
}

#[test]
fn tick_runs_all_detectors_without_deduplication() {
    let mut engine = AnomalyEngine::new();
    for _ in 0..199 {
        engine.analyze_event(&event("INFO", "ok"));
    }
    for i in 0..3 {
        engine.analyze_event(&event("ERROR", &format!("{} {}", "y".repeat(60), i)));
    }
    engine.tick("t1");
    let algorithms: Vec<String> =
        engine.get_anomalies().iter().map(|a| a.algorithm.clone()).collect();
    assert_eq!(
        algorithms,
        vec![
            "StatisticalAnalysis",
            "StatisticalAnalysis",
            "StatisticalAnalysis",
            "RandomCutForest"
        ]
    );
    engine.tick("t2");
    assert_eq!(engine.get_anomalies().len(), 8);
    assert_eq!(engine.get_anomalies()[4].timestamp, "t2");
    assert_eq!(TICK_SECONDS, 30);
}

#[test]
fn anomaly_store_keeps_last_hundred() {
    let mut engine = burst_buffer(3);
    for i in 0..150 {
        engine.detect_frequency_anomalies(&format!("t{}", i));
    }
    let anomalies = get_anomalies(&engine);
    assert_eq!(anomalies.len(), 100);
    assert_eq!(ANOMALY_CAPACITY, 100);
    assert_eq!(anomalies[0].timestamp, "t50");
    assert_eq!(anomalies[99].timestamp, "t149");
    assert_eq!(engine.anomaly_count(), 100);
}

#[test]
fn event_buffer_keeps_last_thousand() {
    let mut engine = AnomalyEngine::new();
    for i in 0..1005 {
        analyze_event(&mut engine, &event("INFO", &format!("m{}", i)));
    }
    assert_eq!(engine.events().len(), 1000);
    assert_eq!(EVENT_CAPACITY, 1000);
    assert_eq!(engine.events()[0].message, "m5");
    assert_eq!(engine.events()[999].message, "m1004");
}

#[test]
fn cpu_above_ninety_records_anomaly_from_fallback() {
    let mut engine = AnomalyEngine::new();
    let gemma = GemmaAI::new();
    engine.analyze_metric(&gemma, &metric("cpu", 95_500), None, "now");
    let anomalies = engine.get_anomalies();
    assert_eq!(anomalies.len(), 1);
    let a = &anomalies[0];
    assert_eq!(score(a), 0.95);
    assert_eq!(a.timestamp, "now");
    assert_eq!(a.algorithm, "EnhancedFallback");
    assert_eq!(a.event.level, "WARN");
    assert_eq!(a.event.message, "High CPU usage: 95.5%");
    assert_eq!(a.event.service, "system");
    assert_eq!(a.event.source, "metrics");
    assert_eq!(a.event.agent_id, "edge-1");
    assert_eq!(a.event.timestamp, "2026-01-01T00:00:05+00:00");
    assert_eq!(a.event.trace_id, None);
    assert_eq!(a.reason, "High resource utilization causing application instability");
    let h = a.humanized.as_ref().unwrap();
    assert_eq!(h.original_message, "High CPU usage: 95.5%");
    assert_eq!(h.severity, "HIGH");
    assert_eq!(h.possible_causes, vec![a.reason.clone()]);
    assert_eq!(h.confidence, Decimal::from_milli(890));
    assert_eq!(h.suggested_fixes.len(), 3);
    assert_eq!(
        h.human_explanation,
        "HIGH RISK: Agent edge-1 significant stress - CPU 95.5%, Memory 72.0%, 0 errors - performance degradation imminent. "
    );
}

#[test]
fn cpu_alarm_is_tagged_by_the_backend_that_answered() {
    let mut gemma = GemmaAI::new();
    gemma.initialize(&vec!["m.gguf".to_string()]);
    let mut engine = AnomalyEngine::new();
    engine.analyze_metric(
        &gemma,
        &metric("cpu", 99_000),
        Some("ANALYSIS: runaway\nROOT_CAUSE: loop\nSEVERITY: CRITICAL"),
        "now",
    );
    engine.analyze_metric(&gemma, &metric("cpu", 99_000), Some("no fields"), "now");
    engine.analyze_metric(&gemma, &metric("cpu", 99_000), None, "now");
    let anomalies = engine.get_anomalies();
    assert_eq!(anomalies.len(), 3);
    assert_eq!(anomalies[0].algorithm, "GemmaAI");
    assert_eq!(anomalies[0].reason, "loop");
    assert_eq!(anomalies[0].event.message, "High CPU usage: 99%");
    assert_eq!(
        anomalies[0].humanized.as_ref().unwrap().human_explanation,
        "GGUF Model: runaway"
    );
    assert_eq!(anomalies[1].algorithm, "EnhancedFallback");
    assert_eq!(anomalies[2].algorithm, "EnhancedFallback");
}

#[test]
fn other_samples_record_nothing() {
    let mut engine = AnomalyEngine::new();
    let gemma = GemmaAI::new();
    engine.analyze_metric(&gemma, &metric("cpu", 90_000), None, "now");
    engine.analyze_metric(&gemma, &metric("cpu", 12_000), None, "now");
    engine.analyze_metric(&gemma, &metric("memory", 99_000), None, "now");
    engine.analyze_metric(&gemma, &metric("CPU", 99_000), None, "now");
    assert!(engine.get_anomalies().is_empty());
    assert!(engine.metric_context(&metric("cpu", 90_000)).is_none());
    assert!(engine.metric_context(&metric("cpu", 90_001)).is_some());
}

#[test]
fn metric_context_is_drawn_from_the_buffer() {
    let mut engine = AnomalyEngine::new();
    for i in 0..15 {
        engine.analyze_event(&event(if i % 3 == 0 { "ERROR" } else { "INFO" }, &format!("m{}", i)));
    }
    let mut foreign = event("ERROR", "foreign");
    foreign.service = "other".to_string();
    foreign.agent_id = "other".to_string();
    engine.analyze_event(&foreign);
    let mut by_service = event("INFO", "by service");
    by_service.service = "edge-1".to_string();
    by_service.agent_id = "other".to_string();
    engine.analyze_event(&by_service);
    let c = engine.metric_context(&metric("cpu", 97_250)).unwrap();
    assert_eq!(c.agent_id, "edge-1");
    assert_eq!(c.cpu_usage, Decimal::from_milli(97_250));
    assert_eq!(c.memory_usage, Decimal::from_milli(72_000));
    assert_eq!(c.error_count, 5);
    assert_eq!(c.health_status, "degraded");
    assert_eq!(
        c.logs,
        vec!["m6", "m7", "m8", "m9", "m10", "m11", "m12", "m13", "m14", "by service"]
    );
    assert_eq!(engine.get_recent_logs("nobody"), Vec::<String>::new());
    assert_eq!(engine.count_recent_errors("other"), 1);
}

#[test]
fn memory_estimate_and_health_lookup() {
    assert_eq!(get_memory_usage(""), Decimal::from_milli(60_000));
    assert_eq!(get_memory_usage("edge-1"), Decimal::from_milli(72_000));
    assert_eq!(get_memory_usage("abcdefghijklmnopqrs"), Decimal::from_milli(98_000));
    assert_eq!(get_memory_usage("abcdefghijklmnopqrst"), Decimal::from_milli(60_000));
    assert_eq!(get_memory_usage("é"), Decimal::from_milli(64_000));
    assert_eq!(get_health_status("demo-agent"), "healthy");
    assert_eq!(get_health_status("my-demo"), "healthy");
    assert_eq!(get_health_status("Demo"), "degraded");
    assert_eq!(get_health_status("edge-1"), "degraded");
}

#[test]
fn explanation_is_set_at_most_once() {
    let mut engine = burst_buffer(3);
    engine.detect_frequency_anomalies("now");
    assert_eq!(engine.needs_humanization(0), Some("request 2 failed".to_string()));
    assert_eq!(engine.needs_humanization(1), None);
    let first = HumanizedLog::generic_for("request 2 failed");
    let mut second = HumanizedLog::generic_for("request 2 failed");
    second.severity = "HIGH".to_string();
    engine.set_humanized(0, first.clone());
    assert_eq!(engine.needs_humanization(0), None);
    engine.set_humanized(0, second.clone());
    engine.set_humanized(5, second);
    let anomalies = engine.get_anomalies();
    assert_eq!(anomalies.len(), 1);
    assert_eq!(anomalies[0].humanized, Some(first));
    assert_eq!(anomalies[0].reason, "Error rate spike: 15.0% vs 0.0%");
}

#[test]
fn missing_explanations_are_filled_lazily() {
    let mut engine = AnomalyEngine::new();
    let gemma = GemmaAI::new();
    let humanizer = LogHumanizer::new();
    for _ in 0..199 {
        engine.analyze_event(&event("INFO", "ok"));
    }
    engine.analyze_event(&event("ERROR", "Connection refused to db 7"));
    engine.detect_pattern_anomalies("t1");
    engine.analyze_metric(&gemma, &metric("cpu", 99_000), None, "t2");
    engine.analyze_event(&event("ERROR", "strange thing 8"));
    engine.detect_pattern_anomalies("t3");
    let before = engine.get_anomalies();
    assert_eq!(before.len(), 4);
    assert_eq!(
        engine.pending_messages(),
        vec!["Connection refused to db 7", "strange thing 8", "Connection refused to db 7"]
    );
    let body = r#"{"response":"{\"severity\":\"WARN\"}"}"#.to_string();
    let replies = vec![
        ModelReply { message: "Connection refused to db 7".to_string(), body: Some(body.clone()) },
        ModelReply { message: "unasked".to_string(), body: None },
        ModelReply { message: "strange thing 8".to_string(), body: Some(body) },
        ModelReply { message: "strange thing 8".to_string(), body: None },
    ];
    engine.humanize_pending(&humanizer, &replies);
    assert!(engine.pending_messages().is_empty());
    let after = engine.get_anomalies();
    assert_eq!(after.len(), 4);
    assert_eq!(after[0].humanized.as_ref().unwrap().severity, "HIGH");
    assert_eq!(after[0].humanized.as_ref().unwrap().confidence, Decimal::from_milli(900));
    assert_eq!(after[1].humanized, before[1].humanized);
    assert_eq!(after[1].algorithm, "EnhancedFallback");
    assert_eq!(after[2].event.message, "strange thing 8");
    assert_eq!(after[2].humanized.as_ref().unwrap().severity, "WARN");
    assert_eq!(after[2].humanized.as_ref().unwrap().confidence, Decimal::from_milli(800));
    assert_eq!(after[3].event.message, "Connection refused to db 7");
    assert_eq!(after[3].humanized.as_ref().unwrap().severity, "HIGH");
    for (a, b) in before.iter().zip(after.iter()) {
        assert_eq!((&a.timestamp, &a.reason, &a.event), (&b.timestamp, &b.reason, &b.event));
    }
    engine.humanize_pending(&humanizer, &Vec::new());
    assert_eq!(engine.get_anomalies(), after);
}

#[test]
fn recent_logs_and_error_count_of_an_agent() {
    let mut engine = AnomalyEngine::new();
    for i in 0..12 {
        engine.analyze_event(&event(if i < 4 { "ERROR" } else { "INFO" }, &format!("m{}", i)));
    }
    let logs = monx::ml::get_recent_logs(&engine, "edge-1");
    assert_eq!(logs, vec!["m2", "m3", "m4", "m5", "m6", "m7", "m8", "m9", "m10", "m11"]);
    assert_eq!(monx::ml::get_recent_logs(&engine, "checkout").len(), 10);
    assert_eq!(monx::ml::count_recent_errors(&engine, "edge-1"), 4);
    assert_eq!(monx::ml::count_recent_errors(&engine, "nobody"), 0);
}
