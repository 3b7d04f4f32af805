use monx::collector::{
    access_level, collect_database_queries, collect_docker_logs, collect_http_calls,
    collect_http_traces, collect_nginx_logs, collect_processes, collect_traces, container_names,
    count_app_processes, count_listening_ports, extract_log_level, health_result,
    level_from_lowered, parse_process_line, sample_trace,
};
use monx::config::{AgentConfig, CollectionConfig, Config};
use monx::decimal::Decimal;
use monx::events::LogData;
use monx::registry::Capability;
use monx::reporter::{
    register_agent, register_url, report_url, send_comprehensive_data, ReportKind,
};

fn config() -> Config {
    Config {
        agent: AgentConfig {
            name: "edge-1".to_string(),
            server_url: "http://localhost:8080".to_string(),
            report_interval: 10,
        },
        collection: CollectionConfig {
            metrics: true,
            logs: true,
            traces: false,
            processes: true,
            health: true,
            docker: false,
            nginx_log_path: None,
            health_check_urls: vec!["http://localhost/health".to_string()],
        },
    }
}

const LISTING: &str = "Netid State  Local Address:Port\ntcp LISTEN 0.0.0.0:80 *\ntcp LISTEN 0.0.0.0:22 *\ntcp LISTEN 127.0.0.1:5432 *\ntcp ESTAB 10.0.0.1:443 *\ntcp LISTEN [::]:3306 *\ntcp LISTEN 0.0.0.0:27017 *\ntcp LISTEN 0.0.0.0:8080 *\n";

#[test]
fn log_level_is_read_from_the_line() {
    assert_eq!(extract_log_level("2026 ERROR db down"), "ERROR");
    assert_eq!(extract_log_level("Fatal: out of disk"), "ERROR");
    assert_eq!(extract_log_level("Warning: slow"), "WARN");
    assert_eq!(extract_log_level("Info: started"), "INFO");
    assert_eq!(extract_log_level("debugging"), "DEBUG");
    assert_eq!(extract_log_level(""), "DEBUG");
    assert_eq!(extract_log_level("info before warn and ERROR"), "ERROR");
    assert_eq!(extract_log_level("information, warned"), "WARN");
    assert_eq!(level_from_lowered("ERROR"), "DEBUG");
    assert_eq!(level_from_lowered("an error"), "ERROR");
}

#[test]
fn access_log_level() {
    assert_eq!(access_level("GET / HTTP/1.1 200 512"), "INFO");
    assert_eq!(access_level("POST /u HTTP/1.1 201 12"), "INFO");
    assert_eq!(access_level("GET / HTTP/1.1 404 0"), "WARN");
    assert_eq!(access_level("GET /200 HTTP/1.1 500 0"), "WARN");
    assert_eq!(access_level("200"), "WARN");
}

#[test]
fn nginx_lines_become_records() {
    let lines: Vec<String> = (0..25).map(|i| format!("GET /{} HTTP/1.1 {} 1", i, 200 + i)).collect();
    let mut logs = vec![LogData {
        timestamp: 0,
        agent_id: "x".to_string(),
        level: "INFO".to_string(),
        message: "kept".to_string(),
        source: "s".to_string(),
    }];
    collect_nginx_logs(&mut logs, "edge-1", 77, &lines);
    assert_eq!(logs.len(), 21);
    assert_eq!(logs[0].message, "kept");
    assert_eq!(logs[1].message, lines[0]);
    assert_eq!(logs[1].level, "INFO");
    assert_eq!(logs[2].level, "INFO");
    assert_eq!(logs[3].level, "WARN");
    assert_eq!(logs[20].message, lines[19]);
    assert_eq!(logs[20].source, "nginx");
    assert_eq!(logs[20].agent_id, "edge-1");
    assert_eq!(logs[20].timestamp, 77);
}

#[test]
fn docker_lines_become_records() {
    let mut logs = Vec::new();
    collect_docker_logs(&mut logs, "edge-1", 5, "web", "started\nERROR boom\r\nwarned you\n");
    assert_eq!(logs.len(), 3);
    assert_eq!(logs[0].level, "DEBUG");
    assert_eq!(logs[1].level, "ERROR");
    assert_eq!(logs[1].message, "ERROR boom");
    assert_eq!(logs[2].level, "WARN");
    assert_eq!(logs[2].source, "docker:web");
    assert_eq!(logs[2].timestamp, 5);
    assert_eq!(container_names("a\nb\nc\nd\ne\nf\ng\n"), vec!["a", "b", "c", "d", "e"]);
    assert_eq!(container_names("only\n"), vec!["only"]);
    assert!(container_names("").is_empty());
}

#[test]
fn health_results() {
    let ok = health_result("edge-1", "http://x", 9, Some(204), 12);
    assert!(ok.is_healthy);
    assert_eq!((ok.status_code, ok.response_time_ms, ok.timestamp), (204, 12, 9));
    assert_eq!((ok.agent_id.as_str(), ok.url.as_str()), ("edge-1", "http://x"));
    assert!(health_result("a", "u", 0, Some(200), 0).is_healthy);
    assert!(health_result("a", "u", 0, Some(399), 0).is_healthy);
    assert!(!health_result("a", "u", 0, Some(400), 0).is_healthy);
    assert!(!health_result("a", "u", 0, Some(199), 0).is_healthy);
    let down = health_result("a", "u", 0, None, 5000);
    assert!(!down.is_healthy);
    assert_eq!(down.status_code, 0);
}

#[test]
fn http_calls_from_socket_listing() {
    let calls = collect_http_calls(&config(), 42, LISTING);
    assert_eq!(calls.len(), 3);
    for call in &calls {
        assert_eq!(call.agent_id, "edge-1");
        assert_eq!(call.timestamp, 42);
        assert_eq!(call.method, "GET");
        assert_eq!(call.url, "detected_connection");
        assert_eq!(call.status_code, 200);
        assert_eq!((call.duration_ms, call.request_size, call.response_size), (0, 0, 0));
    }
    assert!(collect_http_calls(&config(), 42, "").is_empty());
}

#[test]
fn database_queries_from_socket_listing() {
    let queries = collect_database_queries(&config(), 42, LISTING);
    let kinds: Vec<&str> = queries.iter().map(|q| q.db_type.as_str()).collect();
    assert_eq!(kinds, vec!["postgresql", "mysql", "mongodb"]);
    for q in &queries {
        assert_eq!(q.query, "connection_detected");
        assert_eq!(q.agent_id, "edge-1");
        assert_eq!(q.timestamp, 42);
        assert_eq!((q.duration_ms, q.rows_affected), (0, 0));
        assert!(q.error.is_none());
    }
    let both = collect_database_queries(&config(), 1, "a :3306 and :5432\n");
    assert_eq!(both.len(), 1);
    assert_eq!(both[0].db_type, "postgresql");
}

#[test]
fn listing_counts() {
    assert_eq!(count_listening_ports(LISTING), 6);
    assert_eq!(count_listening_ports("listen\n"), 0);
    let ps = "root 1 0.0 0.1 init\napp 2 1.0 2.0 /usr/bin/node server.js\napp 3 0.5 1.0 python3 job.py\napp 4 0.5 1.0 java -jar a.jar\napp 5 0.0 0.0 nodejs python\n";
    assert_eq!(count_app_processes(ps), 4);
    assert_eq!(count_app_processes(""), 0);
}

#[test]
fn sample_traces_have_fresh_identifiers() {
    let traces = collect_traces(&config(), 99);
    assert_eq!(traces.len(), 5);
    let operations: Vec<&str> = traces.iter().map(|t| t.operation.as_str()).collect();
    assert_eq!(
        operations,
        vec!["GET /api/health", "POST /api/users", "GET /api/metrics", "PUT /api/config", "DELETE /api/cache"]
    );
    let durations: Vec<u64> = traces.iter().map(|t| t.duration_ms).collect();
    assert_eq!(durations, vec![45, 120, 30, 85, 15]);
    let statuses: Vec<&str> = traces.iter().map(|t| t.status.as_str()).collect();
    assert_eq!(statuses, vec!["200", "201", "200", "200", "204"]);
    let mut ids: Vec<&str> = Vec::new();
    for t in &traces {
        assert_eq!(t.agent_id, "edge-1");
        assert_eq!(t.timestamp, 99);
        assert!(uuid::Uuid::parse_str(&t.trace_id).is_ok());
        assert!(uuid::Uuid::parse_str(&t.span_id).is_ok());
        assert_eq!((t.trace_id.chars().count(), t.span_id.chars().count()), (36, 36));
        ids.push(&t.trace_id);
        ids.push(&t.span_id);
    }
    ids.sort();
    ids.dedup();
    assert_eq!(ids.len(), 10);
    let mut more = traces.clone();
    collect_http_traces(&mut more, "edge-2", 100);
    assert_eq!(more.len(), 10);
    assert_eq!(more[..5], traces[..]);
    assert_eq!(more[5].agent_id, "edge-2");
    let t = sample_trace("a", 1, 4, "tid".to_string(), "sid".to_string());
    assert_eq!((t.trace_id.as_str(), t.span_id.as_str()), ("tid", "sid"));
    assert_eq!(t.operation, "DELETE /api/cache");
}

#[test]
fn processes_from_listing() {
    let ps = "root         1  0.0  0.1 168140 11788 ?        Ss   Oct27   0:03 /sbin/init splash\napp       4242 12.5  3.2 998877 66554 pts/0    Sl+  10:01   1:22 node server.js\nshort line\nbad        abc  1.0  1.0 1 1 ? S 1 1 name\nbad         77  x.y  1.0 1 1 ? S 1 1 name\n";
    let processes = collect_processes(&config(), 7, ps);
    assert_eq!(processes.len(), 2);
    assert_eq!(processes[0].pid, 1);
    assert_eq!(processes[0].name, "/sbin/init");
    assert_eq!(processes[0].status, "Ss");
    assert_eq!(processes[0].cpu_percent, Decimal::from_milli(0));
    assert_eq!(processes[0].memory_mb, Decimal::from_milli(100));
    assert_eq!(processes[1].pid, 4242);
    assert_eq!(processes[1].name, "node");
    assert_eq!(processes[1].status, "Sl+");
    assert_eq!(processes[1].cpu_percent, Decimal::from_milli(12_500));
    assert_eq!(processes[1].memory_mb, Decimal::from_milli(3_200));
    assert_eq!(processes[1].agent_id, "edge-1");
    assert_eq!(processes[1].timestamp, 7);
    let line: Vec<char> = "a 1 2 3 4 5 6 7 8 9".chars().collect();
    assert!(parse_process_line(&line, "a", 0).is_none());
}

#[test]
fn only_first_twenty_process_lines_are_read() {
    let mut ps = String::new();
    for i in 0..30 {
        ps.push_str(&format!("u {} 0.0 0.0 1 1 ? S 1 0:00 cmd{}\n", i, i));
    }
    let processes = collect_processes(&config(), 7, &ps);
    assert_eq!(processes.len(), 20);
    assert_eq!(processes[19].name, "cmd19");
}

#[test]
fn registration_announces_capabilities() {
    let capabilities = register_agent(&config());
    let expected: Vec<Capability> = [
        ("metrics", true),
        ("logs", true),
        ("traces", false),
        ("processes", true),
        ("health", true),
        ("docker", false),
    ]
    .into_iter()
    .map(|(name, enabled)| Capability { name: name.to_string(), enabled })
    .collect();
    assert_eq!(capabilities, expected);
    assert_eq!(register_url("http://h:1"), "http://h:1/api/agents/register");
}

#[test]
fn report_sends_enabled_and_non_empty_kinds() {
    let c = config();
    assert_eq!(
        send_comprehensive_data(&c, 3, 1, 5, 1, 1),
        vec![ReportKind::Metrics, ReportKind::Logs, ReportKind::Processes, ReportKind::Health]
    );
    assert_eq!(send_comprehensive_data(&c, 0, 1, 5, 0, 0), vec![ReportKind::Logs]);
    assert!(send_comprehensive_data(&c, 0, 0, 0, 0, 0).is_empty());
    assert_eq!(report_url("http://h", ReportKind::Metrics), "http://h/api/agents/metrics");
    assert_eq!(report_url("http://h", ReportKind::Logs), "http://h/api/agents/logs");
    assert_eq!(report_url("http://h", ReportKind::Traces), "http://h/api/agents/traces");
    assert_eq!(report_url("http://h", ReportKind::Processes), "http://h/api/agents/processes");
    assert_eq!(report_url("http://h", ReportKind::Health), "http://h/api/agents/health");
    assert_eq!(report_url("http://h", ReportKind::HttpCalls), "http://h/api/agents/http-calls");
    assert_eq!(
        report_url("http://h", ReportKind::DatabaseQueries),
        "http://h/api/agents/database-queries"
    );
}
