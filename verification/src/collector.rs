//! What an agent makes of what it reads: the records that it derives from
//! listings, log files and health checks.

use crate::config::Config;
use crate::decimal::{parse_u32, parsed, parsed_u32, Decimal};
use crate::events::{DatabaseQueryData, HealthData, HttpCallData, LogData, ProcessData, TraceData};
use crate::seqs::count_where;
use crate::text::{
    chars_of, contains, lines, lines_of, lowercase, occurs, push_str, str_contains, string_of,
    texts, views, words, words_of,
};
use vstd::prelude::*;
use vstd::string::StringExecFns;

verus! {

/// The number of lines of a process listing that are read.
pub const PROCESS_LINES: usize = 20;

/// The number of lines of a log file that are read.
pub const NGINX_LINES: usize = 20;

/// The number of containers whose logs are read.
pub const CONTAINERS: usize = 5;

/// The seconds after which a health check is given up.
pub const HEALTH_TIMEOUT_SECONDS: u64 = 5;

/// The level of a log line, given its lowercase form: `ERROR` for one that
/// holds `error` or `fatal`, else `WARN` for one that holds `warn`, else
/// `INFO` for one that holds `info`, else `DEBUG`.
pub open spec fn level_of(lowered: Seq<char>) -> Seq<char> {
    if occurs(lowered, "error"@) || occurs(lowered, "fatal"@) {
        "ERROR"@
    } else if occurs(lowered, "warn"@) {
        "WARN"@
    } else if occurs(lowered, "info"@) {
        "INFO"@
    } else {
        "DEBUG"@
    }
}

/// The level of a log line whose lowercase form is `lowered`.
pub fn level_from_lowered(lowered: &str) -> (r: String)
    ensures
        r@ == level_of(lowered@),
{
    if str_contains(lowered, "error") || str_contains(lowered, "fatal") {
        String::from_str("ERROR")
    } else if str_contains(lowered, "warn") {
        String::from_str("WARN")
    } else if str_contains(lowered, "info") {
        String::from_str("INFO")
    } else {
        String::from_str("DEBUG")
    }
}

/// The level of the log line `log_line`, whatever its case.
pub fn extract_log_level(log_line: &str) -> (r: String)
    ensures
        r@ == level_of(lowercase(log_line@)),
{
    let lowered = log_line.to_lowercase();
    level_from_lowered(lowered.as_str())
}

/// The level of a line of an access log: `INFO` for one that holds the
/// status 200 or 201 between spaces, `WARN` for any other.
pub open spec fn access_level_of(line: Seq<char>) -> Seq<char> {
    if occurs(line, " 200 "@) || occurs(line, " 201 "@) {
        "INFO"@
    } else {
        "WARN"@
    }
}

/// The level of the line `line` of an access log.
pub fn access_level(line: &str) -> (r: String)
    ensures
        r@ == access_level_of(line@),
{
    if str_contains(line, " 200 ") || str_contains(line, " 201 ") {
        String::from_str("INFO")
    } else {
        String::from_str("WARN")
    }
}

/// Appends to `logs` a record for each of the first 20 of `lines`, which are
/// the lines of an access log.
pub fn collect_nginx_logs(logs: &mut Vec<LogData>, agent_id: &str, timestamp: u64, lines: &Vec<String>)
    ensures
        final(logs)@.len() == old(logs)@.len() + (if lines@.len() < NGINX_LINES {
            lines@.len()
        } else {
            NGINX_LINES as nat
        }),
        final(logs)@.take(old(logs)@.len() as int) == old(logs)@,
        forall|k: int|
            old(logs)@.len() <= k < final(logs)@.len() ==> {
                let line = lines@[k - old(logs)@.len()];
                let log = #[trigger] final(logs)@[k];
                &&& log.timestamp == timestamp
                &&& log.agent_id@ == agent_id@
                &&& log.level@ == access_level_of(line@)
                &&& log.message@ == line@
                &&& log.source@ == "nginx"@
            },
{
    let n: usize = if lines.len() < NGINX_LINES {
        lines.len()
    } else {
        NGINX_LINES
    };
    let mut i: usize = 0;
    while i < n
        invariant
            i <= n <= lines.len(),
            logs@.len() == old(logs)@.len() + i,
            logs@.take(old(logs)@.len() as int) == old(logs)@,
            forall|k: int|
                old(logs)@.len() <= k < logs@.len() ==> {
                    let line = lines@[k - old(logs)@.len()];
                    let log = #[trigger] logs@[k];
                    &&& log.timestamp == timestamp
                    &&& log.agent_id@ == agent_id@
                    &&& log.level@ == access_level_of(line@)
                    &&& log.message@ == line@
                    &&& log.source@ == "nginx"@
                },
        decreases n - i,
    {
        let ghost before = logs@;
        logs.push(
            LogData {
                timestamp,
                agent_id: String::from_str(agent_id),
                level: access_level(lines[i].as_str()),
                message: lines[i].clone(),
                source: String::from_str("nginx"),
            },
        );
        proof {
            assert(logs@.take(old(logs)@.len() as int) =~= before.take(old(logs)@.len() as int));
        }
        i += 1;
    }
}

/// The source of the logs of the container `container`.
pub open spec fn docker_source(container: Seq<char>) -> Seq<char> {
    "docker:"@ + container
}

/// Appends to `logs` a record for each line of `content`, which is what the
/// container `container` logged; the level of a record is that of its line.
pub fn collect_docker_logs(
    logs: &mut Vec<LogData>,
    agent_id: &str,
    timestamp: u64,
    container: &str,
    content: &str,
)
    ensures
        final(logs)@.len() == old(logs)@.len() + lines_of(content@).len(),
        final(logs)@.take(old(logs)@.len() as int) == old(logs)@,
        forall|k: int|
            old(logs)@.len() <= k < final(logs)@.len() ==> {
                let line = lines_of(content@)[k - old(logs)@.len()];
                let log = #[trigger] final(logs)@[k];
                &&& log.timestamp == timestamp
                &&& log.agent_id@ == agent_id@
                &&& log.level@ == level_of(lowercase(line))
                &&& log.message@ == line
                &&& log.source@ == docker_source(container@)
            },
{
    let text = chars_of(content);
    let all = lines(&text);
    let mut i: usize = 0;
    while i < all.len()
        invariant
            i <= all.len(),
            texts(all@) == lines_of(content@),
            logs@.len() == old(logs)@.len() + i,
            logs@.take(old(logs)@.len() as int) == old(logs)@,
            forall|k: int|
                old(logs)@.len() <= k < logs@.len() ==> {
                    let line = lines_of(content@)[k - old(logs)@.len()];
                    let log = #[trigger] logs@[k];
                    &&& log.timestamp == timestamp
                    &&& log.agent_id@ == agent_id@
                    &&& log.level@ == level_of(lowercase(line))
                    &&& log.message@ == line
                    &&& log.source@ == docker_source(container@)
                },
        decreases all.len() - i,
    {
        let ghost before = logs@;
        let line = string_of(&all[i]);
        proof {
            assert(texts(all@)[i as int] == all@[i as int]@);
        }
        let mut source: Vec<char> = chars_of("docker:");
        push_str(&mut source, container);
        logs.push(
            LogData {
                timestamp,
                agent_id: String::from_str(agent_id),
                level: extract_log_level(line.as_str()),
                message: line,
                source: string_of(&source),
            },
        );
        proof {
            assert(logs@.take(old(logs)@.len() as int) =~= before.take(old(logs)@.len() as int));
        }
        i += 1;
    }
}

/// The names of the containers whose logs are read: the first five lines of
/// the listing `listing`.
pub fn container_names(listing: &str) -> (r: Vec<String>)
    ensures
        views(r@) == lines_of(listing@).take(
            if lines_of(listing@).len() < CONTAINERS {
                lines_of(listing@).len() as int
            } else {
                CONTAINERS as int
            },
        ),
{
    let text = chars_of(listing);
    let all = lines(&text);
    let n: usize = if all.len() < CONTAINERS {
        all.len()
    } else {
        CONTAINERS
    };
    let mut r: Vec<String> = Vec::new();
    let mut i: usize = 0;
    while i < n
        invariant
            i <= n <= all.len(),
            r@.len() == i,
            forall|k: int| 0 <= k < i ==> (#[trigger] r@[k])@ == all@[k]@,
        decreases n - i,
    {
        r.push(string_of(&all[i]));
        i += 1;
    }
    proof {
        assert(views(r@) =~= texts(all@).take(n as int));
    }
    r
}

/// A status code of a health check counts as healthy: it is at least 200 and
/// below 400.
pub open spec fn healthy_status(status: u16) -> bool {
    200 <= status < 400
}

/// The result of one health check of `url`: `status` is the status code of
/// the answer, or `None` where there was no answer, which counts as the
/// status 0 and as unhealthy.
pub fn health_result(
    agent_id: &str,
    url: &str,
    timestamp: u64,
    status: Option<u16>,
    response_time_ms: u64,
) -> (r: HealthData)
    ensures
        r.timestamp == timestamp,
        r.agent_id@ == agent_id@,
        r.url@ == url@,
        r.response_time_ms == response_time_ms,
        r.status_code == match status {
            Some(s) => s,
            None => 0,
        },
        r.is_healthy == match status {
            Some(s) => healthy_status(s),
            None => false,
        },
{
    let (status_code, is_healthy) = match status {
        Some(s) => (s, s >= 200 && s < 400),
        None => (0, false),
    };
    HealthData {
        timestamp,
        agent_id: String::from_str(agent_id),
        url: String::from_str(url),
        status_code,
        response_time_ms,
        is_healthy,
    }
}

/// A line of a socket listing names a port on which HTTP is served: 80, 443
/// or 8080.
pub open spec fn is_http_line(line: Seq<char>) -> bool {
    occurs(line, ":80"@) || occurs(line, ":443"@) || occurs(line, ":8080"@)
}

/// Whether a line of a socket listing names a port on which HTTP is served.
pub fn names_http_port(line: &Vec<char>) -> (r: bool)
    ensures
        r == is_http_line(line@),
{
    contains(line, &chars_of(":80")) || contains(line, &chars_of(":443")) || contains(
        line,
        &chars_of(":8080"),
    )
}

/// The record of a connection on a port on which HTTP is served.
pub fn detected_http_call(agent_id: &str, timestamp: u64) -> (r: HttpCallData)
    ensures
        r.timestamp == timestamp,
        r.agent_id@ == agent_id@,
        r.method@ == "GET"@,
        r.url@ == "detected_connection"@,
        r.status_code == 200,
        r.duration_ms == 0,
        r.request_size == 0,
        r.response_size == 0,
{
    HttpCallData {
        timestamp,
        agent_id: String::from_str(agent_id),
        method: String::from_str("GET"),
        url: String::from_str("detected_connection"),
        status_code: 200,
        duration_ms: 0,
        request_size: 0,
        response_size: 0,
    }
}

/// The HTTP call samples that the socket listing `listing` gives: one for
/// each line that names a port on which HTTP is served.
pub fn collect_http_calls(config: &Config, timestamp: u64, listing: &str) -> (r: Vec<HttpCallData>)
    ensures
        r@.len() == count_where(lines_of(listing@), |l: Seq<char>| is_http_line(l)),
        forall|k: int|
            0 <= k < r@.len() ==> {
                let call = #[trigger] r@[k];
                &&& call.timestamp == timestamp
                &&& call.agent_id@ == config.agent.name@
                &&& call.method@ == "GET"@
                &&& call.url@ == "detected_connection"@
                &&& call.status_code == 200
                &&& call.duration_ms == 0
                &&& call.request_size == 0
                &&& call.response_size == 0
            },
{
    let text = chars_of(listing);
    let all = lines(&text);
    let mut r: Vec<HttpCallData> = Vec::new();
    let mut i: usize = 0;
    let ghost p = |l: Seq<char>| is_http_line(l);
    let ghost read = texts(all@);
    proof {
        assert(read.take(0) =~= Seq::<Seq<char>>::empty());
    }
    while i < all.len()
        invariant
            i <= all.len(),
            read == texts(all@),
            p == |l: Seq<char>| is_http_line(l),
            r@.len() == count_where(read.take(i as int), p),
            forall|k: int|
                0 <= k < r@.len() ==> {
                    let call = #[trigger] r@[k];
                    &&& call.timestamp == timestamp
                    &&& call.agent_id@ == config.agent.name@
                    &&& call.method@ == "GET"@
                    &&& call.url@ == "detected_connection"@
                    &&& call.status_code == 200
                    &&& call.duration_ms == 0
                    &&& call.request_size == 0
                    &&& call.response_size == 0
                },
        decreases all.len() - i,
    {
        proof {
            assert(read.take(i + 1).drop_last() =~= read.take(i as int));
            assert(read.take(i + 1).last() == all@[i as int]@);
        }
        if names_http_port(&all[i]) {
            r.push(detected_http_call(config.agent.name.as_str(), timestamp));
        }
        i += 1;
    }
    proof {
        assert(read.take(all.len() as int) =~= read);
    }
    r
}

/// The database that a line of a socket listing names by its port: 5432 is
/// PostgreSQL, 3306 is MySQL, 27017 is MongoDB; `None` for a line that names
/// none of them.
pub open spec fn database_of(line: Seq<char>) -> Option<Seq<char>> {
    if occurs(line, ":5432"@) {
        Some("postgresql"@)
    } else if occurs(line, ":3306"@) {
        Some("mysql"@)
    } else if occurs(line, ":27017"@) {
        Some("mongodb"@)
    } else {
        None
    }
}

/// The database that the line `line` of a socket listing names.
pub fn database_named(line: &Vec<char>) -> (r: Option<String>)
    ensures
        match r {
            Some(d) => database_of(line@) == Some(d@),
            None => database_of(line@) is None,
        },
{
    if contains(line, &chars_of(":5432")) {
        Some(String::from_str("postgresql"))
    } else if contains(line, &chars_of(":3306")) {
        Some(String::from_str("mysql"))
    } else if contains(line, &chars_of(":27017")) {
        Some(String::from_str("mongodb"))
    } else {
        None
    }
}

/// The databases that the lines `lines` name, in their order.
pub open spec fn databases_of(lines: Seq<Seq<char>>) -> Seq<Seq<char>> {
    lines.filter_map(|l: Seq<char>| database_of(l))
}

/// The database query samples that the socket listing `listing` gives: one
/// for each line that names the port of a database.
pub fn collect_database_queries(config: &Config, timestamp: u64, listing: &str) -> (r: Vec<
    DatabaseQueryData,
>)
    ensures
        r@.len() == databases_of(lines_of(listing@)).len(),
        forall|k: int|
            0 <= k < r@.len() ==> {
                let q = #[trigger] r@[k];
                &&& q.timestamp == timestamp
                &&& q.agent_id@ == config.agent.name@
                &&& q.db_type@ == databases_of(lines_of(listing@))[k]
                &&& q.query@ == "connection_detected"@
                &&& q.duration_ms == 0
                &&& q.rows_affected == 0
                &&& q.error is None
            },
{
    let text = chars_of(listing);
    let all = lines(&text);
    let mut r: Vec<DatabaseQueryData> = Vec::new();
    let mut i: usize = 0;
    let ghost read = texts(all@);
    proof {
        assert(read.take(0) =~= Seq::<Seq<char>>::empty());
    }
    while i < all.len()
        invariant
            i <= all.len(),
            read == texts(all@),
            r@.len() == databases_of(read.take(i as int)).len(),
            forall|k: int|
                0 <= k < r@.len() ==> {
                    let q = #[trigger] r@[k];
                    &&& q.timestamp == timestamp
                    &&& q.agent_id@ == config.agent.name@
                    &&& q.db_type@ == databases_of(read.take(i as int))[k]
                    &&& q.query@ == "connection_detected"@
                    &&& q.duration_ms == 0
                    &&& q.rows_affected == 0
                    &&& q.error is None
                },
        decreases all.len() - i,
    {
        proof {
            assert(read.take(i + 1).drop_last() =~= read.take(i as int));
            assert(read.take(i + 1).last() == all@[i as int]@);
        }
        match database_named(&all[i]) {
            Some(db_type) => {
                r.push(
                    DatabaseQueryData {
                        timestamp,
                        agent_id: config.agent.name.clone(),
                        db_type,
                        query: String::from_str("connection_detected"),
                        duration_ms: 0,
                        rows_affected: 0,
                        error: None,
                    },
                );
            },
            None => {},
        }
        i += 1;
    }
    proof {
        assert(read.take(all.len() as int) =~= read);
    }
    r
}

/// A line of a process listing names an application runtime.
pub open spec fn is_app_line(line: Seq<char>) -> bool {
    occurs(line, "node"@) || occurs(line, "python"@) || occurs(line, "java"@)
}

/// A line of a socket listing names a listening socket.
pub open spec fn is_listening_line(line: Seq<char>) -> bool {
    occurs(line, "LISTEN"@)
}

/// The number of lines of the process listing `listing` that name an
/// application runtime.
pub fn count_app_processes(listing: &str) -> (r: usize)
    ensures
        r == count_where(lines_of(listing@), |l: Seq<char>| is_app_line(l)),
{
    let text = chars_of(listing);
    let all = lines(&text);
    let mut count: usize = 0;
    let mut i: usize = 0;
    let ghost p = |l: Seq<char>| is_app_line(l);
    let ghost read = texts(all@);
    proof {
        assert(read.take(0) =~= Seq::<Seq<char>>::empty());
    }
    while i < all.len()
        invariant
            i <= all.len(),
            count <= i,
            read == texts(all@),
            p == |l: Seq<char>| is_app_line(l),
            count == count_where(read.take(i as int), p),
        decreases all.len() - i,
    {
        proof {
            assert(read.take(i + 1).drop_last() =~= read.take(i as int));
            assert(read.take(i + 1).last() == all@[i as int]@);
        }
        let line = &all[i];
        if contains(line, &chars_of("node")) || contains(line, &chars_of("python")) || contains(
            line,
            &chars_of("java"),
        ) {
            count += 1;
        }
        i += 1;
    }
    proof {
        assert(read.take(all.len() as int) =~= read);
    }
    count
}

/// The number of lines of the socket listing `listing` that name a listening
/// socket.
pub fn count_listening_ports(listing: &str) -> (r: usize)
    ensures
        r == count_where(lines_of(listing@), |l: Seq<char>| is_listening_line(l)),
{
    let text = chars_of(listing);
    let all = lines(&text);
    let mut count: usize = 0;
    let mut i: usize = 0;
    let ghost p = |l: Seq<char>| is_listening_line(l);
    let ghost read = texts(all@);
    proof {
        assert(read.take(0) =~= Seq::<Seq<char>>::empty());
    }
    while i < all.len()
        invariant
            i <= all.len(),
            count <= i,
            read == texts(all@),
            p == |l: Seq<char>| is_listening_line(l),
            count == count_where(read.take(i as int), p),
        decreases all.len() - i,
    {
        proof {
            assert(read.take(i + 1).drop_last() =~= read.take(i as int));
            assert(read.take(i + 1).last() == all@[i as int]@);
        }
        if contains(&all[i], &chars_of("LISTEN")) {
            count += 1;
        }
        i += 1;
    }
    proof {
        assert(read.take(all.len() as int) =~= read);
    }
    count
}

/// The operation of the sample trace at `index`.
pub open spec fn trace_operation(index: int) -> Seq<char> {
    if index == 0 {
        "GET /api/health"@
    } else if index == 1 {
        "POST /api/users"@
    } else if index == 2 {
        "GET /api/metrics"@
    } else if index == 3 {
        "PUT /api/config"@
    } else {
        "DELETE /api/cache"@
    }
}

/// The duration of the sample trace at `index`, in milliseconds.
pub open spec fn trace_duration(index: int) -> u64 {
    if index == 0 {
        45
    } else if index == 1 {
        120
    } else if index == 2 {
        30
    } else if index == 3 {
        85
    } else {
        15
    }
}

/// The status of the sample trace at `index`.
pub open spec fn trace_status(index: int) -> Seq<char> {
    if index == 0 {
        "200"@
    } else if index == 1 {
        "201"@
    } else if index == 2 {
        "200"@
    } else if index == 3 {
        "200"@
    } else {
        "204"@
    }
}

/// The number of characters of an identifier.
pub const IDENTIFIER_LENGTH: usize = 36;

/// `uuid::Uuid::new_v4`, written as text: a fresh random identifier in the
/// hyphenated form, which has 36 characters. Each call gives another, so
/// nothing more is promised of it.
#[verifier::external_body]
fn fresh_identifier() -> (r: String)
    ensures
        r@.len() == IDENTIFIER_LENGTH,
{
    uuid::Uuid::new_v4().to_string()
}

/// The sample trace at `index`, with the identifiers `trace_id` and
/// `span_id`; an index past the fourth gives the fifth trace.
pub fn sample_trace(agent_id: &str, timestamp: u64, index: usize, trace_id: String, span_id: String)
    -> (r: TraceData)
    ensures
        r.timestamp == timestamp,
        r.agent_id@ == agent_id@,
        r.trace_id == trace_id,
        r.span_id == span_id,
        r.operation@ == trace_operation(index as int),
        r.duration_ms == trace_duration(index as int),
        r.status@ == trace_status(index as int),
{
    let (operation, duration_ms, status) = if index == 0 {
        ("GET /api/health", 45u64, "200")
    } else if index == 1 {
        ("POST /api/users", 120u64, "201")
    } else if index == 2 {
        ("GET /api/metrics", 30u64, "200")
    } else if index == 3 {
        ("PUT /api/config", 85u64, "200")
    } else {
        ("DELETE /api/cache", 15u64, "204")
    };
    TraceData {
        timestamp,
        agent_id: String::from_str(agent_id),
        trace_id,
        span_id,
        operation: String::from_str(operation),
        duration_ms,
        status: String::from_str(status),
    }
}

/// Appends to `traces` the five sample traces of HTTP calls, each with fresh
/// identifiers.
pub fn collect_http_traces(traces: &mut Vec<TraceData>, agent_id: &str, timestamp: u64)
    ensures
        final(traces)@.len() == old(traces)@.len() + 5,
        final(traces)@.take(old(traces)@.len() as int) == old(traces)@,
        forall|k: int|
            old(traces)@.len() <= k < final(traces)@.len() ==> {
                let t = #[trigger] final(traces)@[k];
                &&& t.timestamp == timestamp
                &&& t.agent_id@ == agent_id@
                &&& t.trace_id@.len() == IDENTIFIER_LENGTH
                &&& t.span_id@.len() == IDENTIFIER_LENGTH
                &&& t.operation@ == trace_operation(k - old(traces)@.len())
                &&& t.duration_ms == trace_duration(k - old(traces)@.len())
                &&& t.status@ == trace_status(k - old(traces)@.len())
            },
{
    let mut i: usize = 0;
    while i < 5
        invariant
            i <= 5,
            traces@.len() == old(traces)@.len() + i,
            traces@.take(old(traces)@.len() as int) == old(traces)@,
            forall|k: int|
                old(traces)@.len() <= k < traces@.len() ==> {
                    let t = #[trigger] traces@[k];
                    &&& t.timestamp == timestamp
                    &&& t.agent_id@ == agent_id@
                    &&& t.trace_id@.len() == IDENTIFIER_LENGTH
                    &&& t.span_id@.len() == IDENTIFIER_LENGTH
                    &&& t.operation@ == trace_operation(k - old(traces)@.len())
                    &&& t.duration_ms == trace_duration(k - old(traces)@.len())
                    &&& t.status@ == trace_status(k - old(traces)@.len())
                },
        decreases 5 - i,
    {
        let ghost before = traces@;
        let trace_id = fresh_identifier();
        let span_id = fresh_identifier();
        traces.push(sample_trace(agent_id, timestamp, i, trace_id, span_id));
        proof {
            assert(traces@.take(old(traces)@.len() as int) =~= before.take(
                old(traces)@.len() as int,
            ));
        }
        i += 1;
    }
}

/// The sample traces of one collection round of the agent `config`.
pub fn collect_traces(config: &Config, timestamp: u64) -> (r: Vec<TraceData>)
    ensures
        r@.len() == 5,
        forall|k: int|
            0 <= k < r@.len() ==> {
                let t = #[trigger] r@[k];
                &&& t.timestamp == timestamp
                &&& t.agent_id@ == config.agent.name@
                &&& t.trace_id@.len() == IDENTIFIER_LENGTH
                &&& t.span_id@.len() == IDENTIFIER_LENGTH
                &&& t.operation@ == trace_operation(k)
                &&& t.duration_ms == trace_duration(k)
                &&& t.status@ == trace_status(k)
            },
{
    let mut traces: Vec<TraceData> = Vec::new();
    collect_http_traces(&mut traces, config.agent.name.as_str(), timestamp);
    traces
}

/// What a process snapshot says of its process.
pub struct ProcessFields {
    pub pid: u32,
    pub name: Seq<char>,
    pub cpu_percent: int,
    pub memory_mb: int,
    pub status: Seq<char>,
}

/// What the snapshot `p` says of its process.
pub open spec fn fields_of(p: ProcessData) -> ProcessFields {
    ProcessFields {
        pid: p.pid,
        name: p.name@,
        cpu_percent: p.cpu_percent.milli as int,
        memory_mb: p.memory_mb.milli as int,
        status: p.status@,
    }
}

/// What a line of a process listing says of its process: the line has at
/// least eleven columns, of which the second is the process number, the
/// third and the fourth are the CPU and the memory figure, the eighth is the
/// status and the eleventh the name. `None` for a line of another shape.
pub open spec fn process_of(line: Seq<char>) -> Option<ProcessFields> {
    let parts = words_of(line);
    if parts.len() >= 11 {
        match (parsed_u32(parts[1]), parsed(parts[2]), parsed(parts[3])) {
            (Some(pid), Some(cpu), Some(mem)) => Some(
                ProcessFields {
                    pid,
                    name: parts[10],
                    cpu_percent: cpu,
                    memory_mb: mem,
                    status: parts[7],
                },
            ),
            _ => None,
        }
    } else {
        None
    }
}

/// The first lines of a listing that are read for processes.
pub open spec fn process_lines(listing: Seq<char>) -> Seq<Seq<char>> {
    let all = lines_of(listing);
    all.take(
        if all.len() < PROCESS_LINES {
            all.len() as int
        } else {
            PROCESS_LINES as int
        },
    )
}

/// The snapshot of the process that the line `line` of a process listing
/// names.
pub fn parse_process_line(line: &Vec<char>, agent_id: &str, timestamp: u64) -> (r: Option<
    ProcessData,
>)
    ensures
        match r {
            Some(p) => process_of(line@) == Some(fields_of(p)) && p.timestamp == timestamp
                && p.agent_id@ == agent_id@,
            None => process_of(line@) is None,
        },
{
    let parts = words(line);
    proof {
        assert(texts(parts@).len() == parts@.len());
    }
    if parts.len() < 11 {
        return None;
    }
    proof {
        assert(texts(parts@)[1] == parts@[1]@);
        assert(texts(parts@)[2] == parts@[2]@);
        assert(texts(parts@)[3] == parts@[3]@);
        assert(texts(parts@)[7] == parts@[7]@);
        assert(texts(parts@)[10] == parts@[10]@);
    }
    let pid = parse_u32(&parts[1]);
    let cpu = Decimal::parse(&parts[2]);
    let mem = Decimal::parse(&parts[3]);
    match (pid, cpu, mem) {
        (Some(pid), Some(cpu), Some(mem)) => Some(
            ProcessData {
                timestamp,
                agent_id: String::from_str(agent_id),
                pid,
                name: string_of(&parts[10]),
                cpu_percent: cpu,
                memory_mb: mem,
                status: string_of(&parts[7]),
            },
        ),
        _ => None,
    }
}

/// The snapshots of the processes that the first 20 lines of the process
/// listing `listing` name; a line of another shape is passed over.
pub fn collect_processes(config: &Config, timestamp: u64, listing: &str) -> (r: Vec<ProcessData>)
    ensures
        r@.map_values(|p: ProcessData| fields_of(p)) == process_lines(listing@).filter_map(
            |l: Seq<char>| process_of(l),
        ),
        forall|k: int|
            0 <= k < r@.len() ==> (#[trigger] r@[k]).timestamp == timestamp && r@[k].agent_id@
                == config.agent.name@,
{
    let text = chars_of(listing);
    let all = lines(&text);
    let n: usize = if all.len() < PROCESS_LINES {
        all.len()
    } else {
        PROCESS_LINES
    };
    let mut r: Vec<ProcessData> = Vec::new();
    let mut i: usize = 0;
    let ghost read = process_lines(listing@);
    let ghost f = |l: Seq<char>| process_of(l);
    proof {
        assert(read =~= texts(all@).take(n as int));
        assert(read.take(0) =~= Seq::<Seq<char>>::empty());
        assert(r@.map_values(|p: ProcessData| fields_of(p)) =~= read.take(0).filter_map(f));
    }
    while i < n
        invariant
            i <= n <= all.len(),
            read == texts(all@).take(n as int),
            f == |l: Seq<char>| process_of(l),
            r@.map_values(|p: ProcessData| fields_of(p)) == read.take(i as int).filter_map(f),
            forall|k: int|
                0 <= k < r@.len() ==> (#[trigger] r@[k]).timestamp == timestamp && r@[k].agent_id@
                    == config.agent.name@,
        decreases n - i,
    {
        proof {
            assert(read.take(i + 1).drop_last() =~= read.take(i as int));
            assert(read.take(i + 1).last() == all@[i as int]@);
        }
        let ghost before = r@;
        match parse_process_line(&all[i], config.agent.name.as_str(), timestamp) {
            Some(p) => {
                r.push(p);
                proof {
                    assert(r@.map_values(|p: ProcessData| fields_of(p)) =~= before.map_values(
                        |p: ProcessData| fields_of(p),
                    ) + seq![fields_of(p)]);
                }
            },
            None => {},
        }
        i += 1;
    }
    proof {
        assert(read.take(n as int) =~= read);
    }
    r
}

} // verus!
