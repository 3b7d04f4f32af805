//! The anomaly engine: a buffer of recent log events, the detection
//! algorithms that sweep it, and the capped store of what they flag.

use crate::decimal::{shortest_text, Decimal};
use crate::events::{LogEvent, LogEventView, MetricEvent, MetricEventView};
use crate::gemma_ai::{
    analysed, answering_backend, AIInsight, AIInsightView, AnomalyContext, AnomalyContextView,
    Backend, GemmaAI,
};
use crate::log_humanizer::{
    find_reply, humanized, reply_for, HumanizedLog, HumanizedLogView, LogHumanizer,
    LogPatternView, ModelReply,
};
use crate::patterns::PatternTable;
use crate::seqs::{
    count_where, lemma_count_at_most_len, lemma_count_none, lemma_count_push,
    lemma_count_skip_first, lemma_filter_map_has,
};
use crate::store::{keep_last, lemma_keep_last_add, lemma_keep_last_push, BoundedStore};
use crate::text::{
    chars_of, decimal, has_char, has_digit, is_digit, join, joined, occurs, push_decimal, push_str,
    same_chars, same_text, str_contains, string_of, texts, views, words, words_of,
};
use vstd::prelude::*;
use vstd::string::StringExecFns;

verus! {

/// The number of log events that the engine keeps.
pub const EVENT_CAPACITY: usize = 1000;

/// The number of anomalies that the engine keeps.
pub const ANOMALY_CAPACITY: usize = 100;

/// The seconds between two sweeps of the timed detectors.
pub const TICK_SECONDS: u64 = 30;

/// The number of most recent events that the timed detectors examine.
pub const RECENT_WINDOW: usize = 10;

/// A flagged event with the reason, the score and the algorithm that flagged
/// it, and its explanation once there is one.
#[derive(Debug, PartialEq, Eq)]
pub struct Anomaly {
    pub timestamp: String,
    pub score: Decimal,
    pub event: LogEvent,
    pub reason: String,
    pub algorithm: String,
    pub humanized: Option<HumanizedLog>,
}

/// What an anomaly holds.
pub struct AnomalyView {
    pub timestamp: Seq<char>,
    pub score: int,
    pub event: LogEventView,
    pub reason: Seq<char>,
    pub algorithm: Seq<char>,
    pub humanized: Option<HumanizedLogView>,
}

impl View for Anomaly {
    type V = AnomalyView;

    open spec fn view(&self) -> AnomalyView {
        AnomalyView {
            timestamp: self.timestamp@,
            score: self.score.milli as int,
            event: self.event@,
            reason: self.reason@,
            algorithm: self.algorithm@,
            humanized: match self.humanized {
                Some(h) => Some(h@),
                None => None,
            },
        }
    }
}

impl Clone for Anomaly {
    fn clone(&self) -> (r: Self)
        ensures
            r@ == self@,
    {
        Anomaly {
            timestamp: self.timestamp.clone(),
            score: self.score,
            event: self.event.clone(),
            reason: self.reason.clone(),
            algorithm: self.algorithm.clone(),
            humanized: match &self.humanized {
                Some(h) => Some(h.clone()),
                None => None,
            },
        }
    }
}

/// What a list of anomalies holds.
pub open spec fn anomaly_views(s: Seq<Anomaly>) -> Seq<AnomalyView> {
    s.map_values(|a: Anomaly| a@)
}

/// The placeholder class of a token, or the token itself: `<NUM>` for one
/// that holds a digit, `<EMAIL>` for one that holds `@`, `<PATH>` for one
/// that begins with `/`.
pub open spec fn template_token(w: Seq<char>) -> Seq<char> {
    if exists|k: int| 0 <= k < w.len() && is_digit(#[trigger] w[k]) {
        "<NUM>"@
    } else if w.contains('@') {
        "<EMAIL>"@
    } else if w.len() > 0 && w[0] == '/' {
        "<PATH>"@
    } else {
        w
    }
}

/// The template key of a message: its tokens, each replaced by its class
/// where it has one, with one space between neighbours.
pub open spec fn template(message: Seq<char>) -> Seq<char> {
    joined(words_of(message).map_values(|w: Seq<char>| template_token(w)), " "@)
}

/// The template key of `message`, as characters.
pub fn template_chars(message: &str) -> (r: Vec<char>)
    ensures
        r@ == template(message@),
{
    let text = chars_of(message);
    let tokens = words(&text);
    let mut keyed: Vec<Vec<char>> = Vec::new();
    let mut i: usize = 0;
    while i < tokens.len()
        invariant
            i <= tokens.len(),
            keyed@.len() == i,
            forall|k: int| 0 <= k < i ==> (#[trigger] keyed@[k])@ == template_token(tokens@[k]@),
        decreases tokens.len() - i,
    {
        let w = &tokens[i];
        if has_digit(w) {
            keyed.push(chars_of("<NUM>"));
        } else if has_char(w, '@') {
            keyed.push(chars_of("<EMAIL>"));
        } else if w.len() > 0 && w[0] == '/' {
            keyed.push(chars_of("<PATH>"));
        } else {
            keyed.push(w.clone());
        }
        i += 1;
    }
    proof {
        assert(texts(keyed@) =~= texts(tokens@).map_values(|w: Seq<char>| template_token(w)));
    }
    let sep = chars_of(" ");
    join(&keyed, &sep)
}

/// The template key of `message`.
pub fn extract_log_pattern(message: &str) -> (r: String)
    ensures
        r@ == template(message@),
{
    let t = template_chars(message);
    string_of(&t)
}

/// The event has the level `ERROR`.
pub open spec fn is_error(e: LogEvent) -> bool {
    e.level@ == "ERROR"@
}

/// The event comes from the agent `agent`, by its service or its agent
/// identifier.
pub open spec fn concerns(e: LogEvent, agent: Seq<char>) -> bool {
    e.service@ == agent || e.agent_id@ == agent
}

/// The messages of the events of `buf` that come from `agent`, in their
/// order.
pub open spec fn messages_of(buf: Seq<LogEvent>, agent: Seq<char>) -> Seq<Seq<char>> {
    buf.filter_map(
        |e: LogEvent|
            if concerns(e, agent) {
                Some(e.message@)
            } else {
                None
            },
    )
}

/// The log snippets of a context for `agent`: the messages of the ten most
/// recent events of `buf` that come from it, the oldest of them first.
pub open spec fn recent_logs(buf: Seq<LogEvent>, agent: Seq<char>) -> Seq<Seq<char>> {
    keep_last(messages_of(buf, agent), RECENT_WINDOW as nat)
}

/// The number of events of `buf` that come from `agent` and have the level
/// `ERROR`.
pub open spec fn recent_errors(buf: Seq<LogEvent>, agent: Seq<char>) -> nat {
    count_where(buf, |e: LogEvent| concerns(e, agent) && is_error(e))
}

/// The number of bytes of a text in UTF-8.
pub open spec fn byte_len(s: Seq<char>) -> nat {
    vstd::utf8::encode_utf8(s).len()
}

/// The estimate of the memory usage of `agent`, in thousandths of a percent:
/// 60 and, derived from the length of its identifier, up to 38 more.
pub open spec fn memory_estimate(agent: Seq<char>) -> int {
    ((60 + (2 * byte_len(agent)) % 40) * 1000) as int
}

/// The health status of `agent`: `healthy` for one whose identifier holds
/// `demo`, `degraded` for any other.
pub open spec fn health_of(agent: Seq<char>) -> Seq<char> {
    if occurs(agent, "demo"@) {
        "healthy"@
    } else {
        "degraded"@
    }
}

/// The sample is a CPU reading above 90.
pub open spec fn is_cpu_alarm(m: MetricEvent) -> bool {
    m.metric_type@ == "cpu"@ && m.value.milli > 90_000
}

/// The context for the analysis of a CPU alarm of `agent` with the reading
/// `cpu`, drawn from the events of `buf`.
pub open spec fn context_of(buf: Seq<LogEvent>, agent: Seq<char>, cpu: int) -> AnomalyContextView {
    AnomalyContextView {
        logs: recent_logs(buf, agent),
        cpu_usage: cpu,
        memory_usage: memory_estimate(agent),
        error_count: recent_errors(buf, agent),
        health_status: health_of(agent),
        agent_id: agent,
    }
}

/// The message of a CPU alarm with the reading `cpu`.
pub open spec fn cpu_message(cpu: int) -> Seq<char> {
    "High CPU usage: "@ + shortest_text(cpu) + "%"@
}

/// The tag of the backend that analysed a CPU alarm.
pub open spec fn backend_tag(backend: Backend) -> Seq<char> {
    match backend {
        Backend::Precise => "GemmaAI"@,
        Backend::Heuristic => "EnhancedFallback"@,
    }
}

/// The anomaly that records a CPU alarm: score 0.95, the alarm as a log
/// event of the service `system`, the root cause as the reason, the tag of
/// the backend that answered, and the analysis as the explanation.
pub open spec fn metric_anomaly(
    m: MetricEventView,
    insight: AIInsightView,
    backend: Backend,
    now: Seq<char>,
) -> AnomalyView {
    AnomalyView {
        timestamp: now,
        score: 950,
        event: LogEventView {
            timestamp: m.timestamp,
            level: "WARN"@,
            message: cpu_message(m.value),
            service: "system"@,
            agent_id: m.agent_id,
            trace_id: None,
            source: "metrics"@,
        },
        reason: insight.root_cause,
        algorithm: backend_tag(backend),
        humanized: Some(
            HumanizedLogView {
                original_message: cpu_message(m.value),
                human_explanation: insight.analysis,
                severity: insight.severity,
                possible_causes: seq![insight.root_cause],
                suggested_fixes: insight.suggested_fixes,
                confidence: insight.confidence,
            },
        ),
    }
}

/// The estimate of the memory usage of `agent_id`.
pub fn get_memory_usage(agent_id: &str) -> (r: Decimal)
    ensures
        r.milli as int == memory_estimate(agent_id@),
{
    let n: usize = agent_id.as_bytes().len();
    let doubled: u64 = ((n % 20) as u64) * 2;
    assert((2 * n) % 40 == 2 * (n % 20)) by (nonlinear_arith);
    Decimal::from_milli(((60 + doubled) * 1000) as i64)
}

/// The health status of `agent_id`.
pub fn get_health_status(agent_id: &str) -> (r: String)
    ensures
        r@ == health_of(agent_id@),
{
    if str_contains(agent_id, "demo") {
        String::from_str("healthy")
    } else {
        String::from_str("degraded")
    }
}

/// Whether `event` comes from the agent `agent_id`.
pub fn event_concerns(event: &LogEvent, agent_id: &str) -> (r: bool)
    ensures
        r == concerns(*event, agent_id@),
{
    same_text(event.service.as_str(), agent_id) || same_text(event.agent_id.as_str(), agent_id)
}

/// Whether `event` has the level `ERROR`.
pub fn event_is_error(event: &LogEvent) -> (r: bool)
    ensures
        r == is_error(*event),
{
    same_text(event.level.as_str(), "ERROR")
}

/// The log snippets of a context for `agent_id`, drawn from `buf`.
pub fn recent_logs_of(buf: &Vec<LogEvent>, agent_id: &str) -> (r: Vec<String>)
    ensures
        views(r@) == recent_logs(buf@, agent_id@),
        r@.len() <= RECENT_WINDOW,
{
    let mut all: Vec<String> = Vec::new();
    let mut i: usize = 0;
    proof {
        assert(buf@.take(0) =~= Seq::<LogEvent>::empty());
    }
    while i < buf.len()
        invariant
            i <= buf.len(),
            views(all@) == messages_of(buf@.take(i as int), agent_id@),
        decreases buf.len() - i,
    {
        proof {
            assert(buf@.take(i + 1).drop_last() =~= buf@.take(i as int));
            assert(buf@.take(i + 1).last() == buf@[i as int]);
        }
        let ghost before = all@;
        if event_concerns(&buf[i], agent_id) {
            all.push(buf[i].message.clone());
            proof {
                assert(views(all@) =~= views(before) + seq![buf@[i as int].message@]);
            }
        }
        i += 1;
    }
    proof {
        assert(buf@.take(buf.len() as int) =~= buf@);
    }
    let n: usize = all.len();
    if n > RECENT_WINDOW {
        let kept = all.split_off(n - RECENT_WINDOW);
        proof {
            assert(views(kept@) =~= keep_last(messages_of(buf@, agent_id@), RECENT_WINDOW as nat));
        }
        kept
    } else {
        all
    }
}

/// The number of events of `buf` that come from `agent_id` and have the
/// level `ERROR`.
pub fn recent_errors_of(buf: &Vec<LogEvent>, agent_id: &str) -> (r: usize)
    ensures
        r == recent_errors(buf@, agent_id@),
        r <= buf.len(),
{
    let mut count: usize = 0;
    let mut i: usize = 0;
    let ghost p = |e: LogEvent| concerns(e, agent_id@) && is_error(e);
    proof {
        assert(buf@.take(0) =~= Seq::<LogEvent>::empty());
    }
    while i < buf.len()
        invariant
            i <= buf.len(),
            count <= i,
            p == |e: LogEvent| concerns(e, agent_id@) && is_error(e),
            count == count_where(buf@.take(i as int), p),
        decreases buf.len() - i,
    {
        proof {
            assert(buf@.take(i + 1).drop_last() =~= buf@.take(i as int));
            assert(buf@.take(i + 1).last() == buf@[i as int]);
        }
        if event_concerns(&buf[i], agent_id) && event_is_error(&buf[i]) {
            count += 1;
        }
        i += 1;
    }
    proof {
        assert(buf@.take(buf.len() as int) =~= buf@);
    }
    count
}

/// The `k` most recent events of `buf`, the most recent first.
pub open spec fn recent(buf: Seq<LogEvent>, k: nat) -> Seq<LogEvent> {
    let m = if k < buf.len() {
        k
    } else {
        buf.len()
    };
    Seq::new(m, |j: int| buf[buf.len() - 1 - j])
}

/// The sum of the byte lengths of the messages of `buf`.
pub open spec fn total_bytes(buf: Seq<LogEvent>) -> nat
    decreases buf.len(),
{
    if buf.len() == 0 {
        0
    } else {
        total_bytes(buf.drop_last()) + byte_len(buf.last().message@)
    }
}

/// An anomaly without an explanation.
pub open spec fn plain_anomaly(
    now: Seq<char>,
    score: int,
    e: LogEvent,
    reason: Seq<char>,
    algorithm: Seq<char>,
) -> AnomalyView {
    AnomalyView { timestamp: now, score, event: e@, reason, algorithm, humanized: None }
}

/// The event is an error whose message is longer than three times the mean
/// message length `total / n`.
pub open spec fn is_overlong(e: LogEvent, n: nat, total: nat) -> bool {
    is_error(e) && byte_len(e.message@) * n > 3 * total
}

/// The reason that the length heuristic gives for a message of `len` bytes,
/// where the mean is `mean` rounded down.
pub open spec fn length_reason(len: nat, mean: nat) -> Seq<char> {
    "Unusually long error message ("@ + decimal(len) + " chars vs "@ + decimal(mean) + " avg)"@
}

/// What the length heuristic reports of one event of a buffer of `n` events
/// whose messages have `total` bytes: an anomaly with score 0.85 where the
/// event is overlong.
pub open spec fn length_report(n: nat, total: nat, now: Seq<char>) -> spec_fn(LogEvent) -> Option<
    AnomalyView,
> {
    |e: LogEvent|
        if is_overlong(e, n, total) {
            Some(
                plain_anomaly(
                    now,
                    850,
                    e,
                    length_reason(byte_len(e.message@), total / n),
                    "StatisticalAnalysis"@,
                ),
            )
        } else {
            None
        }
}

/// What the length heuristic reports of a buffer: nothing where it holds
/// fewer than 10 events; else the overlong errors among the 10 most recent
/// events, the most recent first.
pub open spec fn length_reports(buf: Seq<LogEvent>, now: Seq<char>) -> Seq<AnomalyView> {
    if buf.len() < 10 {
        Seq::empty()
    } else {
        recent(buf, RECENT_WINDOW as nat).filter_map(
            length_report(buf.len(), total_bytes(buf), now),
        )
    }
}

/// The number of errors among `s`.
pub open spec fn error_count(s: Seq<LogEvent>) -> nat {
    count_where(s, |e: LogEvent| is_error(e))
}

/// The index at which the 20 most recent events of a buffer of `n` begin.
pub open spec fn recent_start(n: nat) -> int {
    if n > 20 {
        n - 20
    } else {
        0
    }
}

/// The index at which the 100 events before the 20 most recent begin.
pub open spec fn history_start(n: nat) -> int {
    if n > 120 {
        n - 120
    } else {
        0
    }
}

/// The number of errors among the 20 most recent events.
pub open spec fn recent_error_count(buf: Seq<LogEvent>) -> nat {
    error_count(buf.subrange(recent_start(buf.len()), buf.len() as int))
}

/// The number of errors among the up to 100 events before the 20 most
/// recent.
pub open spec fn historical_error_count(buf: Seq<LogEvent>) -> nat {
    error_count(buf.subrange(history_start(buf.len()), recent_start(buf.len())))
}

/// The recent error rate `recent / 20` is above three times the historical
/// rate `hist / 100`, and above 0.10.
pub open spec fn is_burst(recent: nat, hist: nat) -> bool {
    recent * 100 > 3 * hist * 20 && recent * 10 > 20
}

/// The index of the latest error of `buf`.
pub open spec fn latest_error(buf: Seq<LogEvent>) -> Option<int>
    decreases buf.len(),
{
    if buf.len() == 0 {
        None
    } else if is_error(buf.last()) {
        Some(buf.len() - 1)
    } else {
        latest_error(buf.drop_last())
    }
}

/// The reason that the frequency detector gives: the two rates in percent,
/// with one decimal place.
pub open spec fn burst_reason(recent: nat, hist: nat) -> Seq<char> {
    "Error rate spike: "@ + decimal(recent * 5) + ".0% vs "@ + decimal(hist) + ".0%"@
}

/// What the frequency detector reports of a buffer: nothing where it holds
/// fewer than 50 events or there is no burst; else one anomaly with score
/// 0.92 that cites the latest error.
pub open spec fn frequency_reports(buf: Seq<LogEvent>, now: Seq<char>) -> Seq<AnomalyView> {
    let r = recent_error_count(buf);
    let h = historical_error_count(buf);
    if buf.len() >= 50 && is_burst(r, h) {
        match latest_error(buf) {
            Some(i) => seq![
                plain_anomaly(now, 920, buf[i], burst_reason(r, h), "RandomCutForest"@),
            ],
            None => Seq::empty(),
        }
    } else {
        Seq::empty()
    }
}

/// The number of events of `buf` whose message has the template `key`.
pub open spec fn occurrences(buf: Seq<LogEvent>, key: Seq<char>) -> nat {
    count_where(buf, |e: LogEvent| template(e.message@) == key)
}

/// A template that `seen` events have is rare in a buffer of `n` events:
/// `seen` is below one percent of `n`, and below 1 where one percent of `n`
/// is less. One percent is not rounded: in a buffer of 150 events it is 1.5,
/// so that a template seen once is rare.
pub open spec fn is_rare(seen: nat, n: nat) -> bool {
    seen * 100 < (if n > 100 {
        n
    } else {
        100
    })
}

/// The reason that the pattern detector gives for a template seen `seen`
/// times.
pub open spec fn rare_reason(seen: nat) -> Seq<char> {
    "Rare error pattern (seen "@ + decimal(seen) + " times)"@
}

/// What the pattern detector reports of one event of `buf`: an anomaly with
/// score 0.78 where the event is an error whose template is rare.
pub open spec fn pattern_report(buf: Seq<LogEvent>, now: Seq<char>) -> spec_fn(LogEvent) -> Option<
    AnomalyView,
> {
    |e: LogEvent|
        {
            let seen = occurrences(buf, template(e.message@));
            if is_error(e) && is_rare(seen, buf.len()) {
                Some(plain_anomaly(now, 780, e, rare_reason(seen), "LogEmbedding"@))
            } else {
                None
            }
        }
}

/// What the pattern detector reports of a buffer: the errors with a rare
/// template among the 10 most recent events, the most recent first.
pub open spec fn pattern_reports(buf: Seq<LogEvent>, now: Seq<char>) -> Seq<AnomalyView> {
    recent(buf, RECENT_WINDOW as nat).filter_map(pattern_report(buf, now))
}

/// What one sweep of the timed detectors reports: the reports of the length
/// heuristic, of the frequency detector and of the pattern detector, in this
/// order; nothing is left out as a duplicate.
pub open spec fn tick_reports(buf: Seq<LogEvent>, now: Seq<char>) -> Seq<AnomalyView> {
    length_reports(buf, now) + frequency_reports(buf, now) + pattern_reports(buf, now)
}

/// Mapping anomalies to what they hold commutes with keeping the last of
/// them.
pub proof fn lemma_views_keep_last(a: Seq<Anomaly>, b: Seq<Anomaly>, c: nat)
    ensures
        anomaly_views(keep_last(a + b, c)) == keep_last(anomaly_views(a) + anomaly_views(b), c),
{
    assert(anomaly_views(keep_last(a + b, c)) =~= keep_last(
        anomaly_views(a) + anomaly_views(b),
        c,
    ));
}

/// An anomaly without an explanation.
fn make_anomaly(
    now: &str,
    score: i64,
    event: &LogEvent,
    reason: String,
    algorithm: &str,
) -> (a: Anomaly)
    ensures
        a@ == plain_anomaly(now@, score as int, *event, reason@, algorithm@),
{
    Anomaly {
        timestamp: String::from_str(now),
        score: Decimal::from_milli(score),
        event: event.clone(),
        reason,
        algorithm: String::from_str(algorithm),
        humanized: None,
    }
}

/// The sum of the byte lengths of the messages of `buf`.
fn sum_bytes(buf: &Vec<LogEvent>) -> (total: u128)
    requires
        buf.len() <= EVENT_CAPACITY,
    ensures
        total == total_bytes(buf@),
        total <= buf.len() * 0xFFFF_FFFF_FFFF_FFFF,
{
    let mut total: u128 = 0;
    let mut i: usize = 0;
    proof {
        assert(buf@.take(0) =~= Seq::<LogEvent>::empty());
    }
    while i < buf.len()
        invariant
            i <= buf.len(),
            buf.len() <= EVENT_CAPACITY,
            total == total_bytes(buf@.take(i as int)),
            total <= i * 0xFFFF_FFFF_FFFF_FFFF,
        decreases buf.len() - i,
    {
        proof {
            assert(buf@.take(i + 1).drop_last() =~= buf@.take(i as int));
            assert(buf@.take(i + 1).last() == buf@[i as int]);
        }
        let len: usize = buf[i].message.as_str().as_bytes().len();
        total = total + (len as u128);
        i += 1;
    }
    proof {
        assert(buf@.take(buf.len() as int) =~= buf@);
    }
    total
}

/// The number of errors among the events of `buf` from index `from` up to,
/// not including, `to`.
fn count_errors(buf: &Vec<LogEvent>, from: usize, to: usize) -> (count: usize)
    requires
        from <= to <= buf.len(),
    ensures
        count == error_count(buf@.subrange(from as int, to as int)),
        count <= to - from,
{
    let mut count: usize = 0;
    let mut i: usize = from;
    let ghost p = |e: LogEvent| is_error(e);
    proof {
        assert(buf@.subrange(from as int, from as int) =~= Seq::<LogEvent>::empty());
    }
    while i < to
        invariant
            from <= i <= to,
            to <= buf.len(),
            count <= i - from,
            p == |e: LogEvent| is_error(e),
            count == count_where(buf@.subrange(from as int, i as int), p),
        decreases to - i,
    {
        proof {
            assert(buf@.subrange(from as int, i + 1).drop_last() =~= buf@.subrange(
                from as int,
                i as int,
            ));
            assert(buf@.subrange(from as int, i + 1).last() == buf@[i as int]);
        }
        if event_is_error(&buf[i]) {
            count += 1;
        }
        i += 1;
    }
    count
}

/// The index of the latest error of `buf`.
fn find_latest_error(buf: &Vec<LogEvent>) -> (r: Option<usize>)
    ensures
        match r {
            Some(i) => latest_error(buf@) == Some(i as int) && i < buf.len(),
            None => latest_error(buf@) is None,
        },
{
    let mut i: usize = buf.len();
    proof {
        assert(buf@.take(buf.len() as int) =~= buf@);
    }
    while i > 0
        invariant
            i <= buf.len(),
            latest_error(buf@) == latest_error(buf@.take(i as int)),
        decreases i,
    {
        proof {
            assert(buf@.take(i as int).drop_last() =~= buf@.take(i - 1));
            assert(buf@.take(i as int).last() == buf@[i - 1]);
        }
        if event_is_error(&buf[i - 1]) {
            return Some(i - 1);
        }
        i -= 1;
    }
    None
}

/// The anomalies that the length heuristic reports of `buf`.
pub fn statistical_anomalies(buf: &Vec<LogEvent>, now: &str) -> (fresh: Vec<Anomaly>)
    requires
        buf.len() <= EVENT_CAPACITY,
    ensures
        anomaly_views(fresh@) == length_reports(buf@, now@),
{
    let mut fresh: Vec<Anomaly> = Vec::new();
    let n: usize = buf.len();
    if n < 10 {
        proof {
            assert(anomaly_views(fresh@) =~= length_reports(buf@, now@));
        }
        return fresh;
    }
    let total: u128 = sum_bytes(buf);
    let mean: u128 = total / (n as u128);
    let ghost window = recent(buf@, RECENT_WINDOW as nat);
    let ghost report = length_report(n as nat, total as nat, now@);
    let mut j: usize = 0;
    proof {
        assert(window.take(0) =~= Seq::<LogEvent>::empty());
        assert(anomaly_views(fresh@) =~= window.take(0).filter_map(report));
    }
    while j < RECENT_WINDOW
        invariant
            j <= RECENT_WINDOW,
            10 <= n <= EVENT_CAPACITY,
            n == buf.len(),
            total == total_bytes(buf@),
            total <= n * 0xFFFF_FFFF_FFFF_FFFF,
            mean == total / (n as u128),
            window == recent(buf@, RECENT_WINDOW as nat),
            report == length_report(n as nat, total as nat, now@),
            anomaly_views(fresh@) == window.take(j as int).filter_map(report),
        decreases RECENT_WINDOW - j,
    {
        let event = &buf[n - 1 - j];
        proof {
            assert(window.take(j + 1).drop_last() =~= window.take(j as int));
            assert(window.take(j + 1).last() == *event);
        }
        let len: usize = event.message.as_str().as_bytes().len();
        assert((len as int) * (n as int) <= 0xFFFF_FFFF_FFFF_FFFF * 1000) by (nonlinear_arith)
            requires
                0 <= len <= 0xFFFF_FFFF_FFFF_FFFF,
                0 <= n <= 1000,
        ;
        let overlong: bool = (len as u128) * (n as u128) > 3 * total;
        let ghost before = fresh@;
        if event_is_error(event) && overlong {
            let mut reason: Vec<char> = Vec::new();
            push_str(&mut reason, "Unusually long error message (");
            push_decimal(&mut reason, len as u128);
            push_str(&mut reason, " chars vs ");
            push_decimal(&mut reason, mean);
            push_str(&mut reason, " avg)");
            let anomaly = make_anomaly(now, 850, event, string_of(&reason), "StatisticalAnalysis");
            fresh.push(anomaly);
            proof {
                assert(anomaly_views(fresh@) =~= anomaly_views(before) + seq![anomaly@]);
            }
        }
        j += 1;
    }
    proof {
        assert(window.take(RECENT_WINDOW as int) =~= window);
    }
    fresh
}

/// The anomalies that the frequency detector reports of `buf`.
pub fn frequency_anomalies(buf: &Vec<LogEvent>, now: &str) -> (fresh: Vec<Anomaly>)
    ensures
        anomaly_views(fresh@) == frequency_reports(buf@, now@),
{
    let mut fresh: Vec<Anomaly> = Vec::new();
    let n: usize = buf.len();
    if n < 50 {
        proof {
            assert(anomaly_views(fresh@) =~= frequency_reports(buf@, now@));
        }
        return fresh;
    }
    let recent_from: usize = n - 20;
    let history_from: usize = if n > 120 {
        n - 120
    } else {
        0
    };
    let r: usize = count_errors(buf, recent_from, n);
    let h: usize = count_errors(buf, history_from, recent_from);
    if r * 100 > 3 * h * 20 && r * 10 > 20 {
        match find_latest_error(buf) {
            Some(i) => {
                let mut reason: Vec<char> = Vec::new();
                push_str(&mut reason, "Error rate spike: ");
                push_decimal(&mut reason, (r * 5) as u128);
                push_str(&mut reason, ".0% vs ");
                push_decimal(&mut reason, h as u128);
                push_str(&mut reason, ".0%");
                let anomaly = make_anomaly(
                    now,
                    920,
                    &buf[i],
                    string_of(&reason),
                    "RandomCutForest",
                );
                fresh.push(anomaly);
                proof {
                    assert(anomaly_views(fresh@) =~= seq![anomaly@]);
                }
            },
            None => {
                proof {
                    assert(anomaly_views(fresh@) =~= frequency_reports(buf@, now@));
                }
            },
        }
    } else {
        proof {
            assert(anomaly_views(fresh@) =~= frequency_reports(buf@, now@));
        }
    }
    fresh
}

/// The anomalies that the pattern detector reports of `buf`, where `table`
/// holds, for each template, the number of events of `buf` that have it.
pub fn pattern_anomalies(buf: &Vec<LogEvent>, table: &PatternTable, now: &str) -> (fresh: Vec<
    Anomaly,
>)
    requires
        forall|key: Seq<char>| #[trigger] table.count(key) == occurrences(buf@, key),
    ensures
        anomaly_views(fresh@) == pattern_reports(buf@, now@),
{
    let mut fresh: Vec<Anomaly> = Vec::new();
    let n: usize = buf.len();
    let bound: u128 = if n > 100 {
        n as u128
    } else {
        100
    };
    let m: usize = if RECENT_WINDOW < n {
        RECENT_WINDOW
    } else {
        n
    };
    let ghost window = recent(buf@, RECENT_WINDOW as nat);
    let ghost report = pattern_report(buf@, now@);
    let mut j: usize = 0;
    proof {
        assert(window.take(0) =~= Seq::<LogEvent>::empty());
        assert(anomaly_views(fresh@) =~= window.take(0).filter_map(report));
    }
    while j < m
        invariant
            j <= m <= n,
            m == window.len(),
            n == buf.len(),
            bound == (if n > 100 {
                n as int
            } else {
                100
            }),
            forall|key: Seq<char>| #[trigger] table.count(key) == occurrences(buf@, key),
            window == recent(buf@, RECENT_WINDOW as nat),
            report == pattern_report(buf@, now@),
            anomaly_views(fresh@) == window.take(j as int).filter_map(report),
        decreases m - j,
    {
        let event = &buf[n - 1 - j];
        proof {
            assert(window.take(j + 1).drop_last() =~= window.take(j as int));
            assert(window.take(j + 1).last() == *event);
        }
        let key = template_chars(event.message.as_str());
        let seen: usize = table.get(&key);
        let ghost before = fresh@;
        if event_is_error(event) && (seen as u128) * 100 < bound {
            let mut reason: Vec<char> = Vec::new();
            push_str(&mut reason, "Rare error pattern (seen ");
            push_decimal(&mut reason, seen as u128);
            push_str(&mut reason, " times)");
            let anomaly = make_anomaly(now, 780, event, string_of(&reason), "LogEmbedding");
            fresh.push(anomaly);
            proof {
                assert(anomaly_views(fresh@) =~= anomaly_views(before) + seq![anomaly@]);
            }
        }
        j += 1;
    }
    proof {
        assert(window.take(m as int) =~= window);
    }
    fresh
}

/// The explanation that an analysis gives of a CPU alarm.
fn explanation_of(message: &str, insight: &AIInsight) -> (h: HumanizedLog)
    ensures
        h@ == (HumanizedLogView {
            original_message: message@,
            human_explanation: insight@.analysis,
            severity: insight@.severity,
            possible_causes: seq![insight@.root_cause],
            suggested_fixes: insight@.suggested_fixes,
            confidence: insight@.confidence,
        }),
{
    let mut causes: Vec<String> = Vec::new();
    causes.push(insight.root_cause.clone());
    proof {
        assert(views(causes@) =~= seq![insight@.root_cause]);
    }
    HumanizedLog {
        original_message: String::from_str(message),
        human_explanation: insight.analysis.clone(),
        severity: insight.severity.clone(),
        possible_causes: causes,
        suggested_fixes: crate::events::clone_strings(&insight.suggested_fixes),
        confidence: insight.confidence,
    }
}

/// The anomaly that records a CPU alarm.
pub fn metric_anomaly_of(metric: &MetricEvent, insight: &AIInsight, backend: Backend, now: &str)
    -> (a: Anomaly)
    ensures
        a@ == metric_anomaly(metric@, insight@, backend, now@),
{
    let mut message: Vec<char> = Vec::new();
    push_str(&mut message, "High CPU usage: ");
    metric.value.push_shortest(&mut message);
    push_str(&mut message, "%");
    let text = string_of(&message);
    let tag = match backend {
        Backend::Precise => String::from_str("GemmaAI"),
        Backend::Heuristic => String::from_str("EnhancedFallback"),
    };
    let humanized = explanation_of(text.as_str(), insight);
    Anomaly {
        timestamp: String::from_str(now),
        score: Decimal::from_milli(950),
        event: LogEvent {
            timestamp: metric.timestamp.clone(),
            level: String::from_str("WARN"),
            message: text,
            service: String::from_str("system"),
            agent_id: metric.agent_id.clone(),
            trace_id: None,
            source: String::from_str("metrics"),
        },
        reason: insight.root_cause.clone(),
        algorithm: tag,
        humanized: Some(humanized),
    }
}

/// The anomaly `a` with the explanation `h`, where it has none yet; else
/// `a` as it is.
pub open spec fn with_explanation(a: AnomalyView, h: HumanizedLogView) -> AnomalyView {
    match a.humanized {
        Some(_) => a,
        None => AnomalyView { humanized: Some(h), ..a },
    }
}

/// The reply at index `i` of `replies`, or none where the list is shorter.
pub open spec fn reply_at(replies: Seq<Option<String>>, i: int) -> Option<Seq<char>> {
    if 0 <= i < replies.len() {
        match replies[i] {
            Some(t) => Some(t@),
            None => None,
        }
    } else {
        None
    }
}

/// The messages about which an explanation is missing among `anomalies`.
pub open spec fn pending(anomalies: Seq<AnomalyView>) -> Seq<Seq<char>> {
    anomalies.filter_map(
        |a: AnomalyView|
            match a.humanized {
                Some(_) => None,
                None => Some(a.event.message),
            },
    )
}

/// The anomaly `a` after the lazy fill: where it has no explanation yet, it
/// gets that of the message of its event, given the model's reply for it.
pub open spec fn filled(a: AnomalyView, rules: Seq<LogPatternView>, reply: Option<Seq<char>>)
    -> AnomalyView {
    with_explanation(a, humanized(rules, a.event.message, reply))
}

/// The anomaly engine: the buffer of the most recent log events and the
/// store of the most recent anomalies.
pub struct AnomalyEngine {
    events: BoundedStore<LogEvent>,
    patterns: PatternTable,
    anomalies: BoundedStore<Anomaly>,
}

impl AnomalyEngine {
    #[verifier::type_invariant]
    spec fn consistent(self) -> bool {
        &&& self.events.limit() == EVENT_CAPACITY
        &&& self.anomalies.limit() == ANOMALY_CAPACITY
        &&& forall|key: Seq<char>| #[trigger]
            self.patterns.count(key) == occurrences(self.events@, key)
    }

    /// The log events that the engine holds, oldest first.
    pub closed spec fn buffer(self) -> Seq<LogEvent> {
        self.events@
    }

    /// The anomalies that the engine holds, oldest first.
    pub closed spec fn recorded(self) -> Seq<Anomaly> {
        self.anomalies@
    }

    /// An engine that holds nothing.
    pub fn new() -> (r: Self)
        ensures
            r.buffer() == Seq::<LogEvent>::empty(),
            r.recorded() == Seq::<Anomaly>::empty(),
    {
        AnomalyEngine {
            events: BoundedStore::new(EVENT_CAPACITY),
            patterns: PatternTable::new(),
            anomalies: BoundedStore::new(ANOMALY_CAPACITY),
        }
    }

    /// The number of retained events whose message has the template of
    /// `message`, from the pattern-frequency table.
    pub fn pattern_count(&self, message: &str) -> (r: usize)
        ensures
            r == occurrences(self.buffer(), template(message@)),
    {
        proof {
            use_type_invariant(self);
        }
        let key = template_chars(message);
        self.patterns.get(&key)
    }

    /// The log events that the engine holds, oldest first; never more than
    /// 1000.
    pub fn events(&self) -> (r: &Vec<LogEvent>)
        ensures
            r@ == self.buffer(),
            r@.len() <= EVENT_CAPACITY,
    {
        proof {
            use_type_invariant(self);
        }
        self.events.items()
    }

    /// The number of anomalies that the engine holds; never more than 100.
    pub fn anomaly_count(&self) -> (n: usize)
        ensures
            n == self.recorded().len(),
            n <= ANOMALY_CAPACITY,
    {
        proof {
            use_type_invariant(self);
        }
        self.anomalies.len()
    }

    /// Takes `event` into the buffer as the newest; the oldest goes where
    /// the buffer would hold more than 1000. The pattern-frequency table
    /// follows: it counts the template of the new event, and no longer that
    /// of an event that went.
    pub fn analyze_event(&mut self, event: &LogEvent)
        ensures
            final(self).buffer() == keep_last(old(self).buffer().push(*event), EVENT_CAPACITY as nat),
            final(self).recorded() == old(self).recorded(),
    {
        let mut taken = AnomalyEngine::new();
        core::mem::swap(self, &mut taken);
        proof {
            use_type_invariant(&taken);
        }
        let AnomalyEngine { events, patterns, anomalies } = taken;
        let mut events = events;
        let mut patterns = patterns;
        let ghost buf = events@;
        let ghost counts = patterns;
        let key = template_chars(event.message.as_str());
        let ghost p = |e: LogEvent| template(e.message@) == key@;
        let n: usize = events.len();
        if n == EVENT_CAPACITY {
            match events.get(0) {
                Some(oldest) => {
                    let gone = template_chars(oldest.message.as_str());
                    patterns.decrement(&gone);
                    proof {
                        assert forall|k: Seq<char>| #[trigger]
                            patterns.count(k) == occurrences(buf.skip(1), k) by {
                            lemma_count_skip_first(buf, |e: LogEvent| template(e.message@) == k);
                            assert(counts.count(k) == occurrences(buf, k));
                        }
                        lemma_count_at_most_len(buf.skip(1), p);
                    }
                },
                None => {},
            }
        } else {
            proof {
                lemma_count_at_most_len(buf, p);
                assert(counts.count(key@) == occurrences(buf, key@));
            }
        }
        let ghost mid = patterns;
        let ghost kept = if n == EVENT_CAPACITY {
            buf.skip(1)
        } else {
            buf
        };
        proof {
            assert(mid.count(key@) == occurrences(kept, key@));
        }
        patterns.increment(&key);
        events.append(event.clone());
        proof {
            assert(events@ =~= kept.push(*event));
            assert forall|k: Seq<char>| #[trigger]
                patterns.count(k) == occurrences(events@, k) by {
                lemma_count_push(kept, *event, |e: LogEvent| template(e.message@) == k);
                assert(mid.count(k) == occurrences(kept, k));
            }
        }
        *self = AnomalyEngine { events, patterns, anomalies };
    }

    /// Takes each of `events` into the buffer, in their order.
    pub fn analyze_events(&mut self, events: &Vec<LogEvent>)
        ensures
            final(self).buffer() == keep_last(
                old(self).buffer() + events@,
                EVENT_CAPACITY as nat,
            ),
            final(self).recorded() == old(self).recorded(),
    {
        let ghost start = self.buffer();
        let ghost c = EVENT_CAPACITY as nat;
        let mut i: usize = 0;
        proof {
            use_type_invariant(&*self);
            use_type_invariant(&self.events);
            assert(start + events@.take(0) =~= start);
        }
        while i < events.len()
            invariant
                i <= events.len(),
                c == EVENT_CAPACITY as nat,
                self.buffer() == keep_last(start + events@.take(i as int), c),
                self.recorded() == old(self).recorded(),
            decreases events.len() - i,
        {
            proof {
                lemma_keep_last_push(start + events@.take(i as int), events@[i as int], c);
                assert((start + events@.take(i as int)).push(events@[i as int]) =~= start
                    + events@.take(i + 1));
            }
            self.analyze_event(&events[i]);
            i += 1;
        }
        proof {
            assert(events@.take(events.len() as int) =~= events@);
        }
    }

    /// The log snippets of a context for `agent_id`: ten at most.
    pub fn get_recent_logs(&self, agent_id: &str) -> (r: Vec<String>)
        ensures
            views(r@) == recent_logs(self.buffer(), agent_id@),
            r@.len() <= RECENT_WINDOW,
    {
        recent_logs_of(self.events(), agent_id)
    }

    /// The number of errors of `agent_id` in the buffer.
    pub fn count_recent_errors(&self, agent_id: &str) -> (r: u32)
        ensures
            r == recent_errors(self.buffer(), agent_id@),
    {
        recent_errors_of(self.events(), agent_id) as u32
    }

    /// The context for the analysis of `metric`, where it is a CPU reading
    /// above 90; `None` for any other sample, which needs no analysis. The
    /// context holds ten log snippets at most.
    pub fn metric_context(&self, metric: &MetricEvent) -> (r: Option<AnomalyContext>)
        ensures
            match r {
                Some(c) => is_cpu_alarm(*metric) && c@ == context_of(
                    self.buffer(),
                    metric.agent_id@,
                    metric.value.milli as int,
                ) && c.logs@.len() <= RECENT_WINDOW,
                None => !is_cpu_alarm(*metric),
            },
    {
        if same_text(metric.metric_type.as_str(), "cpu") && metric.value.gt_whole(90) {
            let agent = metric.agent_id.as_str();
            Some(
                AnomalyContext {
                    logs: self.get_recent_logs(agent),
                    cpu_usage: metric.value,
                    memory_usage: get_memory_usage(agent),
                    error_count: self.count_recent_errors(agent),
                    health_status: get_health_status(agent),
                    agent_id: metric.agent_id.clone(),
                },
            )
        } else {
            None
        }
    }

    /// Records the CPU alarm `metric` with its analysis `insight`, which the
    /// backend `backend` gave.
    pub fn record_metric_anomaly(
        &mut self,
        metric: &MetricEvent,
        insight: &AIInsight,
        backend: Backend,
        now: &str,
    )
        ensures
            anomaly_views(final(self).recorded()) == keep_last(
                anomaly_views(old(self).recorded()).push(
                    metric_anomaly(metric@, insight@, backend, now@),
                ),
                ANOMALY_CAPACITY as nat,
            ),
            final(self).buffer() == old(self).buffer(),
    {
        proof {
            use_type_invariant(&*self);
        }
        let anomaly = metric_anomaly_of(metric, insight, backend, now);
        let ghost before = self.anomalies@;
        let mut anomalies: BoundedStore<Anomaly> = BoundedStore::new(ANOMALY_CAPACITY);
        core::mem::swap(&mut self.anomalies, &mut anomalies);
        anomalies.append(anomaly);
        self.anomalies = anomalies;
        proof {
            assert(before.push(anomaly) =~= before + seq![anomaly]);
            lemma_views_keep_last(before, seq![anomaly], ANOMALY_CAPACITY as nat);
            assert(anomaly_views(before) + anomaly_views(seq![anomaly]) =~= anomaly_views(
                before,
            ).push(anomaly@));
        }
    }

    /// Examines the metric sample `metric`: a CPU reading above 90 is
    /// analysed by `gemma` and recorded as an anomaly; any other sample
    /// changes nothing. `reply` is what the inference engine printed for the
    /// context of `metric_context`, or `None` where there is no reply.
    pub fn analyze_metric(
        &mut self,
        gemma: &GemmaAI,
        metric: &MetricEvent,
        reply: Option<&str>,
        now: &str,
    )
        ensures
            final(self).buffer() == old(self).buffer(),
            !is_cpu_alarm(*metric) ==> final(self).recorded() == old(self).recorded(),
            is_cpu_alarm(*metric) ==> anomaly_views(final(self).recorded()) == keep_last(
                anomaly_views(old(self).recorded()).push(
                    metric_anomaly(
                        metric@,
                        analysed(
                            gemma.model() is Some,
                            match reply {
                                Some(t) => Some(t@),
                                None => None,
                            },
                            context_of(
                                old(self).buffer(),
                                metric.agent_id@,
                                metric.value.milli as int,
                            ),
                        ),
                        answering_backend(
                            gemma.model() is Some,
                            match reply {
                                Some(t) => Some(t@),
                                None => None,
                            },
                        ),
                        now@,
                    ),
                ),
                ANOMALY_CAPACITY as nat,
            ),
    {
        match self.metric_context(metric) {
            Some(context) => {
                let (insight, backend) = gemma.analyze(&context, reply);
                self.record_metric_anomaly(metric, &insight, backend, now);
            },
            None => {},
        }
    }

    /// Records `fresh` in the store of anomalies.
    fn record_all(&mut self, fresh: Vec<Anomaly>)
        ensures
            anomaly_views(final(self).recorded()) == keep_last(
                anomaly_views(old(self).recorded()) + anomaly_views(fresh@),
                ANOMALY_CAPACITY as nat,
            ),
            final(self).buffer() == old(self).buffer(),
    {
        proof {
            use_type_invariant(&*self);
            lemma_views_keep_last(self.anomalies@, fresh@, ANOMALY_CAPACITY as nat);
        }
        let mut anomalies: BoundedStore<Anomaly> = BoundedStore::new(ANOMALY_CAPACITY);
        core::mem::swap(&mut self.anomalies, &mut anomalies);
        anomalies.extend(fresh);
        self.anomalies = anomalies;
    }

    /// Runs the length heuristic on the buffer and records what it reports.
    pub fn detect_statistical_anomalies(&mut self, now: &str)
        ensures
            anomaly_views(final(self).recorded()) == keep_last(
                anomaly_views(old(self).recorded()) + length_reports(old(self).buffer(), now@),
                ANOMALY_CAPACITY as nat,
            ),
            final(self).buffer() == old(self).buffer(),
    {
        let fresh = statistical_anomalies(self.events(), now);
        self.record_all(fresh);
    }

    /// Runs the frequency detector on the buffer and records what it
    /// reports.
    pub fn detect_frequency_anomalies(&mut self, now: &str)
        ensures
            anomaly_views(final(self).recorded()) == keep_last(
                anomaly_views(old(self).recorded()) + frequency_reports(old(self).buffer(), now@),
                ANOMALY_CAPACITY as nat,
            ),
            final(self).buffer() == old(self).buffer(),
    {
        let fresh = frequency_anomalies(self.events(), now);
        self.record_all(fresh);
    }

    /// Runs the pattern detector on the buffer and records what it reports.
    pub fn detect_pattern_anomalies(&mut self, now: &str)
        ensures
            anomaly_views(final(self).recorded()) == keep_last(
                anomaly_views(old(self).recorded()) + pattern_reports(old(self).buffer(), now@),
                ANOMALY_CAPACITY as nat,
            ),
            final(self).buffer() == old(self).buffer(),
    {
        proof {
            use_type_invariant(&*self);
        }
        let fresh = pattern_anomalies(self.events.items(), &self.patterns, now);
        self.record_all(fresh);
    }

    /// One sweep of the timed detectors: each runs on the buffer, whatever
    /// the others report, and all that they report is recorded.
    pub fn tick(&mut self, now: &str)
        ensures
            anomaly_views(final(self).recorded()) == keep_last(
                anomaly_views(old(self).recorded()) + tick_reports(old(self).buffer(), now@),
                ANOMALY_CAPACITY as nat,
            ),
            final(self).buffer() == old(self).buffer(),
    {
        let ghost start = anomaly_views(self.recorded());
        let ghost buf = self.buffer();
        let ghost c = ANOMALY_CAPACITY as nat;
        self.detect_statistical_anomalies(now);
        self.detect_frequency_anomalies(now);
        self.detect_pattern_anomalies(now);
        proof {
            let l = length_reports(buf, now@);
            let f = frequency_reports(buf, now@);
            let p = pattern_reports(buf, now@);
            lemma_keep_last_add(start + l, f, c);
            lemma_keep_last_add(start + l + f, p, c);
            assert(start + l + f + p =~= start + (l + f + p));
        }
    }

    /// A copy of the anomalies that the engine holds, oldest first.
    pub fn get_anomalies(&self) -> (r: Vec<Anomaly>)
        ensures
            anomaly_views(r@) == anomaly_views(self.recorded()),
            r@.len() <= ANOMALY_CAPACITY,
    {
        proof {
            use_type_invariant(self);
            use_type_invariant(&self.anomalies);
        }
        let r = self.anomalies.snapshot();
        proof {
            assert(anomaly_views(r@) =~= anomaly_views(self.recorded()));
        }
        r
    }

    /// The message of the anomaly at `index` where that anomaly has no
    /// explanation yet; `None` where it has one or there is no such anomaly.
    pub fn needs_humanization(&self, index: usize) -> (r: Option<String>)
        ensures
            match r {
                Some(m) => index < self.recorded().len() && self.recorded()[index as int]@.humanized
                    is None && m@ == self.recorded()[index as int]@.event.message,
                None => index >= self.recorded().len() || self.recorded()[index as int]@.humanized
                    is Some,
            },
    {
        match self.anomalies.get(index) {
            Some(a) => match &a.humanized {
                Some(_) => None,
                None => Some(a.event.message.clone()),
            },
            None => None,
        }
    }

    /// The messages about which an explanation is missing: those of the
    /// events of the anomalies without one, in the order of the anomalies.
    pub fn pending_messages(&self) -> (r: Vec<String>)
        ensures
            views(r@) == pending(anomaly_views(self.recorded())),
    {
        let n: usize = self.anomaly_count();
        let mut r: Vec<String> = Vec::new();
        let mut index: usize = 0;
        let ghost all = anomaly_views(self.recorded());
        proof {
            assert(all.take(0) =~= Seq::<AnomalyView>::empty());
        }
        while index < n
            invariant
                index <= n,
                n == self.recorded().len(),
                all == anomaly_views(self.recorded()),
                views(r@) == pending(all.take(index as int)),
            decreases n - index,
        {
            proof {
                assert(all.take(index + 1).drop_last() =~= all.take(index as int));
                assert(all.take(index + 1).last() == self.recorded()[index as int]@);
            }
            let ghost before = r@;
            match self.needs_humanization(index) {
                Some(message) => {
                    r.push(message);
                    proof {
                        assert(views(r@) =~= views(before) + seq![message@]);
                    }
                },
                None => {},
            }
            index += 1;
        }
        proof {
            assert(all.take(n as int) =~= all);
        }
        r
    }

    /// Fills the explanations that are missing: each anomaly without one gets
    /// the explanation of the message of its event, where `replies` holds
    /// what the model replied about the messages it was asked about. An
    /// anomaly that has an explanation keeps it.
    pub fn humanize_pending(&mut self, humanizer: &LogHumanizer, replies: &Vec<ModelReply>)
        ensures
            final(self).buffer() == old(self).buffer(),
            final(self).recorded().len() == old(self).recorded().len(),
            forall|i: int|
                0 <= i < old(self).recorded().len() ==> (#[trigger] final(self).recorded()[i])@
                    == filled(
                    old(self).recorded()[i]@,
                    humanizer@,
                    reply_for(replies@, old(self).recorded()[i]@.event.message, 0),
                ),
    {
        let n: usize = self.anomaly_count();
        let mut index: usize = 0;
        while index < n
            invariant
                index <= n,
                n == old(self).recorded().len(),
                self.buffer() == old(self).buffer(),
                self.recorded().len() == n,
                forall|i: int|
                    0 <= i < index ==> (#[trigger] self.recorded()[i])@ == filled(
                        old(self).recorded()[i]@,
                        humanizer@,
                        reply_for(replies@, old(self).recorded()[i]@.event.message, 0),
                    ),
                forall|i: int|
                    index <= i < n ==> (#[trigger] self.recorded()[i])@ == old(
                        self,
                    ).recorded()[i]@,
            decreases n - index,
        {
            let ghost before = self.recorded();
            match self.needs_humanization(index) {
                Some(message) => {
                    let reply = find_reply(replies, message.as_str());
                    let explanation = humanizer.humanize_log(message.as_str(), reply);
                    self.set_humanized(index, explanation);
                    proof {
                        assert(anomaly_views(self.recorded()).len() == anomaly_views(before).len());
                        assert forall|i: int| 0 <= i < n implies (#[trigger] self.recorded()[i])@
                            == (if i == index {
                            filled(
                                before[i]@,
                                humanizer@,
                                reply_for(replies@, before[i]@.event.message, 0),
                            )
                        } else {
                            before[i]@
                        }) by {
                            assert(anomaly_views(self.recorded())[i] == self.recorded()[i]@);
                            assert(anomaly_views(before)[i] == before[i]@);
                        }
                    }
                },
                None => {},
            }
            index += 1;
        }
    }

    /// Gives the anomaly at `index` the explanation `explanation`, where it
    /// has none yet: an explanation, once set, stays.
    pub fn set_humanized(&mut self, index: usize, explanation: HumanizedLog)
        ensures
            final(self).buffer() == old(self).buffer(),
            anomaly_views(final(self).recorded()) == if index < old(self).recorded().len() {
                anomaly_views(old(self).recorded()).update(
                    index as int,
                    with_explanation(old(self).recorded()[index as int]@, explanation@),
                )
            } else {
                anomaly_views(old(self).recorded())
            },
    {
        proof {
            use_type_invariant(&*self);
        }
        let ghost before = self.anomalies@;
        let updated = match self.anomalies.get(index) {
            Some(a) => match &a.humanized {
                Some(_) => None,
                None => {
                    let mut copy = a.clone();
                    copy.humanized = Some(explanation);
                    Some(copy)
                },
            },
            None => None,
        };
        match updated {
            Some(a) => {
                let mut anomalies: BoundedStore<Anomaly> = BoundedStore::new(ANOMALY_CAPACITY);
                core::mem::swap(&mut self.anomalies, &mut anomalies);
                anomalies.replace(index, a);
                self.anomalies = anomalies;
                proof {
                    assert(anomaly_views(self.anomalies@) =~= anomaly_views(before).update(
                        index as int,
                        with_explanation(before[index as int]@, explanation@),
                    ));
                }
            },
            None => {
                proof {
                    if index < before.len() {
                        assert(anomaly_views(before) =~= anomaly_views(before).update(
                            index as int,
                            with_explanation(before[index as int]@, explanation@),
                        ));
                    }
                }
            },
        }
    }
}

/// The log snippets of a context for `agent_id`, drawn from the buffer of
/// `engine`.
pub fn get_recent_logs(engine: &AnomalyEngine, agent_id: &str) -> (r: Vec<String>)
    ensures
        views(r@) == recent_logs(engine.buffer(), agent_id@),
        r@.len() <= RECENT_WINDOW,
{
    engine.get_recent_logs(agent_id)
}

/// The number of errors of `agent_id` in the buffer of `engine`.
pub fn count_recent_errors(engine: &AnomalyEngine, agent_id: &str) -> (r: u32)
    ensures
        r == recent_errors(engine.buffer(), agent_id@),
{
    engine.count_recent_errors(agent_id)
}

/// A copy of the anomalies that `engine` holds, oldest first.
pub fn get_anomalies(engine: &AnomalyEngine) -> (r: Vec<Anomaly>)
    ensures
        anomaly_views(r@) == anomaly_views(engine.recorded()),
        r@.len() <= ANOMALY_CAPACITY,
{
    engine.get_anomalies()
}

/// Takes `event` into the buffer of `engine`; see
/// `AnomalyEngine::analyze_event`.
pub fn analyze_event(engine: &mut AnomalyEngine, event: &LogEvent)
    ensures
        final(engine).buffer() == keep_last(
            old(engine).buffer().push(*event),
            EVENT_CAPACITY as nat,
        ),
        final(engine).recorded() == old(engine).recorded(),
{
    engine.analyze_event(event);
}

/// Examines the metric sample `metric` with `engine`; see
/// `AnomalyEngine::analyze_metric`.
pub fn analyze_metric(
    engine: &mut AnomalyEngine,
    gemma: &GemmaAI,
    metric: &MetricEvent,
    reply: Option<&str>,
    now: &str,
)
    ensures
        final(engine).buffer() == old(engine).buffer(),
        !is_cpu_alarm(*metric) ==> final(engine).recorded() == old(engine).recorded(),
        is_cpu_alarm(*metric) ==> anomaly_views(final(engine).recorded()) == keep_last(
            anomaly_views(old(engine).recorded()).push(
                metric_anomaly(
                    metric@,
                    analysed(
                        gemma.model() is Some,
                        match reply {
                            Some(t) => Some(t@),
                            None => None,
                        },
                        context_of(
                            old(engine).buffer(),
                            metric.agent_id@,
                            metric.value.milli as int,
                        ),
                    ),
                    answering_backend(
                        gemma.model() is Some,
                        match reply {
                            Some(t) => Some(t@),
                            None => None,
                        },
                    ),
                    now@,
                ),
            ),
            ANOMALY_CAPACITY as nat,
        ),
{
    engine.analyze_metric(gemma, metric, reply, now);
}

/// Where no event is an error, none is the latest error.
proof fn lemma_no_latest_error(buf: Seq<LogEvent>)
    requires
        latest_error(buf) is None,
    ensures
        forall|i: int| 0 <= i < buf.len() ==> !is_error(#[trigger] buf[i]),
    decreases buf.len(),
{
    if buf.len() > 0 {
        lemma_no_latest_error(buf.drop_last());
        assert forall|i: int| 0 <= i < buf.len() implies !is_error(#[trigger] buf[i]) by {
            if i < buf.len() - 1 {
                assert(buf.drop_last()[i] == buf[i]);
            }
        }
    }
}

/// A buffer of at least 50 events whose 20 most recent events hold three
/// errors, and whose 100 events before them hold none, is reported by the
/// frequency detector exactly once.
pub proof fn law_three_recent_errors_report_once(buf: Seq<LogEvent>, now: Seq<char>)
    requires
        buf.len() >= 50,
        recent_error_count(buf) == 3,
        historical_error_count(buf) == 0,
    ensures
        frequency_reports(buf, now).len() == 1,
{
    if latest_error(buf) is None {
        lemma_no_latest_error(buf);
        let window = buf.subrange(recent_start(buf.len()), buf.len() as int);
        lemma_count_none(window, |e: LogEvent| is_error(e));
    }
}

/// A buffer whose 20 most recent events hold one error, or two, is not
/// reported by the frequency detector, whatever came before.
pub proof fn law_few_recent_errors_report_nothing(buf: Seq<LogEvent>, now: Seq<char>)
    requires
        recent_error_count(buf) <= 2,
    ensures
        frequency_reports(buf, now).len() == 0,
{
}

/// In a buffer of more than 100 events an error among the ten most recent
/// events whose template occurs once is reported by the pattern detector:
/// one is below one percent of any such number, which is not rounded. In a
/// buffer of 100 events or fewer the detector reports nothing, as every
/// event counts for its own template.
pub proof fn law_template_seen_once_is_rare(buf: Seq<LogEvent>, now: Seq<char>, j: int)
    requires
        0 <= j < 10,
        j < buf.len(),
    ensures
        ({
            let e = recent(buf, RECENT_WINDOW as nat)[j];
            buf.len() > 100 && is_error(e) && occurrences(buf, template(e.message@)) == 1
                ==> pattern_reports(buf, now).contains(
                plain_anomaly(now, 780, e, rare_reason(1), "LogEmbedding"@),
            )
        }),
        buf.len() <= 100 ==> pattern_reports(buf, now).len() == 0,
{
    let window = recent(buf, RECENT_WINDOW as nat);
    let f = pattern_report(buf, now);
    let e = window[j];
    if buf.len() > 100 && is_error(e) && occurrences(buf, template(e.message@)) == 1 {
        lemma_filter_map_has(window, f, j);
    }
    if buf.len() <= 100 {
        assert forall|a: AnomalyView| !pattern_reports(buf, now).contains(a) by {
            if pattern_reports(buf, now).contains(a) {
                window.lemma_filter_map_contains(f, a);
                let t = choose|t: LogEvent| #[trigger] window.contains(t) && f(t) == Some(a);
                let k = choose|k: int| 0 <= k < window.len() && window[k] == t;
                let at = buf.len() - 1 - k;
                assert(buf[at] == t);
                lemma_occurs_at_least_once(buf, at);
            }
        }
        if pattern_reports(buf, now).len() > 0 {
            assert(pattern_reports(buf, now).contains(pattern_reports(buf, now)[0]));
        }
    }
}

/// An event of a buffer counts for its own template.
pub proof fn lemma_occurs_at_least_once(buf: Seq<LogEvent>, at: int)
    requires
        0 <= at < buf.len(),
    ensures
        occurrences(buf, template(buf[at].message@)) >= 1,
    decreases buf.len(),
{
    if at < buf.len() - 1 {
        assert(buf.drop_last()[at] == buf[at]);
        lemma_occurs_at_least_once(buf.drop_last(), at);
    }
}

/// In a buffer of 200 events a template is rare where it occurs less than
/// twice: an error among the ten most recent events whose template occurs
/// once is reported by the pattern detector, and no report cites an event
/// whose template occurs twice or more, such as five times.
pub proof fn law_rare_pattern_in_two_hundred(buf: Seq<LogEvent>, now: Seq<char>, j: int)
    requires
        buf.len() == 200,
        0 <= j < 10,
    ensures
        forall|seen: nat| #[trigger] is_rare(seen, buf.len()) <==> seen < 2,
        ({
            let e = recent(buf, RECENT_WINDOW as nat)[j];
            is_error(e) && occurrences(buf, template(e.message@)) == 1
                ==> pattern_reports(buf, now).contains(
                plain_anomaly(now, 780, e, rare_reason(1), "LogEmbedding"@),
            )
        }),
        forall|a: AnomalyView| #[trigger]
            pattern_reports(buf, now).contains(a) ==> occurrences(
                buf,
                template(a.event.message),
            ) < 2,
{
    let window = recent(buf, RECENT_WINDOW as nat);
    let f = pattern_report(buf, now);
    let e = window[j];
    if is_error(e) && occurrences(buf, template(e.message@)) == 1 {
        lemma_filter_map_has(window, f, j);
    }
    assert forall|a: AnomalyView| #[trigger]
        pattern_reports(buf, now).contains(a) implies occurrences(buf, template(a.event.message))
        < 2 by {
        window.lemma_filter_map_contains(f, a);
        let t = choose|t: LogEvent| #[trigger] window.contains(t) && f(t) == Some(a);
        assert(a.event.message == t.message@);
    }
}

} // verus!
