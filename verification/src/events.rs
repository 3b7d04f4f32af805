//! The canonical event model: the records that agents push and that the
//! backend keeps.

use crate::decimal::Decimal;
use vstd::prelude::*;

verus! {

/// A copy of a list of strings.
pub fn clone_strings(v: &Vec<String>) -> (r: Vec<String>)
    ensures
        r@ == v@,
{
    let mut r: Vec<String> = Vec::new();
    let mut i: usize = 0;
    while i < v.len()
        invariant
            i <= v.len(),
            r@ == v@.take(i as int),
        decreases v.len() - i,
    {
        r.push(v[i].clone());
        i += 1;
    }
    proof {
        assert(v@.take(v.len() as int) =~= v@);
    }
    r
}

/// A copy of an optional string.
pub fn clone_optional(v: &Option<String>) -> (r: Option<String>)
    ensures
        r == *v,
{
    match v {
        Some(s) => Some(s.clone()),
        None => None,
    }
}

/// A label of a metric sample: a key and its value.
#[derive(Debug, PartialEq, Eq)]
pub struct Label {
    pub key: String,
    pub value: String,
}

impl Clone for Label {
    fn clone(&self) -> (r: Self)
        ensures
            r == *self,
    {
        Label { key: self.key.clone(), value: self.value.clone() }
    }
}

/// A copy of a list of labels.
pub fn clone_labels(v: &Vec<Label>) -> (r: Vec<Label>)
    ensures
        r@ == v@,
{
    let mut r: Vec<Label> = Vec::new();
    let mut i: usize = 0;
    while i < v.len()
        invariant
            i <= v.len(),
            r@ == v@.take(i as int),
        decreases v.len() - i,
    {
        r.push(v[i].clone());
        i += 1;
    }
    proof {
        assert(v@.take(v.len() as int) =~= v@);
    }
    r
}

/// What a list of labels holds: each key with its value.
pub open spec fn label_views(labels: Seq<Label>) -> Seq<(Seq<char>, Seq<char>)> {
    labels.map_values(|l: Label| (l.key@, l.value@))
}

/// No two labels have the same key.
pub open spec fn distinct_keys(labels: Seq<(Seq<char>, Seq<char>)>) -> bool {
    forall|i: int, j: int|
        0 <= i < j < labels.len() ==> (#[trigger] labels[i]).0 != (#[trigger] labels[j]).0
}

/// The index of the first label with the key `key`, from index `from` on.
pub open spec fn label_index(labels: Seq<(Seq<char>, Seq<char>)>, key: Seq<char>, from: int)
    -> Option<int>
    decreases labels.len() - from,
{
    if from < 0 || from >= labels.len() {
        None
    } else if labels[from].0 == key {
        Some(from)
    } else {
        label_index(labels, key, from + 1)
    }
}

/// The labels after one more was set: it takes the place of the label of its
/// key, or comes last where there is none.
pub open spec fn with_label(labels: Seq<(Seq<char>, Seq<char>)>, key: Seq<char>, value: Seq<char>)
    -> Seq<(Seq<char>, Seq<char>)> {
    match label_index(labels, key, 0) {
        Some(i) => labels.update(i, (key, value)),
        None => labels.push((key, value)),
    }
}

/// What a list of pairs means as labels: each key occurs once, at the place
/// where it came first, with the value that came for it last.
pub open spec fn labelled(pairs: Seq<Label>) -> Seq<(Seq<char>, Seq<char>)>
    decreases pairs.len(),
{
    if pairs.len() == 0 {
        Seq::empty()
    } else {
        with_label(labelled(pairs.drop_last()), pairs.last().key@, pairs.last().value@)
    }
}

/// The value of the label with the key `key`, where there is one.
pub open spec fn label_value(labels: Seq<(Seq<char>, Seq<char>)>, key: Seq<char>) -> Option<
    Seq<char>,
> {
    match label_index(labels, key, 0) {
        Some(i) => Some(labels[i].1),
        None => None,
    }
}

/// What `label_index` finds is the first label with that key; it finds one
/// whenever there is one.
pub proof fn lemma_label_index(labels: Seq<(Seq<char>, Seq<char>)>, key: Seq<char>, from: int)
    requires
        0 <= from,
    ensures
        match label_index(labels, key, from) {
            Some(i) => from <= i < labels.len() && labels[i].0 == key && forall|k: int|
                from <= k < i ==> (#[trigger] labels[k]).0 != key,
            None => forall|k: int| from <= k < labels.len() ==> (#[trigger] labels[k]).0 != key,
        },
    decreases labels.len() - from,
{
    if from < labels.len() && labels[from].0 != key {
        lemma_label_index(labels, key, from + 1);
    }
}

/// Setting a label keeps each key at one entry, and the label that was set
/// is the one that is found.
pub proof fn law_set_label_keeps_keys_distinct(
    labels: Seq<(Seq<char>, Seq<char>)>,
    key: Seq<char>,
    value: Seq<char>,
)
    requires
        distinct_keys(labels),
    ensures
        distinct_keys(with_label(labels, key, value)),
        label_value(with_label(labels, key, value), key) == Some(value),
{
    lemma_label_index(labels, key, 0);
    lemma_label_index(with_label(labels, key, value), key, 0);
    let after = with_label(labels, key, value);
    match label_index(labels, key, 0) {
        Some(i) => {
            assert(after[i].0 == key);
        },
        None => {
            assert(after[labels.len() as int].0 == key);
        },
    }
}

/// In what a list of pairs means as labels, each key occurs once.
pub proof fn law_labelled_keys_occur_once(pairs: Seq<Label>)
    ensures
        distinct_keys(labelled(pairs)),
    decreases pairs.len(),
{
    if pairs.len() > 0 {
        law_labelled_keys_occur_once(pairs.drop_last());
        law_set_label_keeps_keys_distinct(
            labelled(pairs.drop_last()),
            pairs.last().key@,
            pairs.last().value@,
        );
    }
}

/// The labels of a metric sample: a map from keys to values, held as a list
/// in which each key occurs once.
#[derive(Debug, PartialEq, Eq)]
pub struct Labels {
    entries: Vec<Label>,
}

impl View for Labels {
    type V = Seq<(Seq<char>, Seq<char>)>;

    closed spec fn view(&self) -> Seq<(Seq<char>, Seq<char>)> {
        label_views(self.entries@)
    }
}

impl Labels {
    /// Each key occurs once. This holds of every value.
    #[verifier::type_invariant]
    pub open spec fn one_entry_per_key(self) -> bool {
        distinct_keys(self@)
    }

    /// No labels.
    pub fn new() -> (r: Self)
        ensures
            r@ == Seq::<(Seq<char>, Seq<char>)>::empty(),
    {
        let r = Labels { entries: Vec::new() };
        proof {
            assert(label_views(r.entries@) =~= Seq::<(Seq<char>, Seq<char>)>::empty());
        }
        r
    }

    /// The index of the label with the key `key`.
    fn find(&self, key: &str) -> (r: Option<usize>)
        ensures
            match r {
                Some(i) => label_index(self@, key@, 0) == Some(i as int) && i < self.entries.len(),
                None => label_index(self@, key@, 0) is None,
            },
    {
        let mut i: usize = 0;
        while i < self.entries.len()
            invariant
                i <= self.entries.len(),
                label_index(self@, key@, 0) == label_index(self@, key@, i as int),
            decreases self.entries.len() - i,
        {
            proof {
                assert(self@[i as int] == (self.entries@[i as int].key@, self.entries@[i as int].value@));
            }
            if crate::text::same_text(self.entries[i].key.as_str(), key) {
                return Some(i);
            }
            i += 1;
        }
        None
    }

    /// Sets the label `key` to `value`: the label of that key is overwritten,
    /// or a new one is made.
    pub fn insert(&mut self, key: String, value: String)
        ensures
            final(self)@ == with_label(old(self)@, key@, value@),
    {
        proof {
            use_type_invariant(&*self);
            law_set_label_keeps_keys_distinct(self@, key@, value@);
        }
        let place = self.find(key.as_str());
        let ghost before = self@;
        let ghost k = key@;
        let ghost v = value@;
        let mut entries: Vec<Label> = Vec::new();
        core::mem::swap(&mut self.entries, &mut entries);
        proof {
            assert(label_views(self.entries@) =~= Seq::<(Seq<char>, Seq<char>)>::empty());
        }
        match place {
            Some(i) => {
                entries.set(i, Label { key, value });
                proof {
                    assert(label_views(entries@) =~= before.update(i as int, (k, v)));
                }
            },
            None => {
                entries.push(Label { key, value });
                proof {
                    assert(label_views(entries@) =~= before.push((k, v)));
                }
            },
        }
        self.entries = entries;
    }

    /// The labels that the pairs `pairs` mean: each key once, with the value
    /// that came for it last.
    pub fn from_pairs(pairs: Vec<Label>) -> (r: Self)
        ensures
            r@ == labelled(pairs@),
    {
        let mut r = Labels::new();
        let mut i: usize = 0;
        proof {
            assert(pairs@.take(0) =~= Seq::<Label>::empty());
        }
        while i < pairs.len()
            invariant
                i <= pairs.len(),
                r@ == labelled(pairs@.take(i as int)),
            decreases pairs.len() - i,
        {
            proof {
                assert(pairs@.take(i + 1).drop_last() =~= pairs@.take(i as int));
                assert(pairs@.take(i + 1).last() == pairs@[i as int]);
            }
            r.insert(pairs[i].key.clone(), pairs[i].value.clone());
            i += 1;
        }
        proof {
            assert(pairs@.take(pairs.len() as int) =~= pairs@);
        }
        r
    }

    /// The value of the label with the key `key`, where there is one.
    pub fn get(&self, key: &str) -> (r: Option<&String>)
        ensures
            label_value(self@, key@) == match r {
                Some(v) => Some(v@),
                None => None,
            },
    {
        match self.find(key) {
            Some(i) => {
                proof {
                    assert(self@[i as int] == (self.entries@[i as int].key@, self.entries@[i as int].value@));
                }
                Some(&self.entries[i].value)
            },
            None => None,
        }
    }

    /// The labels as a list, in which each key occurs once.
    pub fn entries(&self) -> (r: &Vec<Label>)
        ensures
            label_views(r@) == self@,
            distinct_keys(label_views(r@)),
    {
        proof {
            use_type_invariant(self);
        }
        &self.entries
    }
}

impl Clone for Labels {
    fn clone(&self) -> (r: Self)
        ensures
            r@ == self@,
    {
        proof {
            use_type_invariant(self);
        }
        Labels { entries: clone_labels(&self.entries) }
    }
}

/// A log record in canonical form.
#[derive(Debug, PartialEq, Eq)]
pub struct LogEvent {
    pub timestamp: String,
    pub level: String,
    pub message: String,
    pub service: String,
    pub agent_id: String,
    pub trace_id: Option<String>,
    pub source: String,
}

/// What a log record holds.
pub struct LogEventView {
    pub timestamp: Seq<char>,
    pub level: Seq<char>,
    pub message: Seq<char>,
    pub service: Seq<char>,
    pub agent_id: Seq<char>,
    pub trace_id: Option<Seq<char>>,
    pub source: Seq<char>,
}

impl View for LogEvent {
    type V = LogEventView;

    open spec fn view(&self) -> LogEventView {
        LogEventView {
            timestamp: self.timestamp@,
            level: self.level@,
            message: self.message@,
            service: self.service@,
            agent_id: self.agent_id@,
            trace_id: match self.trace_id {
                Some(t) => Some(t@),
                None => None,
            },
            source: self.source@,
        }
    }
}

impl Clone for LogEvent {
    fn clone(&self) -> (r: Self)
        ensures
            r == *self,
    {
        LogEvent {
            timestamp: self.timestamp.clone(),
            level: self.level.clone(),
            message: self.message.clone(),
            service: self.service.clone(),
            agent_id: self.agent_id.clone(),
            trace_id: clone_optional(&self.trace_id),
            source: self.source.clone(),
        }
    }
}

/// A metric sample in canonical form.
#[derive(Debug, PartialEq, Eq)]
pub struct MetricEvent {
    pub timestamp: String,
    pub agent_id: String,
    pub metric_type: String,
    pub value: Decimal,
    pub unit: String,
    pub labels: Labels,
}

/// What a metric sample holds.
pub struct MetricEventView {
    pub timestamp: Seq<char>,
    pub agent_id: Seq<char>,
    pub metric_type: Seq<char>,
    pub value: int,
    pub unit: Seq<char>,
    pub labels: Seq<(Seq<char>, Seq<char>)>,
}

impl View for MetricEvent {
    type V = MetricEventView;

    open spec fn view(&self) -> MetricEventView {
        MetricEventView {
            timestamp: self.timestamp@,
            agent_id: self.agent_id@,
            metric_type: self.metric_type@,
            value: self.value.milli as int,
            unit: self.unit@,
            labels: self.labels@,
        }
    }
}

impl Clone for MetricEvent {
    fn clone(&self) -> (r: Self)
        ensures
            r@ == self@,
    {
        MetricEvent {
            timestamp: self.timestamp.clone(),
            agent_id: self.agent_id.clone(),
            metric_type: self.metric_type.clone(),
            value: self.value,
            unit: self.unit.clone(),
            labels: self.labels.clone(),
        }
    }
}

/// A trace span in canonical form.
#[derive(Debug, PartialEq, Eq)]
pub struct TraceEvent {
    pub timestamp: String,
    pub agent_id: String,
    pub trace_id: String,
    pub span_id: String,
    pub operation: String,
    pub duration_ms: u64,
    pub status: String,
}

impl Clone for TraceEvent {
    fn clone(&self) -> (r: Self)
        ensures
            r == *self,
    {
        TraceEvent {
            timestamp: self.timestamp.clone(),
            agent_id: self.agent_id.clone(),
            trace_id: self.trace_id.clone(),
            span_id: self.span_id.clone(),
            operation: self.operation.clone(),
            duration_ms: self.duration_ms,
            status: self.status.clone(),
        }
    }
}

/// A metric sample as an agent pushes it.
#[derive(Debug, PartialEq, Eq)]
pub struct MetricData {
    pub timestamp: u64,
    pub agent_id: String,
    pub metric_type: String,
    pub value: Decimal,
    pub labels: Labels,
}

/// What a pushed metric sample holds.
pub struct MetricDataView {
    pub timestamp: u64,
    pub agent_id: Seq<char>,
    pub metric_type: Seq<char>,
    pub value: int,
    pub labels: Seq<(Seq<char>, Seq<char>)>,
}

impl View for MetricData {
    type V = MetricDataView;

    open spec fn view(&self) -> MetricDataView {
        MetricDataView {
            timestamp: self.timestamp,
            agent_id: self.agent_id@,
            metric_type: self.metric_type@,
            value: self.value.milli as int,
            labels: self.labels@,
        }
    }
}

impl Clone for MetricData {
    fn clone(&self) -> (r: Self)
        ensures
            r@ == self@,
    {
        MetricData {
            timestamp: self.timestamp,
            agent_id: self.agent_id.clone(),
            metric_type: self.metric_type.clone(),
            value: self.value,
            labels: self.labels.clone(),
        }
    }
}

/// A log record as an agent pushes it.
#[derive(Debug, PartialEq, Eq)]
pub struct LogData {
    pub timestamp: u64,
    pub agent_id: String,
    pub level: String,
    pub message: String,
    pub source: String,
}

impl Clone for LogData {
    fn clone(&self) -> (r: Self)
        ensures
            r == *self,
    {
        LogData {
            timestamp: self.timestamp,
            agent_id: self.agent_id.clone(),
            level: self.level.clone(),
            message: self.message.clone(),
            source: self.source.clone(),
        }
    }
}

/// A trace span as an agent pushes it.
#[derive(Debug, PartialEq, Eq)]
pub struct TraceData {
    pub timestamp: u64,
    pub agent_id: String,
    pub trace_id: String,
    pub span_id: String,
    pub operation: String,
    pub duration_ms: u64,
    pub status: String,
}

impl Clone for TraceData {
    fn clone(&self) -> (r: Self)
        ensures
            r == *self,
    {
        TraceData {
            timestamp: self.timestamp,
            agent_id: self.agent_id.clone(),
            trace_id: self.trace_id.clone(),
            span_id: self.span_id.clone(),
            operation: self.operation.clone(),
            duration_ms: self.duration_ms,
            status: self.status.clone(),
        }
    }
}

/// A sample of one HTTP call.
#[derive(Debug, PartialEq, Eq)]
pub struct HttpCallData {
    pub timestamp: u64,
    pub agent_id: String,
    pub method: String,
    pub url: String,
    pub status_code: u16,
    pub duration_ms: u64,
    pub request_size: u64,
    pub response_size: u64,
}

impl Clone for HttpCallData {
    fn clone(&self) -> (r: Self)
        ensures
            r == *self,
    {
        HttpCallData {
            timestamp: self.timestamp,
            agent_id: self.agent_id.clone(),
            method: self.method.clone(),
            url: self.url.clone(),
            status_code: self.status_code,
            duration_ms: self.duration_ms,
            request_size: self.request_size,
            response_size: self.response_size,
        }
    }
}

/// A sample of one database query.
#[derive(Debug, PartialEq, Eq)]
pub struct DatabaseQueryData {
    pub timestamp: u64,
    pub agent_id: String,
    pub db_type: String,
    pub query: String,
    pub duration_ms: u64,
    pub rows_affected: u64,
    pub error: Option<String>,
}

impl Clone for DatabaseQueryData {
    fn clone(&self) -> (r: Self)
        ensures
            r == *self,
    {
        DatabaseQueryData {
            timestamp: self.timestamp,
            agent_id: self.agent_id.clone(),
            db_type: self.db_type.clone(),
            query: self.query.clone(),
            duration_ms: self.duration_ms,
            rows_affected: self.rows_affected,
            error: clone_optional(&self.error),
        }
    }
}

/// A snapshot of one process.
#[derive(Debug, PartialEq, Eq)]
pub struct ProcessData {
    pub timestamp: u64,
    pub agent_id: String,
    pub pid: u32,
    pub name: String,
    pub cpu_percent: Decimal,
    pub memory_mb: Decimal,
    pub status: String,
}

impl Clone for ProcessData {
    fn clone(&self) -> (r: Self)
        ensures
            r == *self,
    {
        ProcessData {
            timestamp: self.timestamp,
            agent_id: self.agent_id.clone(),
            pid: self.pid,
            name: self.name.clone(),
            cpu_percent: self.cpu_percent,
            memory_mb: self.memory_mb,
            status: self.status.clone(),
        }
    }
}

/// The result of one health check.
#[derive(Debug, PartialEq, Eq)]
pub struct HealthData {
    pub timestamp: u64,
    pub agent_id: String,
    pub url: String,
    pub status_code: u16,
    pub response_time_ms: u64,
    pub is_healthy: bool,
}

impl Clone for HealthData {
    fn clone(&self) -> (r: Self)
        ensures
            r == *self,
    {
        HealthData {
            timestamp: self.timestamp,
            agent_id: self.agent_id.clone(),
            url: self.url.clone(),
            status_code: self.status_code,
            response_time_ms: self.response_time_ms,
            is_healthy: self.is_healthy,
        }
    }
}

/// What a list of metric samples holds.
pub open spec fn metric_views(events: Seq<MetricEvent>) -> Seq<MetricEventView> {
    events.map_values(|m: MetricEvent| m@)
}

/// A copy of a list of log events.
pub fn copy_logs(v: &Vec<LogEvent>) -> (r: Vec<LogEvent>)
    ensures
        r@ == v@,
{
    let mut r: Vec<LogEvent> = Vec::new();
    let mut i: usize = 0;
    while i < v.len()
        invariant
            i <= v.len(),
            r@ == v@.take(i as int),
        decreases v.len() - i,
    {
        r.push(v[i].clone());
        i += 1;
    }
    proof {
        assert(v@.take(v.len() as int) =~= v@);
    }
    r
}

/// A copy of a list of metric samples.
pub fn copy_metrics(v: &Vec<MetricEvent>) -> (r: Vec<MetricEvent>)
    ensures
        metric_views(r@) == metric_views(v@),
{
    let mut r: Vec<MetricEvent> = Vec::new();
    let mut i: usize = 0;
    while i < v.len()
        invariant
            i <= v.len(),
            r@.len() == i,
            forall|k: int| 0 <= k < i ==> (#[trigger] r@[k])@ == v@[k]@,
        decreases v.len() - i,
    {
        r.push(v[i].clone());
        i += 1;
    }
    proof {
        assert(metric_views(r@) =~= metric_views(v@));
    }
    r
}

/// A copy of a list of trace spans.
pub fn copy_traces(v: &Vec<TraceEvent>) -> (r: Vec<TraceEvent>)
    ensures
        r@ == v@,
{
    let mut r: Vec<TraceEvent> = Vec::new();
    let mut i: usize = 0;
    while i < v.len()
        invariant
            i <= v.len(),
            r@ == v@.take(i as int),
        decreases v.len() - i,
    {
        r.push(v[i].clone());
        i += 1;
    }
    proof {
        assert(v@.take(v.len() as int) =~= v@);
    }
    r
}

} // verus!
