//! The names under which the external index keeps what it is sent.

use crate::text::{chars_of, push_str, string_of};
use vstd::prelude::*;
use vstd::string::StringExecFns;

verus! {

/// The address of the index service.
pub const NODE_URL: &'static str = "http://localhost:9200";

/// The number of hits that a search for metrics asks for.
pub const METRIC_SEARCH_SIZE: u64 = 1000;

/// The kinds of record that are indexed.
#[derive(Clone, Copy, Debug, PartialEq, Eq, Structural)]
pub enum IndexKind {
    Logs,
    Metrics,
    Traces,
}

/// The prefix of the index names of a kind.
pub open spec fn kind_prefix(kind: IndexKind) -> Seq<char> {
    match kind {
        IndexKind::Logs => "logs-"@,
        IndexKind::Metrics => "metrics-"@,
        IndexKind::Traces => "traces-"@,
    }
}

/// The name of the index that holds the records of `kind` of `agent` for
/// the month `month`.
pub open spec fn index_name_of(kind: IndexKind, agent: Seq<char>, month: Seq<char>) -> Seq<char> {
    kind_prefix(kind) + agent + "-"@ + month
}

/// The pattern that names the indices of `kind` of `agent` for every month.
pub open spec fn index_pattern_of(kind: IndexKind, agent: Seq<char>) -> Seq<char> {
    kind_prefix(kind) + agent + "-*"@
}

/// The prefix of the index names of `kind`.
pub fn prefix_for(kind: IndexKind) -> (r: &'static str)
    ensures
        r@ == kind_prefix(kind),
{
    match kind {
        IndexKind::Logs => "logs-",
        IndexKind::Metrics => "metrics-",
        IndexKind::Traces => "traces-",
    }
}

/// The name of the index that holds the records of `kind` of `agent_id` for
/// the month `month`, which is written as year, hyphen, month.
pub fn index_name(kind: IndexKind, agent_id: &str, month: &str) -> (r: String)
    ensures
        r@ == index_name_of(kind, agent_id@, month@),
{
    let mut out: Vec<char> = chars_of(prefix_for(kind));
    push_str(&mut out, agent_id);
    push_str(&mut out, "-");
    push_str(&mut out, month);
    string_of(&out)
}

/// The pattern that names the indices of `kind` of `agent_id` for every
/// month.
pub fn index_pattern(kind: IndexKind, agent_id: &str) -> (r: String)
    ensures
        r@ == index_pattern_of(kind, agent_id@),
{
    let mut out: Vec<char> = chars_of(prefix_for(kind));
    push_str(&mut out, agent_id);
    push_str(&mut out, "-*");
    string_of(&out)
}

/// The client of the index service: the address that it talks to.
#[derive(Debug, PartialEq, Eq)]
pub struct OpenSearchClient {
    pub node_url: String,
}

impl OpenSearchClient {
    /// The client of the index service on this machine.
    pub fn new() -> (r: Self)
        ensures
            r.node_url@ == NODE_URL@,
    {
        OpenSearchClient { node_url: String::from_str(NODE_URL) }
    }
}

} // verus!
