//! The configuration of an agent.

use vstd::prelude::*;

verus! {

/// Who the agent is and where it reports.
#[derive(Debug, PartialEq, Eq)]
pub struct AgentConfig {
    pub name: String,
    pub server_url: String,
    pub report_interval: u64,
}

/// What the agent collects.
#[derive(Debug, PartialEq, Eq)]
pub struct CollectionConfig {
    pub metrics: bool,
    pub logs: bool,
    pub traces: bool,
    pub processes: bool,
    pub health: bool,
    pub docker: bool,
    pub nginx_log_path: Option<String>,
    pub health_check_urls: Vec<String>,
}

/// The configuration of an agent.
#[derive(Debug, PartialEq, Eq)]
pub struct Config {
    pub agent: AgentConfig,
    pub collection: CollectionConfig,
}

} // verus!
