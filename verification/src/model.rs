use vstd::prelude::*;
use crate::amount::Dollars;

verus! {

/// Health report of the relay service.
#[derive(Debug, Clone, PartialEq)]
pub struct Health {
    pub status: String,
    pub service: Option<String>,
    pub version: Option<String>,
    pub redis_status: Option<String>,
}

/// Lifetime usage of an API key.
#[derive(Debug, Clone, PartialEq)]
pub struct UsageTotal {
    pub requests: u64,
    pub input_tokens: u64,
    pub output_tokens: u64,
    pub cache_read_tokens: u64,
    pub all_tokens: u64,
    pub cost: Dollars,
    pub formatted_cost: Option<String>,
}

/// Limits of an API key.
#[derive(Debug, Clone, PartialEq)]
pub struct Limits {
    pub daily_cost_limit: Dollars,
    pub total_cost_limit: Dollars,
    pub current_daily_cost: Dollars,
    pub current_total_cost: Dollars,
    pub concurrency_limit: u64,
    pub rate_limit_window: u64,
    pub rate_limit_requests: u64,
    pub rate_limit_cost: Dollars,
}

/// Statistics of one API key.
#[derive(Debug, Clone, PartialEq)]
pub struct UserStats {
    pub name: Option<String>,
    pub is_active: bool,
    pub is_activated: bool,
    pub expires_at: Option<String>,
    pub permissions: Vec<String>,
    pub total: UsageTotal,
    pub limits: Limits,
}

/// Usage of one model over a period.
#[derive(Debug, Clone, PartialEq)]
pub struct ModelStat {
    pub model: String,
    pub requests: u64,
    pub input_tokens: u64,
    pub output_tokens: u64,
    pub cache_read_tokens: u64,
    pub all_tokens: u64,
    pub cost: Dollars,
    pub formatted_cost: Option<String>,
}

/// Everything one refresh fetched from the relay service.
#[derive(Debug, Clone, PartialEq)]
pub struct Snapshot {
    pub health: Health,
    pub user: UserStats,
    pub daily: Vec<ModelStat>,
    pub monthly: Vec<ModelStat>,
    pub pool_visible: bool,
    pub last_error: Option<String>,
    pub fetched_at: String,
}

/// The overall level (`OK`, `WARN` or `FAIL`) and the lines of the status log.
#[derive(Debug, Clone, PartialEq, Eq)]
pub struct StatusResult {
    pub level: String,
    pub messages: Vec<String>,
}

/// A copy of an optional string, equal to it.
pub fn copy_opt_string(o: &Option<String>) -> (r: Option<String>)
    ensures
        r == *o,
{
    match o {
        Some(s) => Some(s.clone()),
        None => None,
    }
}

impl ModelStat {
    /// A copy of this row, equal to it.
    pub fn duplicate(&self) -> (r: ModelStat)
        ensures
            r == *self,
    {
        ModelStat {
            model: self.model.clone(),
            requests: self.requests,
            input_tokens: self.input_tokens,
            output_tokens: self.output_tokens,
            cache_read_tokens: self.cache_read_tokens,
            all_tokens: self.all_tokens,
            cost: self.cost,
            formatted_cost: copy_opt_string(&self.formatted_cost),
        }
    }
}

} // verus!
