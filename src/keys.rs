//! The statistic, window and selection catalog with its output labels, and
//! the monitoring configuration that carries it.
use vstd::prelude::*;
use crate::time::TimeWindow;

verus! {

/// A tracked statistic.
#[derive(Clone, Copy, Debug, PartialEq, Eq, Hash, Structural)]
pub enum ActivityStatName {
    UserOps,
    GasUsed,
    UniqueActiveAccounts,
}

/// A ranked list of accounts.
#[derive(Clone, Copy, Debug, PartialEq, Eq, Hash, Structural)]
pub enum SelectAccountsBy {
    Recent,
    TopGasConsumers24h,
}

/// Whether the tags of `entries` are pairwise distinct, and so are the labels.
pub open spec fn one_to_one<T>(entries: Seq<(T, String)>) -> bool {
    forall|a: int, b: int|
        0 <= a < b < entries.len() ==> (#[trigger] entries[a]).0 != (#[trigger] entries[b]).0
            && entries[a].1@ != entries[b].1@
}

/// The catalog: each statistic, window and selection kind that is reported,
/// with the label it is reported under.
pub struct ActivityStatsKeys {
    pub activity_stat_names: Vec<(ActivityStatName, String)>,
    pub time_windows: Vec<(TimeWindow, String)>,
    pub select_accounts_by: Vec<(SelectAccountsBy, String)>,
}

impl ActivityStatsKeys {
    /// Every tag appears once in its list and labels do not repeat within
    /// a list.
    pub open spec fn wf(&self) -> bool {
        &&& one_to_one(self.activity_stat_names@)
        &&& one_to_one(self.time_windows@)
        &&& one_to_one(self.select_accounts_by@)
    }
}

/// The same settings under the name the usage monitor knows them by.
pub type UsageMonitoringConfig = ActivityMonitoringConfig;

/// Settings of the activity monitor.
pub struct ActivityMonitoringConfig {
    user_ops_query_url: String,
    accounts_query_url: String,
    stats_refetch_interval_s: u64,
    query_page_size: u64,
    activity_stats_keys: ActivityStatsKeys,
}

impl ActivityMonitoringConfig {
    pub closed spec fn spec_keys(&self) -> ActivityStatsKeys {
        self.activity_stats_keys
    }

    pub closed spec fn spec_user_ops_query_url(&self) -> Seq<char> {
        self.user_ops_query_url@
    }

    pub closed spec fn spec_accounts_query_url(&self) -> Seq<char> {
        self.accounts_query_url@
    }

    pub closed spec fn spec_refetch_interval(&self) -> u64 {
        self.stats_refetch_interval_s
    }

    pub closed spec fn spec_page_size(&self) -> u64 {
        self.query_page_size
    }

    /// A configuration from its parts.
    pub fn from_parts(
        user_ops_query_url: String,
        accounts_query_url: String,
        stats_refetch_interval_s: u64,
        query_page_size: u64,
        activity_stats_keys: ActivityStatsKeys,
    ) -> (r: Self)
        requires
            activity_stats_keys.wf(),
        ensures
            r.spec_user_ops_query_url() == user_ops_query_url@,
            r.spec_accounts_query_url() == accounts_query_url@,
            r.spec_refetch_interval() == stats_refetch_interval_s,
            r.spec_page_size() == query_page_size,
            r.spec_keys() == activity_stats_keys,
    {
        ActivityMonitoringConfig {
            user_ops_query_url,
            accounts_query_url,
            stats_refetch_interval_s,
            query_page_size,
            activity_stats_keys,
        }
    }

    /// URL of the operations feed.
    pub fn user_ops_query_url(&self) -> (r: &str)
        ensures
            r@ == self.spec_user_ops_query_url(),
    {
        self.user_ops_query_url.as_str()
    }

    /// URL of the accounts feed.
    pub fn accounts_query_url(&self) -> (r: &str)
        ensures
            r@ == self.spec_accounts_query_url(),
    {
        self.accounts_query_url.as_str()
    }

    /// Seconds between two refresh cycles.
    pub fn stats_refetch_interval(&self) -> (r: u64)
        ensures
            r == self.spec_refetch_interval(),
    {
        self.stats_refetch_interval_s
    }

    /// Records asked for per page.
    pub fn query_page_size(&self) -> (r: u64)
        ensures
            r == self.spec_page_size(),
    {
        self.query_page_size
    }

    /// The catalog of reported statistics.
    pub fn activity_stats_keys(&self) -> (r: &ActivityStatsKeys)
        ensures
            *r == self.spec_keys(),
    {
        &self.activity_stats_keys
    }
}

} // verus!
