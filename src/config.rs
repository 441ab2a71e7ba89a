//! Settings of the network-status and bridge monitors.
use vstd::prelude::*;

verus! {

/// Endpoints and retry settings of the network-status monitor.
#[derive(Debug)]
pub struct NetworkConfig {
    rpc_url: String,
    reth_url: String,
    bundler_url: String,
    max_retries: u64,
    total_retry_time: u64,
    deposit_wallet: String,
    validating_wallet: String,
}

impl NetworkConfig {
    pub closed spec fn spec_rpc_url(&self) -> Seq<char> {
        self.rpc_url@
    }

    pub closed spec fn spec_reth_url(&self) -> Seq<char> {
        self.reth_url@
    }

    pub closed spec fn spec_bundler_url(&self) -> Seq<char> {
        self.bundler_url@
    }

    pub closed spec fn spec_max_retries(&self) -> u64 {
        self.max_retries
    }

    pub closed spec fn spec_total_retry_time(&self) -> u64 {
        self.total_retry_time
    }

    pub closed spec fn spec_deposit_wallet(&self) -> Seq<char> {
        self.deposit_wallet@
    }

    pub closed spec fn spec_validating_wallet(&self) -> Seq<char> {
        self.validating_wallet@
    }

    /// A configuration from its parts.
    pub fn from_parts(
        rpc_url: String,
        reth_url: String,
        bundler_url: String,
        max_retries: u64,
        total_retry_time: u64,
        deposit_wallet: String,
        validating_wallet: String,
    ) -> (r: Self)
        ensures
            r.spec_rpc_url() == rpc_url@,
            r.spec_reth_url() == reth_url@,
            r.spec_bundler_url() == bundler_url@,
            r.spec_max_retries() == max_retries,
            r.spec_total_retry_time() == total_retry_time,
            r.spec_deposit_wallet() == deposit_wallet@,
            r.spec_validating_wallet() == validating_wallet@,
    {
        NetworkConfig {
            rpc_url,
            reth_url,
            bundler_url,
            max_retries,
            total_retry_time,
            deposit_wallet,
            validating_wallet,
        }
    }

    /// JSON-RPC endpoint of the chain client.
    pub fn rpc_url(&self) -> (r: &str)
        ensures
            r@ == self.spec_rpc_url(),
    {
        self.rpc_url.as_str()
    }

    /// Bundler health-check URL.
    pub fn bundler_url(&self) -> (r: &str)
        ensures
            r@ == self.spec_bundler_url(),
    {
        self.bundler_url.as_str()
    }

    /// JSON-RPC endpoint used for wallet balances.
    pub fn reth_url(&self) -> (r: &str)
        ensures
            r@ == self.spec_reth_url(),
    {
        self.reth_url.as_str()
    }

    /// Retries of a status query before it counts as offline.
    pub fn max_retries(&self) -> (r: u64)
        ensures
            r == self.spec_max_retries(),
    {
        self.max_retries
    }

    /// Seconds to spend retrying in total.
    pub fn total_retry_time(&self) -> (r: u64)
        ensures
            r == self.spec_total_retry_time(),
    {
        self.total_retry_time
    }

    /// Address of the deposit paymaster wallet.
    pub fn deposit_wallet(&self) -> (r: &str)
        ensures
            r@ == self.spec_deposit_wallet(),
    {
        self.deposit_wallet.as_str()
    }

    /// Address of the validating paymaster wallet.
    pub fn validating_wallet(&self) -> (r: &str)
        ensures
            r@ == self.spec_validating_wallet(),
    {
        self.validating_wallet.as_str()
    }
}

/// Endpoints and refresh interval of the bridge monitor.
#[derive(Debug)]
pub struct BridgeMonitoringConfig {
    strata_rpc_url: String,
    bridge_rpc_url: String,
    status_refetch_interval_s: u64,
}

impl BridgeMonitoringConfig {
    pub closed spec fn spec_strata_rpc_url(&self) -> Seq<char> {
        self.strata_rpc_url@
    }

    pub closed spec fn spec_bridge_rpc_url(&self) -> Seq<char> {
        self.bridge_rpc_url@
    }

    pub closed spec fn spec_status_refetch_interval(&self) -> u64 {
        self.status_refetch_interval_s
    }

    /// A configuration from its parts.
    pub fn from_parts(strata_rpc_url: String, bridge_rpc_url: String, status_refetch_interval_s: u64) -> (r: Self)
        ensures
            r.spec_strata_rpc_url() == strata_rpc_url@,
            r.spec_bridge_rpc_url() == bridge_rpc_url@,
            r.spec_status_refetch_interval() == status_refetch_interval_s,
    {
        BridgeMonitoringConfig { strata_rpc_url, bridge_rpc_url, status_refetch_interval_s }
    }

    /// JSON-RPC endpoint of the chain client.
    pub fn strata_rpc_url(&self) -> (r: &str)
        ensures
            r@ == self.spec_strata_rpc_url(),
    {
        self.strata_rpc_url.as_str()
    }

    /// JSON-RPC endpoint of the bridge operators.
    pub fn bridge_rpc_url(&self) -> (r: &str)
        ensures
            r@ == self.spec_bridge_rpc_url(),
    {
        self.bridge_rpc_url.as_str()
    }

    /// Seconds between two bridge status refreshes.
    pub fn status_refetch_interval(&self) -> (r: u64)
        ensures
            r == self.spec_status_refetch_interval(),
    {
        self.status_refetch_interval_s
    }
}

} // verus!
