//! Plain configuration records: the values the processes are configured
//! with, free of any file-format concern. Loading them from disk is the
//! calling program's business.

use vstd::prelude::*;

verus! {

/// General settings: logging, directories, and the names of the shared
/// memory segments, which must resolve identically in every process.
#[derive(Clone, Debug)]
pub struct GeneralConfig {
    pub log_level: String,
    pub output_dir: String,
    pub generated_dir: String,
    pub shm_seqs: String,
    pub shm_data: String,
    pub shm_bitmap: String,
    pub shm_events: String,
    pub shm_health: String,
    pub shm_control: String,
}

/// Upstream connection settings for the feed processes.
#[derive(Clone, Debug)]
pub struct WsConfig {
    pub max_subscriptions_per_conn: usize,
    pub ping_interval_sec: u64,
    pub heartbeat_timeout_sec: u64,
    pub reconnect_base_ms: u64,
    pub reconnect_max_ms: u64,
}

/// Engine settings.
#[derive(Clone, Debug)]
pub struct EngineConfig {
    pub notification_mode: String,
    pub eventfd_coalesce_us: u64,
}

/// Discovery-pipeline settings.
#[derive(Clone, Debug)]
pub struct DiscoveryConfig {
    pub validation_timeout_sec: u64,
    pub quote_filter: Vec<String>,
    pub min_status: String,
    pub cron_interval_hours: u64,
}

/// Monitoring settings.
#[derive(Clone, Debug)]
pub struct MonitoringConfig {
    pub prometheus_enabled: bool,
    pub stats_log_interval_sec: u64,
}

/// One exchange's endpoints.
#[derive(Clone, Debug)]
pub struct ExchangeEntry {
    pub name: String,
    pub rest_spot: String,
    pub rest_futures: String,
    pub ws_spot: String,
    pub ws_futures: String,
    pub max_ws_subscriptions: usize,
    pub instruments_path_spot: String,
    pub instruments_path_futures: String,
}

/// The configured exchanges.
#[derive(Clone, Debug)]
pub struct ExchangesConfig {
    pub exchange: Vec<ExchangeEntry>,
}

/// One configured direction: a spot source paired with a futures source.
#[derive(Clone, Debug)]
pub struct DirectionConfigEntry {
    pub id: u8,
    pub spot_source: u8,
    pub futures_source: u8,
    pub name: String,
}

/// The configured directions.
#[derive(Clone, Debug)]
pub struct DirectionsConfig {
    pub direction: Vec<DirectionConfigEntry>,
}

} // verus!
