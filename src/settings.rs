use vstd::prelude::*;

verus! {

/// Settings of the configuration store.
#[derive(Debug, Clone)]
pub struct DatabaseConfig {
    pub path: String,
    pub max_size: u64,
    pub sync_interval: u64,
}

/// Settings of the response cache, in entries and seconds.
#[derive(Debug, Clone, Copy, PartialEq, Eq, Structural)]
pub struct CacheConfig {
    pub capacity: usize,
    pub ttl: u64,
}

/// Sizes of the pools and caches of one gateway.
#[derive(Debug, Clone, Copy, PartialEq, Eq, Structural)]
pub struct PerformanceConfig {
    pub pool_size: usize,
    pub cache_size: usize,
    pub ai_cache_size: usize,
    pub max_connections: usize,
}

/// One completion provider.
#[derive(Debug, Clone)]
pub struct AIProviderConfig {
    pub name: String,
    pub api_key: String,
    pub endpoint: String,
    pub model: String,
    pub max_tokens: usize,
    pub timeout: u64,
}

/// Where and how to reach a remote shell. The secrets are only held while
/// a connection is being opened.
#[derive(Debug, Clone)]
pub struct SSHConfig {
    pub host: String,
    pub port: u16,
    pub username: String,
    pub password: Option<String>,
    pub private_key: Option<String>,
    pub timeout: Option<u64>,
    pub keepalive_interval: Option<u64>,
    pub compression: Option<bool>,
}

/// Buffer and object pool sizes.
#[derive(Debug, Clone, Copy, PartialEq, Eq, Structural)]
pub struct MemoryPoolConfig {
    pub buffer_pool_size: usize,
    pub connection_pool_size: usize,
    pub response_pool_size: usize,
    pub enable_numa_awareness: bool,
}

/// Socket options of the client listener.
#[derive(Debug, Clone, Copy, PartialEq, Eq, Structural)]
pub struct NetworkConfig {
    pub tcp_nodelay: bool,
    pub tcp_keepalive: bool,
    pub buffer_size: usize,
    pub enable_multi_accept: bool,
    pub enable_reuseport: bool,
}

/// A load run: durations in milliseconds.
#[derive(Debug, Clone, Copy, PartialEq, Eq, Structural)]
pub struct BenchmarkConfig {
    pub duration: u64,
    pub concurrent_connections: usize,
    pub message_size: usize,
    pub messages_per_second: usize,
    pub warmup_duration: u64,
}

impl Default for BenchmarkConfig {
    fn default() -> (r: BenchmarkConfig)
        ensures
            r == (BenchmarkConfig {
                duration: 60_000,
                concurrent_connections: 100,
                message_size: 1024,
                messages_per_second: 1000,
                warmup_duration: 10_000,
            }),
    {
        BenchmarkConfig {
            duration: 60_000,
            concurrent_connections: 100,
            message_size: 1024,
            messages_per_second: 1000,
            warmup_duration: 10_000,
        }
    }
}

/// Latency distribution of a load run, in microseconds.
#[derive(Debug, Clone, Copy, PartialEq, Eq, Structural)]
pub struct LatencyMetrics {
    pub min: u64,
    pub max: u64,
    pub mean: u64,
    pub p50: u64,
    pub p95: u64,
    pub p99: u64,
    pub p999: u64,
}

} // verus!
