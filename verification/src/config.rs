//! Configuration values the pipeline consumes, as plain data. Reading
//! them from a file is I/O and happens outside the library; validation of
//! what they promise happens here, in the components that consume them.

use vstd::prelude::*;

verus! {

/// Identity of the chain being indexed.
#[derive(Debug)]
pub struct ChainConfig {
    pub chain_id: String,
    pub chain_name: String,
    pub icon_url: Option<String>,
    pub website: Option<String>,
}

/// Endpoints, the ingestion window, and the fetch policy of the fetcher:
/// how many heights are fetched concurrently and how many consecutive
/// transient failures are retried before the pipeline gives up.
#[derive(Debug)]
pub struct FetcherConfig {
    pub tendermint_rpc_endpoint: String,
    pub grpc_endpoint: String,
    pub rest_api_endpoint: String,
    pub start_block: i64,
    pub try_resume_from_db: bool,
    pub in_flight_limit: usize,
    pub max_fetch_retries: u32,
}

/// Engine-wide switches.
#[derive(Debug)]
pub struct EngineConfig {
    pub fetcher_account_enabled: bool,
}

/// Endpoints of the chain client.
#[derive(Debug)]
pub struct ClientConfig {
    pub tendermint_rpc_endpoint: String,
    pub grpc_endpoint: String,
    pub rest_api_endpoint: String,
}

/// Connection parameters of the relational store.
#[derive(Debug)]
pub struct DBConfig {
    pub host: String,
    pub port: u32,
    pub user: String,
    pub password: String,
    pub database: String,
}

/// Bind address and allowed origin of the read-serving facade.
#[derive(Debug)]
pub struct ServerConfig {
    pub host: String,
    pub port: u16,
    pub allowed_host: String,
}

/// The whole engine configuration.
#[derive(Debug)]
pub struct Config {
    pub engine: EngineConfig,
    pub fetcher: FetcherConfig,
    pub chain: ChainConfig,
    pub db: DBConfig,
}

} // verus!
