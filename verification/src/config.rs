//! Configuration of one refresh run: which detector to use and which DNS
//! record to maintain.

use vstd::prelude::*;

verus! {

/// Detection through a local command: the configured string is the path of
/// an executable whose standard output holds the address.
#[derive(Debug)]
pub struct DetectCmdConfig {
    pub cmd: String,
}

/// Detection through an HTTP GET: the body of the response holds the
/// address, optionally to be extracted with a pattern's first capture group.
#[derive(Debug)]
pub struct DetectHttpConfig {
    pub uri: String,
    pub regex: Option<String>,
}

/// Which detection strategies are configured; at most one is used per run,
/// and the command strategy wins when both are present.
#[derive(Debug)]
pub struct DetectConfig {
    pub cmd: Option<DetectCmdConfig>,
    pub http: Option<DetectHttpConfig>,
}

/// The DNS record to maintain at the provider.
#[derive(Debug)]
pub struct ServiceCloudflareConfig {
    pub api_token: String,
    pub zone_id: String,
    pub record_type: String,
    pub name: String,
}

/// Optional provider target; a run without one ends after detection.
#[derive(Debug)]
pub struct ServiceConfig {
    pub cloudflare: Option<ServiceCloudflareConfig>,
}

/// A whole run's configuration.
#[derive(Debug)]
pub struct Config {
    pub detect: DetectConfig,
    pub service: ServiceConfig,
}

} // verus!
