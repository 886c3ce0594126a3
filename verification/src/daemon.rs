//! The refresh run's error taxonomy and the choice of detection strategy.

use vstd::prelude::*;
use crate::config::{DetectCmdConfig, DetectConfig, DetectHttpConfig};

verus! {

/// Why detection failed.
#[derive(Debug)]
pub enum DetectCause {
    /// The detection command could not be launched.
    CommandLaunch,
    /// The HTTP transport failed before a body was read.
    Transport,
    /// The configured pattern does not compile.
    PatternInvalid,
    /// The candidate text is not an IP address literal.
    AddressParse,
}

/// Which provider call failed.
#[derive(Debug)]
pub enum ServiceCause {
    /// Listing the records of the zone failed.
    List,
    /// Creating the record failed.
    Create,
    /// Updating the record failed.
    Update,
}

/// An error returned when attempting to execute a refresh.
#[derive(Debug)]
pub enum RefreshErrorKind {
    /// The configuration admits no run at all.
    ConfigError(&'static str),
    /// The detection mechanism failed.
    DetectError(DetectCause),
    /// Detection worked at the transport level but produced no usable
    /// address; the payload describes what was looked for.
    RuntimeError(String),
    /// A provider API call failed.
    ServiceError(ServiceCause),
}

/// The detection strategy a run settles on.
#[derive(Debug)]
pub enum DetectorChoice {
    /// Run the configured command and parse its standard output.
    Command(DetectCmdConfig),
    /// Issue an HTTP GET and extract the address from the body.
    Http(DetectHttpConfig),
}

/// Settle on a detection strategy: the command detector when configured,
/// else the HTTP detector, else a configuration error. A run whose
/// configuration names no detector makes no process or network call, since
/// the error falls before either detector runs.
pub fn select_detector(config: DetectConfig) -> (r: Result<DetectorChoice, RefreshErrorKind>)
    ensures
        match r {
            Ok(DetectorChoice::Command(c)) => config.cmd == Some(c),
            Ok(DetectorChoice::Http(h)) => config.cmd is None && config.http == Some(h),
            Err(e) => config.cmd is None && config.http is None && (e matches
                RefreshErrorKind::ConfigError(m) && m@ == "No detector configuration provided"@),
        },
{
    if let Some(cmd_cfg) = config.cmd {
        Ok(DetectorChoice::Command(cmd_cfg))
    } else if let Some(http_cfg) = config.http {
        Ok(DetectorChoice::Http(http_cfg))
    } else {
        Err(RefreshErrorKind::ConfigError("No detector configuration provided"))
    }
}

} // verus!
