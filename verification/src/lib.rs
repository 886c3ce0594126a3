//! A dynamic-DNS refresh pipeline: detect the host's current public IP
//! address, compare it with the DNS record a provider currently serves, and
//! decide whether the record must be created, updated, or left alone.

pub mod addr;
pub mod config;
pub mod detect;
pub mod daemon;
pub mod service;
pub mod util;
